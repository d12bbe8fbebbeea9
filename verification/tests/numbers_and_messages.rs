use ctt::cli::{default_to_offline, Cli, Command, GetVariables, Token};
use ctt::report::{failure_message, not_found_message, opened_message, Action};
use ctt::retry::RetryBudget;
use ctt::status::ToOffline;
use ctt::text::decimal_string;

#[test]
fn decimal_numerals() {
    assert_eq!(decimal_string(0), "0");
    assert_eq!(decimal_string(7), "7");
    assert_eq!(decimal_string(10), "10");
    assert_eq!(decimal_string(1234567), "1234567");
    assert_eq!(decimal_string(-42), "-42");
    assert_eq!(decimal_string(i64::MIN), i64::MIN.to_string());
    assert_eq!(decimal_string(i64::MAX), i64::MAX.to_string());
}

#[test]
fn messages() {
    assert_eq!(opened_message(17), "Opened issue 17");
    assert_eq!(failure_message(Action::Opening, "bad target"), "Error opening issue: bad target");
    assert_eq!(failure_message(Action::Listing, "x"), "Error listing issues: x");
    assert_eq!(failure_message(Action::Closing, "x"), "Error closing issue: x");
    assert_eq!(failure_message(Action::Showing, "x"), "Error showing issue: x");
    assert_eq!(failure_message(Action::Updating, "x"), "Error updating issue: x");
    assert_eq!(not_found_message(), "Issue not found");
}

#[test]
fn retry_limit_defaults_to_three() {
    let cli = Cli { cmd: Command::Show(GetVariables { id: 1 }), server: None, retries: None, format: None };
    assert_eq!(cli.retry_limit(), 3);
    let cli = Cli { cmd: Command::Version, server: None, retries: Some(5), format: None };
    assert_eq!(cli.retry_limit(), 5);
}

#[test]
fn retry_budget_counts_tries() {
    let mut b = RetryBudget::new(3);
    let mut tries = 0;
    while b.may_try() {
        b.spend();
        tries += 1;
    }
    assert_eq!(tries, 3);
    let b = RetryBudget::new(0);
    assert!(!b.may_try());
    let b = RetryBudget::new(-2);
    assert!(!b.may_try());
}

#[test]
fn bearer_header() {
    let t = Token { token: "abc.def".to_string() };
    assert_eq!(t.bearer(), "Bearer abc.def");
}

#[test]
fn default_scope_is_node() {
    assert_eq!(default_to_offline(), ToOffline::Node);
}
