//! The lines the client prints about the outcome of a command.
use vstd::prelude::*;
use crate::text::{decimal_string, signed_decimal};

verus! {

/// What the client was doing when the server refused.
#[derive(Clone, Copy, Debug, PartialEq, Eq, Structural)]
pub enum Action {
    Opening,
    Listing,
    Closing,
    Showing,
    Updating,
}

/// The words that name an action in a message.
pub open spec fn action_words(a: Action) -> Seq<char> {
    match a {
        Action::Opening => "opening issue"@,
        Action::Listing => "listing issues"@,
        Action::Closing => "closing issue"@,
        Action::Showing => "showing issue"@,
        Action::Updating => "updating issue"@,
    }
}

fn action_str(a: Action) -> (words: &'static str)
    ensures
        words@ == action_words(a),
{
    match a {
        Action::Opening => "opening issue",
        Action::Listing => "listing issues",
        Action::Closing => "closing issue",
        Action::Showing => "showing issue",
        Action::Updating => "updating issue",
    }
}

/// The message for a refused action: `Error <action>: <reason>`.
pub fn failure_message(a: Action, reason: &str) -> (msg: String)
    ensures
        msg@ == "Error "@ + action_words(a) + ": "@ + reason@,
{
    let mut msg = String::from_str("Error ");
    msg.append(action_str(a));
    msg.append(": ");
    msg.append(reason);
    msg
}

/// The message for a newly opened issue: `Opened issue <id>`.
pub fn opened_message(id: i32) -> (msg: String)
    ensures
        msg@ == "Opened issue "@ + signed_decimal(id as int),
{
    let mut msg = String::from_str("Opened issue ");
    let n = decimal_string(id as i64);
    msg.append(n.as_str());
    msg
}

/// The message when the issue asked for does not exist.
pub fn not_found_message() -> (msg: String)
    ensures
        msg@ == "Issue not found"@,
{
    String::from_str("Issue not found")
}

} // verus!
