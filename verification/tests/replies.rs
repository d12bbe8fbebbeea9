use ctt::reply::{settle, settle_transport, Reply};

#[test]
fn settle_reports_first_error() {
    let reply: Reply<i32> = Reply {
        data: Some(7),
        errors: Some(vec!["issue not found".to_string(), "second".to_string()]),
    };
    assert_eq!(settle(reply), Err("issue not found".to_string()));
}

#[test]
fn settle_returns_data_without_errors() {
    let reply: Reply<i32> = Reply { data: Some(42), errors: None };
    assert_eq!(settle(reply), Ok(42));
}

#[test]
fn settle_transport_passes_transport_error() {
    let sent: Result<Reply<i32>, String> = Err("connection refused".to_string());
    assert_eq!(settle_transport(sent), Err("connection refused".to_string()));
}

#[test]
fn settle_transport_settles_answer() {
    let sent: Result<Reply<String>, String> =
        Ok(Reply { data: Some("closed".to_string()), errors: None });
    assert_eq!(settle_transport(sent), Ok("closed".to_string()));
    let sent: Result<Reply<String>, String> =
        Ok(Reply { data: None, errors: Some(vec!["denied".to_string()]) });
    assert_eq!(settle_transport(sent), Err("denied".to_string()));
}
