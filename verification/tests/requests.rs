use ctt::cli::{CloseVariables, GetVariables};
use ctt::queries::{close_issue, get_issue, version};

#[test]
fn get_issue_request() {
    let body = get_issue::GetIssue::build_query(GetVariables { id: 4 });
    assert_eq!(body.variables.id, 4);
    assert_eq!(body.operation_name, "GetIssue");
    assert!(body.query.starts_with("query GetIssue($id: Int!)"));
}

#[test]
fn version_request() {
    let body = version::GetVersion::build_query(version::Variables {});
    assert_eq!(body.operation_name, "GetVersion");
    assert_eq!(body.query, "query GetVersion(){version}\n");
}

#[test]
fn close_request() {
    let body = close_issue::CloseIssue::build_query(CloseVariables { id: 3, comment: "fixed".to_string() });
    assert_eq!(body.variables.comment, "fixed");
    assert_eq!(body.operation_name, "CloseIssue");
}
