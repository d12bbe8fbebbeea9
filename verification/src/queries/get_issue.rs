//! Fetching one issue with its comments and targets.
use vstd::prelude::*;
use crate::queries::QueryRequest;
use crate::clock::Stamp;
use crate::status::{IssueStatus, TargetStatus, ToOffline};
pub use crate::cli::GetVariables as Variables;

verus! {

/// The operation that fetches one issue.
pub struct GetIssue;

pub const OPERATION_NAME: &'static str = "GetIssue";

pub const QUERY: &'static str = "query GetIssue($id: Int!){\n  issue(issue: $id){\n    assignedTo,\n    createdAt,\n    createdBy,\n    description,\n    toOffline,\n    id,\n    status,\n    title,\n    comments{createdBy, comment, createdAt},\n    target{name, status},\n    related{name, status}\n  }\n}\n";

/// An issue, as the server describes it.
pub struct GetIssueIssue {
    pub assigned_to: Option<String>,
    pub created_at: Stamp,
    pub created_by: String,
    pub description: String,
    pub to_offline: Option<ToOffline>,
    pub id: i32,
    pub issue_status: IssueStatus,
    pub title: String,
    pub comments: Vec<GetIssueIssueComments>,
    pub target: Option<GetIssueIssueTarget>,
    pub related: Vec<GetIssueIssueTarget>,
}

/// A comment on an issue.
pub struct GetIssueIssueComments {
    pub created_by: String,
    pub comment: String,
    pub created_at: Stamp,
}

/// A target of an issue, or a target related to it, with its state.
pub struct GetIssueIssueTarget {
    pub name: String,
    pub status: TargetStatus,
}

impl GetIssue {
    /// The request body that asks for this operation with `variables`.
    pub fn build_query(variables: Variables) -> (body: QueryRequest<Variables>)
        ensures
            body.variables == variables,
            body.query@ == QUERY@,
            body.operation_name@ == OPERATION_NAME@,
    {
        QueryRequest { variables, query: QUERY, operation_name: OPERATION_NAME }
    }
}

} // verus!
