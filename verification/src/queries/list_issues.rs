//! Listing issues.
use vstd::prelude::*;
use crate::queries::QueryRequest;
use crate::clock::Stamp;
use crate::status::{TargetStatus, ToOffline};
pub use crate::cli::ListVariables as Variables;

verus! {

/// The operation that lists issues, filtered by status and target.
pub struct ListIssues;

pub const OPERATION_NAME: &'static str = "ListIssues";

pub const QUERY: &'static str = "query ListIssues($status: IssueStatus, $target: String){\n  issues(issueStatus: $status, target: $target){\n    assignedTo,\n    id,\n    title,\n    toOffline,\n    updatedAt,\n    target{name, status},\n    related{name, status}\n  }\n}\n";

/// An issue as the listing describes it.
pub struct ListIssuesIssues {
    pub assigned_to: Option<String>,
    pub id: i32,
    pub title: String,
    pub to_offline: Option<ToOffline>,
    pub updated_at: Stamp,
    pub target: Option<ListIssuesIssuesTarget>,
    pub related: Vec<ListIssuesIssuesTarget>,
}

/// A target of a listed issue, with its state.
pub struct ListIssuesIssuesTarget {
    pub name: String,
    pub status: TargetStatus,
}

impl ListIssues {
    /// The request body that asks for this operation with `variables`.
    pub fn build_query(variables: Variables) -> (body: QueryRequest<Variables>)
        ensures
            body.variables == variables,
            body.query@ == QUERY@,
            body.operation_name@ == OPERATION_NAME@,
    {
        QueryRequest { variables, query: QUERY, operation_name: OPERATION_NAME }
    }
}

} // verus!
