//! Changing an issue.
use vstd::prelude::*;
use crate::queries::QueryRequest;
pub use crate::cli::ModifyUpdateIssue as UpdateIssue;

verus! {

/// The operation that changes an issue and returns it as it now stands.
pub struct ModifyIssue;

pub const OPERATION_NAME: &'static str = "ModifyIssue";

pub const QUERY: &'static str = "mutation ModifyIssue($issue: UpdateIssue!){\n  updateIssue(issue: $issue){\n    assignedTo,\n    createdAt,\n    createdBy,\n    description,\n    toOffline,\n    id,\n    status,\n    title,\n    comments{createdBy, comment, createdAt},\n    target{name, status},\n    related{name, status}\n  }\n}\n";

/// The variables of the operation: the changes.
pub struct Variables {
    pub issue: UpdateIssue,
}

impl ModifyIssue {
    /// The request body that asks for this operation with `variables`.
    pub fn build_query(variables: Variables) -> (body: QueryRequest<Variables>)
        ensures
            body.variables == variables,
            body.query@ == QUERY@,
            body.operation_name@ == OPERATION_NAME@,
    {
        QueryRequest { variables, query: QUERY, operation_name: OPERATION_NAME }
    }
}

} // verus!
