//! Opening an issue.
use vstd::prelude::*;
use crate::queries::QueryRequest;
pub use crate::cli::OpenNewIssue as NewIssue;

verus! {

/// The operation that opens an issue.
pub struct OpenIssue;

pub const OPERATION_NAME: &'static str = "OpenIssue";

pub const QUERY: &'static str = "mutation OpenIssue($newIssue: NewIssue!){\n  open(issue: $newIssue){\n    id\n  }\n}\n";

/// The variables of the operation: the new issue.
pub struct Variables {
    pub new_issue: NewIssue,
}

impl OpenIssue {
    /// The request body that asks for this operation with `variables`.
    pub fn build_query(variables: Variables) -> (body: QueryRequest<Variables>)
        ensures
            body.variables == variables,
            body.query@ == QUERY@,
            body.operation_name@ == OPERATION_NAME@,
    {
        QueryRequest { variables, query: QUERY, operation_name: OPERATION_NAME }
    }
}

} // verus!
