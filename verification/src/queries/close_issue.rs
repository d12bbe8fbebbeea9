//! Closing an issue.
use vstd::prelude::*;
use crate::queries::QueryRequest;
pub use crate::cli::CloseVariables as Variables;

verus! {

/// The operation that closes an issue with a comment.
pub struct CloseIssue;

pub const OPERATION_NAME: &'static str = "CloseIssue";

pub const QUERY: &'static str = "mutation CloseIssue($id: Int!, $comment: String!){\n  close(issue: $id, comment: $comment)\n}\n";

impl CloseIssue {
    /// The request body that asks for this operation with `variables`.
    pub fn build_query(variables: Variables) -> (body: QueryRequest<Variables>)
        ensures
            body.variables == variables,
            body.query@ == QUERY@,
            body.operation_name@ == OPERATION_NAME@,
    {
        QueryRequest { variables, query: QUERY, operation_name: OPERATION_NAME }
    }
}

} // verus!
