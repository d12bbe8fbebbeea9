//! Asking the server for its version.
use vstd::prelude::*;
use crate::queries::QueryRequest;

verus! {

/// The operation that asks for the server's version.
pub struct GetVersion;

pub const OPERATION_NAME: &'static str = "GetVersion";

pub const QUERY: &'static str = "query GetVersion(){version}\n";

/// The operation takes no variables.
pub struct Variables {}

impl GetVersion {
    /// The request body that asks for this operation with `variables`.
    pub fn build_query(variables: Variables) -> (body: QueryRequest<Variables>)
        ensures
            body.variables == variables,
            body.query@ == QUERY@,
            body.operation_name@ == OPERATION_NAME@,
    {
        QueryRequest { variables, query: QUERY, operation_name: OPERATION_NAME }
    }
}

} // verus!
