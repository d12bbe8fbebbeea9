//! The GraphQL operations that the client sends, and the values the server
//! answers with.
pub mod close_issue;
pub mod get_issue;
pub mod list_issues;
pub mod modify_issue;
pub mod open_issue;
pub mod version;

use vstd::prelude::*;

verus! {

/// The body of a GraphQL request: the operation's text, its name, and the
/// values of its variables.
pub struct QueryRequest<V> {
    pub variables: V,
    pub query: &'static str,
    pub operation_name: &'static str,
}

} // verus!
