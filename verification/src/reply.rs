//! What the client makes of the server's answer to a GraphQL request.
//!
//! An answer carries optional data and an optional list of error messages.
//! The first error message, when there is a list, is what the user sees;
//! otherwise the data is the result.
use vstd::prelude::*;

verus! {

/// The parts of a GraphQL answer that the client reads: the data, and the
/// messages of the top-level errors.
pub struct Reply<T> {
    pub data: Option<T>,
    pub errors: Option<Vec<String>>,
}

/// The answers that the client knows how to settle: a list of errors is
/// never empty, and an answer without errors carries data.
pub open spec fn settleable<T>(reply: Reply<T>) -> bool {
    match reply.errors {
        Some(errs) => errs@.len() > 0,
        None => reply.data is Some,
    }
}

/// The outcome of an answer, as views: the first error message, or the data.
pub open spec fn settled<T>(reply: Reply<T>) -> Result<T, Seq<char>> {
    match reply.errors {
        Some(errs) => Err(errs@[0]@),
        None => Ok(reply.data->0),
    }
}

/// The view of an outcome whose error is a `String`.
pub open spec fn outcome_view<T>(r: Result<T, String>) -> Result<T, Seq<char>> {
    match r {
        Ok(v) => Ok(v),
        Err(e) => Err(e@),
    }
}

/// Settles an answer: the first error message if the server reported
/// errors, the data otherwise.
pub fn settle<T>(reply: Reply<T>) -> (outcome: Result<T, String>)
    requires
        settleable(reply),
    ensures
        outcome_view(outcome) == settled(reply),
{
    match reply.errors {
        Some(errs) => {
            let first = errs[0].clone();
            Err(first)
        },
        None => Ok(reply.data.unwrap()),
    }
}

/// Settles the outcome of a request whose transport may itself fail: a
/// transport failure is reported with its own message, an answer is settled.
pub fn settle_transport<T>(sent: Result<Reply<T>, String>) -> (outcome: Result<T, String>)
    requires
        sent matches Ok(reply) ==> settleable(reply),
    ensures
        match sent {
            Ok(reply) => outcome_view(outcome) == settled(reply),
            Err(msg) => outcome_view(outcome) == Err::<T, Seq<char>>(msg@),
        },
{
    match sent {
        Ok(reply) => settle(reply),
        Err(msg) => Err(msg),
    }
}

/// Errors come first: an answer that carries a list of errors settles as
/// its first error message, whether or not it also carries data.
pub proof fn lemma_errors_take_precedence<T>(data: Option<T>, errs: Vec<String>)
    requires
        errs@.len() > 0,
    ensures
        settled(Reply { data, errors: Some(errs) }) == Err::<T, Seq<char>>(errs@[0]@),
{
}

/// Only an answer without errors settles as its data.
pub proof fn lemma_data_without_errors<T>(d: T)
    ensures
        settled(Reply::<T> { data: Some(d), errors: None }) == Ok::<T, Seq<char>>(d),
{
}

/// An answer settles as success exactly when it carries no errors.
pub proof fn lemma_ok_iff_no_errors<T>(reply: Reply<T>)
    requires
        settleable(reply),
    ensures
        settled(reply) is Ok <==> reply.errors is None,
        settled(reply) matches Ok(v) ==> reply.data == Some(v),
        settled(reply) matches Err(m) ==> reply.errors matches Some(errs) && m == errs@[0]@,
{
}

} // verus!
