//! Lets HTTP-client results take descriptive context the way other results
//! do: a failure's message is enriched while its classification is kept, and
//! a success passes through untouched.
use vstd::prelude::*;

verus! {

#[verifier::external_type_specification]
#[verifier::external_body]
pub struct ExSurfError(surf::Error);

/// Attaches the given message to a failure. No arm is invented or repaired:
/// a success is returned unchanged, and a failure stays one.
/// Relies on `Result::map_err`, `surf::Error::{new, status, into_inner}`
/// and `anyhow::Error::context`: only the error arm is rebuilt, around the
/// same status code, with the message attached to the inner error.
#[verifier::external_body]
pub fn context<T>(r: Result<T, surf::Error>, msg: &str) -> (out: Result<T, surf::Error>)
    ensures
        out is Ok <==> r is Ok,
        r is Ok ==> out == r,
{
    r.map_err(|e| surf::Error::new(e.status(), e.into_inner().context(msg.to_string())))
}

/// Attaches a lazily computed message to a failure: the closure is handed to
/// the error arm alone, so it runs only when the result is one. A success is
/// returned unchanged.
/// Relies on the same outside items as `context`.
#[verifier::external_body]
pub fn with_context<T, F: FnOnce() -> String>(r: Result<T, surf::Error>, f: F) -> (out: Result<
    T,
    surf::Error,
>)
    ensures
        out is Ok <==> r is Ok,
        r is Ok ==> out == r,
{
    r.map_err(|e| surf::Error::new(e.status(), e.into_inner().context(f())))
}

} // verus!
