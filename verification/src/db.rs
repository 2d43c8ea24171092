//! The decisions around the database: the authorization header sent with
//! every request, and what an HTTP status answer means.
use vstd::prelude::*;
use crate::error::ScrapeError;
use crate::text::{chars_of, string_of};

verus! {

/// Whether an HTTP status is a success (`200..=299`, as
/// `StatusCode::is_success` tests).
pub open spec fn is_success(status: u16) -> bool {
    200 <= status <= 299
}

/// Whether an HTTP status is a success.
pub fn is_success_status(status: u16) -> (b: bool)
    ensures
        b == is_success(status),
{
    200 <= status && status <= 299
}

/// The value of the `Authorization` header for a service key.
pub open spec fn bearer_spec(service_key: Seq<char>) -> Seq<char> {
    "Bearer "@ + service_key
}

/// The value of the `Authorization` header for a service key.
pub fn bearer(service_key: &str) -> (r: String)
    ensures
        r@ == bearer_spec(service_key@),
{
    let mut out = chars_of("Bearer ");
    out.append(&mut chars_of(service_key));
    string_of(&out)
}

/// The outcome of a ping of the database answered with `status`.
pub fn ping_outcome(status: u16) -> (r: Result<(), ScrapeError>)
    ensures
        r is Ok <==> is_success(status),
        r matches Err(e) ==> e == ScrapeError::PingFailed(status),
{
    if is_success_status(status) {
        Ok(())
    } else {
        Err(ScrapeError::PingFailed(status))
    }
}

/// The outcome of an insertion into the database answered with `status`.
pub fn insert_outcome(status: u16) -> (r: Result<(), ScrapeError>)
    ensures
        r is Ok <==> is_success(status),
        r matches Err(e) ==> e == ScrapeError::InsertFailed(status),
{
    if is_success_status(status) {
        Ok(())
    } else {
        Err(ScrapeError::InsertFailed(status))
    }
}

} // verus!
