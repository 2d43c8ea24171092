//! What the library reports when a step cannot be done.
use vstd::prelude::*;

verus! {

/// What the library reports when a step cannot be done.
#[derive(Debug, PartialEq, Eq)]
pub enum ScrapeError {
    /// The search engine's base URL and parameters do not make a URL.
    InvalidUrl,
    /// A line of the links file is not JSON.
    InvalidJson,
    /// A links file's name does not hold a valid timestamp.
    InvalidTimestamp,
    /// The database answered a ping with this HTTP status, not a success.
    PingFailed(u16),
    /// The database answered an insertion with this HTTP status, not a success.
    InsertFailed(u16),
}

} // verus!
