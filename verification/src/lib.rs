//! Tools to discover public Discord invite links: build the search query for
//! a result page, scan raw page text for candidate URLs, extract and
//! normalize invite tokens, and model the resolved invite record.

use vstd::prelude::*;

pub mod decimal;
pub mod discord;
pub mod google;
pub mod intermediary;
pub mod scan;

verus! {

/// The closed failure taxonomy of the pipeline: either the transport did not
/// complete, or it completed with something unusable (unreadable body,
/// non-success status, malformed record, or an unrecognized invite URL).
#[derive(Debug, PartialEq, Eq, Structural)]
pub enum Error {
    Timeout,
    InvalidResponse,
}

} // verus!
