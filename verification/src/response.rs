//! What the HTTP layer serves, reduced to plain values.

use vstd::prelude::*;

use crate::errors::ScanError;
use crate::extract::ServiceEntry;

verus! {

/// The body of a scan response.
#[derive(Debug)]
pub struct DummyResponse {
    pub results: Vec<ServiceEntry>,
}

/// The greeting served at the root endpoint.
pub fn root() -> (r: &'static str)
    ensures
        r@ == "Shepherd is running!"@,
{
    "Shepherd is running!"
}

/// Reduce a scan outcome to the response body: the entries on success,
/// and an empty list when the scan failed — the documented boundary
/// behavior is to swallow scan failures rather than surface them.
pub fn scan_response(outcome: Result<Vec<ServiceEntry>, ScanError>) -> (resp: DummyResponse)
    ensures
        match outcome {
            Ok(entries) => resp.results == entries,
            Err(_) => resp.results@.len() == 0,
        },
{
    match outcome {
        Ok(entries) => DummyResponse { results: entries },
        Err(_) => DummyResponse { results: Vec::new() },
    }
}

} // verus!
