//! The browser transport, backed by the Fetch API.
use vstd::prelude::*;

verus! {

/// Sends requests through the global `fetch` of the browser.
#[derive(Debug, Clone, Copy, Default, PartialEq, Eq)]
pub struct FetchTransport;

impl FetchTransport {
    pub fn new() -> (t: Self)
        ensures
            t == FetchTransport,
    {
        FetchTransport
    }
}

} // verus!
