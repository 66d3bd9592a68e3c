//! The native-host transport, backed by `reqwest`.
use vstd::prelude::*;

verus! {

/// An HTTP client of the `reqwest` crate.
#[verifier::external_type_specification]
#[verifier::external_body]
pub struct ExReqwestClient(reqwest::Client);

/// `Clone::clone` of `reqwest::Client`, which the crate derives: the copy is another handle on
/// the same shared connection pool. Nothing is stated of it.
pub assume_specification[ <reqwest::Client as Clone>::clone ](c: &reqwest::Client) -> reqwest::Client;

/// `reqwest::Client::new`: a client with the default settings. Nothing is stated of the client.
/// The crate documents that it panics when no TLS backend or resolver configuration can be set
/// up; nothing of that depends on an argument.
#[verifier::external_body]
fn new_client() -> reqwest::Client {
    reqwest::Client::new()
}

/// Sends requests through a shared, connection-pooling `reqwest` client.
#[derive(Clone)]
pub struct ReqwestTransport {
    client: reqwest::Client,
}

impl ReqwestTransport {
    /// The client requests go through.
    pub closed spec fn client_handle(&self) -> reqwest::Client {
        self.client
    }

    /// A transport with a fresh client.
    pub fn new() -> (t: Self) {
        ReqwestTransport { client: new_client() }
    }

    /// A transport reusing an existing client.
    pub fn with_client(client: reqwest::Client) -> (t: Self)
        ensures
            t.client_handle() == client,
    {
        ReqwestTransport { client }
    }

    /// The client requests go through.
    pub fn client(&self) -> (c: &reqwest::Client)
        ensures
            *c == self.client_handle(),
    {
        &self.client
    }
}

impl Default for ReqwestTransport {
    fn default() -> (t: Self) {
        ReqwestTransport::new()
    }
}

} // verus!
