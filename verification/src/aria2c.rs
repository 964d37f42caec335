//! The aria2c JSON-RPC client's settings and the numbers of its replies.

use vstd::prelude::*;
use crate::text::{chars_of, concat, owned, parse_u64_range, parse_uint};

verus! {

/// Where and how to reach an aria2c RPC server.
#[derive(Debug, Clone)]
pub struct Aria2cClient {
    endpoint: String,
    secret: Option<String>,
}

impl Aria2cClient {
    /// The RPC endpoint.
    pub closed spec fn endpoint_view(&self) -> Seq<char> {
        self.endpoint@
    }

    /// The RPC secret, if any.
    pub closed spec fn secret_view(&self) -> Option<Seq<char>> {
        match self.secret {
            Some(s) => Some(s@),
            None => None,
        }
    }

    /// A client of `endpoint`, without a secret.
    pub fn new(endpoint: &str) -> (r: Aria2cClient)
        ensures
            r.endpoint_view() == endpoint@,
            r.secret_view() is None,
    {
        Aria2cClient { endpoint: owned(endpoint), secret: None }
    }

    /// The same client with a secret.
    pub fn with_secret(self, s: &str) -> (r: Aria2cClient)
        ensures
            r.endpoint_view() == self.endpoint_view(),
            r.secret_view() == Some(s@),
    {
        Aria2cClient { endpoint: self.endpoint, secret: Some(owned(s)) }
    }

    /// The RPC endpoint.
    pub fn endpoint(&self) -> (r: &str)
        ensures
            r@ == self.endpoint_view(),
    {
        self.endpoint.as_str()
    }

    /// The token parameter that leads each RPC call when a secret is set:
    /// `token:<secret>`.
    pub fn token(&self) -> (r: Option<String>)
        ensures
            match self.secret_view() {
                Some(s) => r matches Some(t) && t@ == "token:"@ + s,
                None => r is None,
            },
    {
        match &self.secret {
            Some(s) => Some(concat("token:", s.as_str())),
            None => None,
        }
    }
}

impl Default for Aria2cClient {
    fn default() -> (r: Aria2cClient)
        ensures
            r.endpoint_view() == "http://localhost:6800/jsonrpc"@,
            r.secret_view() is None,
    {
        Aria2cClient::new("http://localhost:6800/jsonrpc")
    }
}

/// The status of a download in aria2c.
#[derive(Debug, Clone)]
pub struct Aria2Status {
    /// The download id.
    pub gid: String,
    /// `active`, `waiting`, `complete`, ...
    pub status: String,
    /// Total bytes.
    pub total_length: u64,
    /// Bytes done.
    pub completed_length: u64,
    /// Bytes per second.
    pub download_speed: u64,
}

/// A number of a reply that aria2c sends as text: a `u64` in decimal.
pub fn number_from_text(s: &str) -> (r: Option<u64>)
    ensures
        match parse_uint(s@, u64::MAX as int) {
            Some(n) => r == Some(n as u64),
            None => r is None,
        },
{
    let v = chars_of(s);
    assert(v@.subrange(0, v@.len() as int) == v@);
    parse_u64_range(&v, 0, v.len())
}

} // verus!
