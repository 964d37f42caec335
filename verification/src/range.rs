//! HTTP range requests: the client that makes them, and what is read from
//! and written into their headers. The requests themselves are the
//! caller's.

use vstd::prelude::*;
use crate::safe_url::eq_ignore_ascii_case;
use crate::text::{chars_of, dec, parse_u64_range, parse_uint, push_dec, push_str};

verus! {

/// The HTTP client of `reqwest`, carried through unopened.
#[verifier::external_type_specification]
#[verifier::external_body]
pub struct ExReqwestClient(reqwest::Client);

/// `reqwest::Client::new()`: a client with the default settings. Nothing is
/// stated of it. It panics only where the TLS backend or the system resolver
/// cannot be set up; with the rustls backend, its built-in root certificates
/// and the default resolver, as here, the builder it runs reads nothing from
/// the system and has no step that fails.
#[verifier::external_body]
fn default_http_client() -> reqwest::Client {
    reqwest::Client::new()
}

/// The client that makes range requests.
pub struct RangeClient {
    client: reqwest::Client,
}

impl RangeClient {
    /// A client with a new HTTP client.
    pub fn new() -> (r: RangeClient) {
        RangeClient { client: default_http_client() }
    }

    /// A client with the given HTTP client.
    pub fn with_client(client: reqwest::Client) -> (r: RangeClient)
        ensures
            r.client_of() == client,
    {
        RangeClient { client }
    }

    /// The HTTP client.
    pub closed spec fn client_of(&self) -> reqwest::Client {
        self.client
    }

    /// The HTTP client.
    pub fn client(&self) -> (r: &reqwest::Client)
        ensures
            *r == self.client_of(),
    {
        &self.client
    }
}

impl Default for RangeClient {
    fn default() -> (r: RangeClient) {
        RangeClient::new()
    }
}

/// The number a header holds: a `u64` in decimal, `None` otherwise.
pub open spec fn header_number(s: Seq<char>) -> Option<u64> {
    match parse_uint(s, u64::MAX as int) {
        Some(n) => Some(n as u64),
        None => None,
    }
}

fn number_of(v: &Vec<char>, lo: usize, hi: usize) -> (r: Option<u64>)
    requires
        lo <= hi <= v@.len(),
    ensures
        r == header_number(v@.subrange(lo as int, hi as int)),
{
    parse_u64_range(v, lo, hi)
}

/// The total size a `Content-Length` header gives: its number, 0 where it
/// is missing or is not one.
pub fn content_length(value: Option<&str>) -> (r: u64)
    ensures
        r == match value {
            Some(v) => match header_number(v@) {
                Some(n) => n,
                None => 0,
            },
            None => 0,
        },
{
    match value {
        Some(v) => {
            let c = chars_of(v);
            assert(c@.subrange(0, c@.len() as int) == c@);
            match number_of(&c, 0, c.len()) {
                Some(n) => n,
                None => 0,
            }
        },
        None => 0,
    }
}

/// The text after the last `/` of `s`, all of `s` where it has none.
pub open spec fn after_last_slash(s: Seq<char>) -> Seq<char>
    decreases s.len(),
{
    if s.len() == 0 {
        s
    } else if s.last() == '/' {
        seq![]
    } else {
        after_last_slash(s.drop_last()).push(s.last())
    }
}

/// The total size a `Content-Range` header (`bytes a-b/total`) gives: the
/// number after its last `/`, `None` where it is missing or is not one.
pub fn parse_total(content_range: Option<&str>) -> (r: Option<u64>)
    ensures
        r == match content_range {
            Some(v) => header_number(after_last_slash(v@)),
            None => None,
        },
{
    match content_range {
        Some(s) => {
            let v = chars_of(s);
            let len = v.len();
            let mut e = len;
            assert(v@.take(len as int) == v@);
            assert(v@.subrange(len as int, len as int) == Seq::<char>::empty());
            while e > 0 && v[e - 1] != '/'
                invariant
                    e <= len == v@.len(),
                    after_last_slash(v@) == after_last_slash(v@.take(e as int)) + v@.subrange(
                        e as int,
                        len as int,
                    ),
                decreases e,
            {
                assert(v@.take(e as int).drop_last() == v@.take(e - 1));
                assert(v@.take(e as int).last() == v@[e - 1]);
                assert(v@.subrange(e - 1, len as int) == seq![v@[e - 1]] + v@.subrange(
                    e as int,
                    len as int,
                ));
                e = e - 1;
            }
            assert(after_last_slash(v@.take(e as int)) == Seq::<char>::empty()) by {
                if e > 0 {
                    assert(v@.take(e as int).last() == v@[e - 1]);
                }
            }
            assert(after_last_slash(v@) == v@.subrange(e as int, len as int));
            number_of(&v, e, len)
        },
        None => None,
    }
}

/// The total size of a range reply: the one its `Content-Range` gives,
/// one past the range's end otherwise (saturating).
pub fn range_total(from_header: Option<u64>, end: u64) -> (r: u64)
    ensures
        r == match from_header {
            Some(t) => t,
            None => if end == u64::MAX {
                u64::MAX
            } else {
                (end + 1) as u64
            },
        },
{
    match from_header {
        Some(t) => t,
        None => end.saturating_add(1),
    }
}

/// The `Range` header of the bytes `start..=end`: `bytes=<start>-<end>`.
pub fn range_header(start: u64, end: u64) -> (r: String)
    ensures
        r@ == "bytes="@ + dec(start as nat) + "-"@ + dec(end as nat),
{
    let mut r = crate::text::owned("bytes=");
    push_dec(&mut r, start);
    push_str(&mut r, "-");
    push_dec(&mut r, end);
    r
}

/// Whether an `Accept-Ranges` header allows range requests: `bytes`,
/// ignoring ASCII case.
pub fn accepts_ranges(value: Option<&str>) -> (r: bool)
    ensures
        r == match value {
            Some(v) => eq_ignore_ascii_case(v@, "bytes"@),
            None => false,
        },
{
    match value {
        Some(v) => {
            let c = chars_of(v);
            assert(c@.subrange(0, c@.len() as int) == c@);
            crate::safe_url::eq_ignore_case_range(&c, 0, c.len(), "bytes")
        },
        None => false,
    }
}

} // verus!
