//! Monitoring endpoint routing.
//!
//! The monitoring surface answers `/connections` with the live connection
//! rows, `/stats` with the metrics snapshot, `/` with a help document, and
//! anything else with not-found. This module owns that routing decision; the
//! listener and the JSON rendering live with the caller.

use vstd::prelude::*;

use vstd::string::StringSliceAdditionalSpecFns;
use vstd::utf8::encode_utf8;

verus! {

broadcast use vstd::utf8::encode_utf8_decode_utf8;

/// What a monitoring request path selects.
#[derive(Debug, Clone, Copy, PartialEq, Eq, Structural)]
pub enum ApiRoute {
    /// List the live connections.
    Connections,
    /// Report the metrics snapshot.
    Stats,
    /// Show the help document.
    Help,
    /// The path names nothing.
    NotFound,
}

/// The route a request path selects.
pub open spec fn spec_route(path: Seq<char>) -> ApiRoute {
    if path == "/connections"@ {
        ApiRoute::Connections
    } else if path == "/stats"@ {
        ApiRoute::Stats
    } else if path == "/"@ {
        ApiRoute::Help
    } else {
        ApiRoute::NotFound
    }
}

/// Whether two byte slices hold the same bytes.
fn bytes_eq(a: &[u8], b: &[u8]) -> (r: bool)
    ensures
        r == (a@ == b@),
{
    if a.len() != b.len() {
        return false;
    }
    let mut i: usize = 0;
    while i < a.len()
        invariant
            a@.len() == b@.len(),
            i <= a@.len(),
            forall|k: int| 0 <= k < i ==> a@[k] == b@[k],
        decreases a@.len() - i,
    {
        if a[i] != b[i] {
            return false;
        }
        i += 1;
    }
    proof {
        assert(a@ =~= b@);
    }
    true
}

/// Two texts with equal UTF-8 bytes read the same.
proof fn lemma_same_bytes_same_text(a: Seq<char>, b: Seq<char>)
    requires
        encode_utf8(a) == encode_utf8(b),
    ensures
        a == b,
{
    assert(vstd::utf8::decode_utf8(encode_utf8(a)) == a);
    assert(vstd::utf8::decode_utf8(encode_utf8(b)) == b);
}

/// Whether two texts read the same, decided over their bytes.
fn str_eq(a: &str, b: &str) -> (r: bool)
    ensures
        r == (a@ == b@),
{
    let r = bytes_eq(a.as_bytes(), b.as_bytes());
    proof {
        if a.spec_bytes() == b.spec_bytes() {
            lemma_same_bytes_same_text(a@, b@);
        }
    }
    r
}

/// Route a monitoring request path.
pub fn route_api_path(path: &str) -> (r: ApiRoute)
    ensures
        r == spec_route(path@),
{
    if str_eq(path, "/connections") {
        ApiRoute::Connections
    } else if str_eq(path, "/stats") {
        ApiRoute::Stats
    } else if str_eq(path, "/") {
        ApiRoute::Help
    } else {
        ApiRoute::NotFound
    }
}

} // verus!
