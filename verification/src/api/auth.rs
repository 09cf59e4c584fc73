//! API key authentication.

use vstd::prelude::*;

use crate::text::same_text;

verus! {

/// Compares two strings in time that depends only on their lengths.
/// Returns true exactly when both strings are equal.
pub fn constant_time_eq(a: &str, b: &str) -> (r: bool)
    ensures
        r == (a@ == b@),
{
    let ab = a.as_bytes();
    let bb = b.as_bytes();
    proof {
        vstd::utf8::encode_utf8_decode_utf8(a@);
        vstd::utf8::encode_utf8_decode_utf8(b@);
    }
    if ab.len() != bb.len() {
        return false;
    }
    let n = ab.len();
    let mut acc: u8 = 0;
    let mut i: usize = 0;
    while i < n
        invariant
            n == ab@.len(),
            n == bb@.len(),
            i <= n,
            acc == 0 <==> forall|j: int| 0 <= j < i ==> ab@[j] == bb@[j],
        decreases n - i,
    {
        let x = ab[i];
        let y = bb[i];
        assert((acc | (x ^ y)) == 0 <==> (acc == 0 && x == y)) by (bit_vector);
        acc = acc | (x ^ y);
        i = i + 1;
    }
    proof {
        if acc == 0 {
            assert(ab@ =~= bb@);
        }
    }
    acc == 0
}

/// What the authentication layer does with a request.
#[derive(Debug, Clone, Copy, PartialEq, Eq)]
pub enum AuthDecision {
    /// Pass the request on.
    Allow,
    /// Refuse with 401: no `X-API-Key` header.
    MissingKey,
    /// Refuse with 401: the `X-API-Key` header holds another key.
    InvalidKey,
}

/// A path that is always served without a key, for monitoring.
pub open spec fn is_health_path(path: Seq<char>) -> bool {
    path == "/api/v1/health"@ || path == "/health"@
}

/// The decision for a request to `path` presenting `provided` (the
/// `X-API-Key` header as text, if any) when the configured key is `api_key`:
/// everything passes when no key is configured; health paths always pass;
/// otherwise exactly the configured key passes.
pub open spec fn auth_decision(api_key: Seq<char>, path: Seq<char>, provided: Option<Seq<char>>) -> AuthDecision {
    if api_key.len() == 0 {
        AuthDecision::Allow
    } else if is_health_path(path) {
        AuthDecision::Allow
    } else {
        match provided {
            Some(k) => if k == api_key {
                AuthDecision::Allow
            } else {
                AuthDecision::InvalidKey
            },
            None => AuthDecision::MissingKey,
        }
    }
}

/// The model of an optional string slice.
pub open spec fn opt_str_view(s: Option<&str>) -> Option<Seq<char>> {
    match s {
        Some(k) => Some(k@),
        None => None,
    }
}

/// Decides whether a request may pass API key authentication. The key is
/// compared in constant time.
pub fn authorize(api_key: &str, path: &str, provided: Option<&str>) -> (r: AuthDecision)
    ensures
        r == auth_decision(api_key@, path@, opt_str_view(provided)),
{
    if api_key.is_empty() {
        return AuthDecision::Allow;
    }
    if same_text(path, "/api/v1/health") || same_text(path, "/health") {
        return AuthDecision::Allow;
    }
    match provided {
        Some(key) => if constant_time_eq(key, api_key) {
            AuthDecision::Allow
        } else {
            AuthDecision::InvalidKey
        },
        None => AuthDecision::MissingKey,
    }
}

/// With a key configured, a request to any path other than the health paths
/// passes exactly when it presents that key; without one, every request passes.
pub proof fn lemma_only_the_key_opens(api_key: Seq<char>, path: Seq<char>, provided: Option<Seq<char>>)
    ensures
        api_key.len() == 0 ==> auth_decision(api_key, path, provided) == AuthDecision::Allow,
        is_health_path(path) ==> auth_decision(api_key, path, provided) == AuthDecision::Allow,
        api_key.len() > 0 && !is_health_path(path) ==> ((auth_decision(api_key, path, provided)
            == AuthDecision::Allow) <==> provided == Some(api_key)),
{
}

/// The CORS layer allows any origin when the list is empty or is the single
/// entry "*"; otherwise only the listed origins.
pub open spec fn allows_any_origin(origins: Seq<Seq<char>>) -> bool {
    origins.len() == 0 || (origins.len() == 1 && origins[0] == "*"@)
}

/// Decides whether the CORS layer allows any origin.
pub fn allow_any_origin(origins: &[String]) -> (r: bool)
    ensures
        r == allows_any_origin(origins@.map_values(|s: String| s@)),
{
    if origins.len() == 0 {
        true
    } else if origins.len() == 1 {
        same_text(origins[0].as_str(), "*")
    } else {
        false
    }
}

} // verus!
