//! OIDC discovery: where an issuer publishes its configuration, and whether
//! the configuration fetched from there belongs to that issuer. The fetch
//! itself is the caller's.

use vstd::prelude::*;
use crate::error::TransportError;
use crate::text::{chars_of, str_eq, string_from_chars};

verus! {

/// `s.trim_end_matches('/')`: `s` without its trailing slashes.
pub open spec fn strip_trailing_slashes(s: Seq<char>) -> Seq<char>
    decreases s.len(),
{
    if s.len() > 0 && s.last() == '/' {
        strip_trailing_slashes(s.drop_last())
    } else {
        s
    }
}

/// An issuer URL without its trailing slashes.
pub fn normalize_issuer(url: &str) -> (r: String)
    ensures
        r@ == strip_trailing_slashes(url@),
{
    let cs = chars_of(url);
    let mut end: usize = cs.len();
    proof {
        assert(cs@.take(end as int) == url@);
    }
    while end > 0 && cs[end - 1] == '/'
        invariant
            end <= cs@.len(),
            cs@ == url@,
            strip_trailing_slashes(url@) == strip_trailing_slashes(cs@.take(end as int)),
        decreases end,
    {
        proof {
            assert(cs@.take(end as int).drop_last() == cs@.take(end - 1));
        }
        end = end - 1;
    }
    string_from_chars(&cs, 0, end)
}

/// Where an issuer publishes its OpenID configuration.
pub open spec fn spec_well_known_url(issuer_url: Seq<char>) -> Seq<char> {
    strip_trailing_slashes(issuer_url) + "/.well-known/openid-configuration"@
}

/// The OpenID configuration URL of an issuer: the issuer without trailing
/// slashes, then `/.well-known/openid-configuration`.
pub fn well_known_url(issuer_url: &str) -> (r: String)
    ensures
        r@ == spec_well_known_url(issuer_url@),
{
    let mut r = normalize_issuer(issuer_url);
    r.append("/.well-known/openid-configuration");
    r
}

pub open spec fn issuer_mismatch_message(expected: Seq<char>, got: Seq<char>) -> Seq<char> {
    "Issuer mismatch: expected "@ + expected + ", got "@ + got
}

/// Accept a discovered configuration only when its `issuer` is the issuer
/// that was asked, trailing slashes aside.
pub fn check_discovered_issuer(issuer_url: &str, discovered_issuer: &str) -> (r: Result<(), TransportError>)
    ensures
        r is Ok <==> strip_trailing_slashes(discovered_issuer@) == strip_trailing_slashes(issuer_url@),
        r is Err ==> (r matches Err(TransportError::Authentication(m)) && m@
            == issuer_mismatch_message(
            strip_trailing_slashes(issuer_url@),
            strip_trailing_slashes(discovered_issuer@),
        )),
{
    let expected = normalize_issuer(issuer_url);
    let got = normalize_issuer(discovered_issuer);
    if str_eq(got.as_str(), expected.as_str()) {
        Ok(())
    } else {
        let mut m = String::from_str("Issuer mismatch: expected ");
        m.append(expected.as_str());
        m.append(", got ");
        m.append(got.as_str());
        Err(TransportError::Authentication(m))
    }
}

} // verus!
