//! Declarations of, and wrappers around, the pingora types that carry the
//! proxy engine's request header and error values through this library.
//!
//! Both types are opaque here: the contracts speak of their contents only
//! through the named spec functions below, and the wrappers state no
//! more than the source of `pingora-http` and `pingora-error` shows.

use vstd::prelude::*;

verus! {

#[verifier::external_type_specification]
#[verifier::external_body]
pub struct ExRequestHeader(pingora_http::RequestHeader);

#[verifier::external_type_specification]
#[verifier::external_body]
pub struct ExError(pingora_error::Error);

/// The value of the outbound request's Host header, if one is set.
pub uninterp spec fn spec_host_header(h: pingora_http::RequestHeader) -> Option<Seq<char>>;

/// The request apart from its header maps: method, request target and
/// version.
pub uninterp spec fn spec_request_line(h: pingora_http::RequestHeader) -> int;

/// Whether the engine's error value is marked as retryable.
pub uninterp spec fn spec_retry_flag(e: pingora_error::Error) -> bool;

/// The error's content apart from its retry mark: its type, source,
/// context and cause chain.
pub uninterp spec fn spec_error_body(e: pingora_error::Error) -> int;

/// A character this library admits into a header value: horizontal tab or
/// the visible ASCII range including space.  `http` itself accepts more
/// (every byte from 32 upward except 127, non-ASCII bytes included);
/// keeping to ASCII makes the entry's bytes spell exactly the characters
/// written.
pub open spec fn valid_header_char(c: char) -> bool {
    c as int == 9 || (32 <= c as int && c as int <= 126)
}

/// A string every character of which this library admits into an HTTP
/// header value.
pub open spec fn valid_header_value(s: Seq<char>) -> bool {
    forall|i: int| 0 <= i < s.len() ==> valid_header_char(#[trigger] s[i])
}

/// Checks executably that a string lies in the admitted header range.
pub fn is_valid_header_value(s: &str) -> (r: bool)
    ensures
        r == valid_header_value(s@),
{
    let n = s.unicode_len();
    let mut i: usize = 0;
    while i < n
        invariant
            0 <= i <= n,
            n == s@.len(),
            forall|j: int| 0 <= j < i ==> valid_header_char(#[trigger] s@[j]),
        decreases n - i,
    {
        let c = s.get_char(i);
        let v = c as u32;
        if !(v == 9 || (32 <= v && v <= 126)) {
            assert(!valid_header_char(s@[i as int]));
            return false;
        }
        i += 1;
    }
    true
}

/// Relies on `pingora_http::RequestHeader::remove_header` and
/// `RequestHeader::append_header` with the name `"host"`: every existing
/// host entry is removed, then the value — converted by
/// `http::HeaderValue::from_str`, which accepts tab and every byte from
/// 32 upward except 127, a superset of the ASCII range this library
/// writes — is appended through the header map's non-panicking path.
/// The append can still be refused, by an invalid value or by a header
/// map already standing at the `http` crate's hard size cap; either way
/// no host entry is left behind.  Neither call touches anything but the
/// header maps.
#[verifier::external_body]
pub fn set_host_header(h: &mut pingora_http::RequestHeader, value: &str) -> (ok: bool)
    ensures
        ok ==> spec_host_header(*final(h)) == Some::<Seq<char>>(value@),
        !ok ==> spec_host_header(*final(h)) is None,
        spec_request_line(*final(h)) == spec_request_line(*old(h)),
{
    let _ = h.remove_header("host");
    h.append_header("host", value).is_ok()
}

/// Relies on `pingora_error::Error::set_retry`: sets the error's retry
/// field to `Decided(true)` and touches nothing else, so the engine
/// retries the caller's own error rather than a replacement.
#[verifier::external_body]
pub fn mark_retryable(e: &mut Box<pingora_error::Error>)
    ensures
        spec_retry_flag(**final(e)) == true,
        spec_error_body(**final(e)) == spec_error_body(**old(e)),
{
    e.set_retry(true);
}

} // verus!
