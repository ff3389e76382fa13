//! HTTP status codes.

use crate::text::{decimal, push_decimal};
use vstd::prelude::*;
use vstd::string::*;

verus! {

pub const OK: u16 = 200;

pub const PARTIAL_CONTENT: u16 = 206;

pub const REQUEST_TIMEOUT: u16 = 408;

pub const RANGE_NOT_SATISFIABLE: u16 = 416;

pub const TOO_MANY_REQUESTS: u16 = 429;

/// The request was received, understood and accepted.
pub open spec fn success_code(code: u16) -> bool {
    200 <= code < 300
}

/// Server errors and explicit back-pressure.
pub open spec fn retryable_code(code: u16) -> bool {
    500 <= code < 600 || code == TOO_MANY_REQUESTS || code == REQUEST_TIMEOUT
}

/// How `reqwest::StatusCode` displays a code: the number and its reason phrase.
pub uninterp spec fn status_text(code: u16) -> Seq<char>;

/// How messages show a code: as the HTTP library displays it, or as the bare
/// number where it is no status code.
pub open spec fn shown_status(code: u16) -> Seq<char> {
    if 100 <= code <= 999 {
        status_text(code)
    } else {
        decimal(code as nat)
    }
}

/// The `Display` form of `reqwest::StatusCode`, which exists for the numbers from
/// 100 to 999 that `StatusCode::from_u16` takes. The reason phrases themselves
/// are left to that crate.
#[verifier::external_body]
fn display_status(code: u16) -> (r: Option<String>)
    ensures
        r is Some <==> 100 <= code <= 999,
        r matches Some(text) ==> text@ == status_text(code),
{
    reqwest::StatusCode::from_u16(code).ok().map(|status| format!("{}", status))
}

/// Whether a status means success.
pub fn is_success(code: u16) -> (r: bool)
    ensures
        r == success_code(code),
{
    200 <= code && code < 300
}

/// Whether an unexpected status is worth retrying. Server errors and explicit
/// back-pressure are transient.
pub fn is_retryable_status(code: u16) -> (r: bool)
    ensures
        r == retryable_code(code),
{
    (500 <= code && code < 600) || code == TOO_MANY_REQUESTS || code == REQUEST_TIMEOUT
}

/// Append a status code as messages show it.
pub fn push_status(out: &mut String, code: u16)
    ensures
        final(out)@ == old(out)@ + shown_status(code),
{
    match display_status(code) {
        Some(text) => out.append(text.as_str()),
        None => push_decimal(out, code as u64),
    }
}

/// Success are the codes from 200 to 299. Worth retrying are the server errors from 500 to
/// 599, too many requests and a request timeout, and no other.
pub proof fn law_status_classes(code: u16)
    ensures
        success_code(code) <==> 200 <= code <= 299,
        retryable_code(code) <==> 500 <= code <= 599 || code == 429 || code == 408,
        100 <= code <= 999 ==> shown_status(code) == status_text(code),
        code < 100 || code > 999 ==> shown_status(code) == decimal(code as nat),
{
}

} // verus!
