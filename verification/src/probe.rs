//! What the answer to a one-byte range request tells about the server.

use crate::headers::{header_text, is_visible, law_visible_text_is_the_bytes, visible_text};
use crate::status::{
    is_success, push_status, shown_status, success_code, PARTIAL_CONTENT, RANGE_NOT_SATISFIABLE,
};
use crate::text::{
    after_last, decimal, law_decimal_reads_back, law_rest_is_behind_the_last, lemma_after_last,
    lemma_decimal_text, lemma_nothing_to_trim, parse_u64, rest_after_last, trim, trimmed, u64_of,
};
use vstd::prelude::*;
use vstd::string::*;

verus! {

/// What the probe learned about the server.
#[derive(Debug, Clone, Copy, PartialEq, Eq, Structural)]
pub enum Probe {
    /// Server honours byte ranges and reported a definite total size.
    Ranged { total: u64 },
    /// Server cannot (or will not) serve ranges; download as one stream.
    /// `len` is the `Content-Length` if the server advertised one.
    Single { len: Option<u64> },
}

/// The probe was answered with a status that tells of no resource.
#[derive(Debug, Clone, Copy)]
pub struct UnexpectedStatus {
    pub code: u16,
}

/// The total size in a `Content-Range` value: the number behind its last slash.
pub open spec fn content_range_total(value: Seq<char>) -> Option<u64> {
    u64_of(trimmed(after_last(value, '/')))
}

/// The total size in the bytes of a `Content-Range` value.
pub open spec fn total_in(value: Seq<u8>) -> Option<u64> {
    match visible_text(value) {
        Some(text) => content_range_total(text),
        None => None,
    }
}

/// What an answer to `bytes=0-0` means.
///
/// A partial response is authoritative: its `Content-Range` gives the total, and
/// without a usable total the resource is streamed as one. A range that cannot be
/// satisfied means a resource without bytes. Any other success is a server that
/// does not serve ranges.
pub open spec fn probe_result(
    code: u16,
    content_range: Option<Seq<u8>>,
    content_length: Option<u64>,
) -> Option<Probe> {
    if code == PARTIAL_CONTENT {
        let total = match content_range {
            Some(value) => total_in(value),
            None => None,
        };
        match total {
            Some(total) => Some(Probe::Ranged { total }),
            None => Some(Probe::Single { len: None }),
        }
    } else if code == RANGE_NOT_SATISFIABLE {
        Some(Probe::Ranged { total: 0 })
    } else if success_code(code) {
        Some(Probe::Single { len: content_length })
    } else {
        None
    }
}

impl Probe {
    /// Read the answer to a request for `bytes=0-0`: its status, the bytes of its
    /// `Content-Range` value, and its `Content-Length`.
    pub fn from_response(
        code: u16,
        content_range: Option<&[u8]>,
        content_length: Option<u64>,
    ) -> (r: Result<Probe, UnexpectedStatus>)
        ensures
            ({
                let value = match content_range {
                    Some(bytes) => Some(bytes@),
                    None => None,
                };
                match probe_result(code, value, content_length) {
                    Some(probe) => r == Ok::<Probe, UnexpectedStatus>(probe),
                    None => r == Err::<Probe, UnexpectedStatus>(UnexpectedStatus { code }),
                }
            }),
    {
        if code == PARTIAL_CONTENT {
            let text = match content_range {
                Some(bytes) => header_text(bytes),
                None => None,
            };
            let total = match text {
                Some(text) => parse_content_range_total(text.as_str()),
                None => None,
            };
            return match total {
                Some(total) => Ok(Probe::Ranged { total }),
                None => Ok(Probe::Single { len: None }),
            };
        }
        if code == RANGE_NOT_SATISFIABLE {
            return Ok(Probe::Ranged { total: 0 });
        }
        if is_success(code) {
            return Ok(Probe::Single { len: content_length });
        }
        Err(UnexpectedStatus { code })
    }
}

impl UnexpectedStatus {
    /// The message that tells of this status.
    pub open spec fn text(self, url: Seq<char>) -> Seq<char> {
        "unexpected status "@ + shown_status(self.code) + " probing "@ + url
    }

    /// The message that tells of this status.
    pub fn message(&self, url: &str) -> (r: String)
        ensures
            r@ == self.text(url@),
            r@ == "unexpected status "@ + shown_status(self.code) + " probing "@ + url@,
    {
        let mut out = String::new();
        out.append("unexpected status ");
        push_status(&mut out, self.code);
        out.append(" probing ");
        out.append(url);
        assert(out@ =~= "unexpected status "@ + shown_status(self.code) + " probing "@ + url@);
        out
    }
}

/// Extract the total size from a `Content-Range` value such as `bytes 0-0/12345`.
/// Returns `None` when the total is unknown (`*`) or malformed.
pub fn parse_content_range_total(value: &str) -> (r: Option<u64>)
    ensures
        r == content_range_total(value@),
{
    parse_u64(trim(rest_after_last(value, '/')))
}

/// Whatever the range in front of it, the total that a server writes behind the
/// slash is the total that is read, and a star is read as no total.
pub proof fn law_total_reads_back(range: Seq<char>, total: u64)
    ensures
        content_range_total(range.push('/') + decimal(total as nat)) == Some(total),
        content_range_total(range.push('/') + seq!['*']) == None::<u64>,
{
    lemma_decimal_text(total as nat);
    law_decimal_reads_back(total);
    lemma_after_last(range, '/', decimal(total as nat));
    lemma_nothing_to_trim(seq!['*']);
    lemma_after_last(range, '/', seq!['*']);
    assert(!crate::text::is_digit(seq!['*'][0]));
}

/// The total is the number behind the last slash, with or without space around it, and
/// the whole of a value without a slash.
pub proof fn law_total_is_behind_the_last_slash(range: Seq<char>, rest: Seq<char>)
    requires
        forall|i: int| 0 <= i < rest.len() ==> rest[i] != '/',
    ensures
        content_range_total(range.push('/') + rest) == u64_of(trimmed(rest)),
        content_range_total(rest) == u64_of(trimmed(rest)),
{
    law_rest_is_behind_the_last(range, '/', rest);
}

/// A server that serves ranges is found out whatever the size of the resource: a partial
/// response whose `Content-Range` is visible text and ends with a slash and the total, in
/// base ten, is probed as ranges over just that total, whatever its `Content-Length`.
pub proof fn law_partial_response_gives_its_total(
    range: Seq<char>,
    total: u64,
    value: Seq<u8>,
    content_length: Option<u64>,
)
    requires
        forall|i: int|
            0 <= i < range.len() ==> 32 <= #[trigger] range[i] as int <= 126 || range[i] as int
                == 9,
        value.len() == (range.push('/') + decimal(total as nat)).len(),
        forall|i: int|
            0 <= i < value.len() ==> #[trigger] value[i] as int == (range.push('/') + decimal(
                total as nat,
            ))[i] as int,
    ensures
        probe_result(206, Some(value), content_length) == Some(Probe::Ranged { total }),
{
    let text = range.push('/') + decimal(total as nat);
    lemma_decimal_text(total as nat);
    assert forall|i: int| 0 <= i < value.len() implies 32 <= #[trigger] value[i] <= 126 || value[i]
        == 9 by {
        if i < range.len() {
            assert(text[i] == range[i]);
        } else if i > range.len() {
            assert(text[i] == decimal(total as nat)[i - range.len() - 1]);
        }
    }
    assert forall|i: int| 0 <= i < text.len() implies #[trigger] text[i] as int
        == value[i] as int by {
        assert(value[i] as int == text[i] as int);
    }
    law_visible_text_is_the_bytes(text, value);
    law_total_reads_back(range, total);
}

/// Without a usable total a partial response is taken as one stream of unknown length. A
/// range that cannot be satisfied is a resource without bytes, any other success one
/// stream of the length announced, and every other status tells of no resource.
pub proof fn law_probe_goes_by_the_status(
    code: u16,
    text: Seq<char>,
    content_range: Option<Seq<u8>>,
    content_length: Option<u64>,
)
    ensures
        probe_result(206, None, content_length) == Some(Probe::Single { len: None }),
        (content_range matches Some(value) && (exists|i: int|
            0 <= i < value.len() && !(32 <= #[trigger] value[i] <= 126 || value[i] == 9)))
            ==> probe_result(206, content_range, content_length) == Some(
            Probe::Single { len: None },
        ),
        (content_range matches Some(value) && value.len() == text.len() && (forall|i: int|
            0 <= i < value.len() ==> (32 <= #[trigger] value[i] <= 126 || value[i] == 9)
                && value[i] as int == text[i] as int)) ==> probe_result(
            206,
            content_range,
            content_length,
        ) == Some(
            match content_range_total(text) {
                Some(total) => Probe::Ranged { total },
                None => Probe::Single { len: None },
            },
        ),
        probe_result(416, content_range, content_length) == Some(Probe::Ranged { total: 0 }),
        200 <= code <= 299 && code != 206 ==> probe_result(code, content_range, content_length)
            == Some(Probe::Single { len: content_length }),
        (code < 200 || code > 299) && code != 416 ==> probe_result(
            code,
            content_range,
            content_length,
        ) is None,
{
    if let Some(value) = content_range {
        let read = value.map_values(|b: u8| b as char);
        if exists|i: int|
            0 <= i < value.len() && !(32 <= #[trigger] value[i] <= 126 || value[i] == 9) {
            let i = choose|i: int|
                0 <= i < value.len() && !(32 <= #[trigger] value[i] <= 126 || value[i] == 9);
            assert(!is_visible(value[i]));
        } else if value.len() == text.len() && (forall|i: int|
            0 <= i < value.len() ==> (32 <= #[trigger] value[i] <= 126 || value[i] == 9)
                && value[i] as int == text[i] as int) {
            assert forall|i: int| 0 <= i < text.len() implies #[trigger] text[i] as int
                == value[i] as int by {
                assert(value[i] as int == text[i] as int);
            }
            law_visible_text_is_the_bytes(text, value);
        }
    }
}

/// The message of a status that tells of no resource names the status and the URL.
pub proof fn law_probe_error_is_told(status: UnexpectedStatus, url: Seq<char>)
    ensures
        status.text(url) == "unexpected status "@ + shown_status(status.code) + " probing "@ + url,
{
}

} // verus!
