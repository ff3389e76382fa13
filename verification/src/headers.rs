//! HTTP headers: those that the user adds to every request, and the text of those
//! that the server sends.

use crate::text::{cut_once, law_cut_is_at_the_first, split_once, trim, trimmed};
use reqwest::header::{
    HeaderMap, HeaderName, HeaderValue, InvalidHeaderName, InvalidHeaderValue, MaxSizeReached,
};
use vstd::prelude::*;
use vstd::string::*;
use vstd::utf8::encode_utf8;

verus! {

#[verifier::external_type_specification]
#[verifier::external_body]
pub struct ExHeaderName(HeaderName);

#[verifier::external_type_specification]
#[verifier::external_body]
pub struct ExHeaderValue(HeaderValue);

#[verifier::external_type_specification]
#[verifier::external_body]
pub struct ExInvalidHeaderName(InvalidHeaderName);

#[verifier::external_type_specification]
#[verifier::external_body]
pub struct ExInvalidHeaderValue(InvalidHeaderValue);

#[verifier::external_type_specification]
#[verifier::external_body]
pub struct ExMaxSizeReached(MaxSizeReached);

#[verifier::external_type_specification]
#[verifier::external_body]
#[verifier::reject_recursive_types(T)]
pub struct ExHeaderMap<T>(HeaderMap<T>);

/// The bytes of a header name, in lower case.
pub uninterp spec fn name_bytes(name: HeaderName) -> Seq<u8>;

/// The bytes of a header value.
pub uninterp spec fn value_bytes(value: HeaderValue) -> Seq<u8>;

/// The headers that a map holds: each name with its value.
pub uninterp spec fn fields(map: HeaderMap<HeaderValue>) -> Map<Seq<u8>, Seq<u8>>;

/// The characters of a token, of which header names are made.
pub open spec fn is_token_byte(b: u8) -> bool {
    ||| 0x30 <= b <= 0x39
    ||| 0x41 <= b <= 0x5a
    ||| 0x5e <= b <= 0x7a
    ||| b == 0x21
    ||| 0x23 <= b <= 0x27
    ||| b == 0x2a
    ||| b == 0x2b
    ||| b == 0x2d
    ||| b == 0x2e
    ||| b == 0x7c
    ||| b == 0x7e
}

/// Whether the bytes make a header name: a token that is not too long.
pub open spec fn valid_name(bytes: Seq<u8>) -> bool {
    &&& 1 <= bytes.len() <= 65535
    &&& forall|i: int| 0 <= i < bytes.len() ==> is_token_byte(#[trigger] bytes[i])
}

/// Whether the bytes make a header value: no control characters but the tab.
pub open spec fn valid_value(bytes: Seq<u8>) -> bool {
    forall|i: int|
        0 <= i < bytes.len() ==> (#[trigger] bytes[i] >= 32 && bytes[i] != 127) || bytes[i] == 9
}

/// The bytes with ASCII letters in lower case.
pub open spec fn lowered(bytes: Seq<u8>) -> Seq<u8> {
    bytes.map_values(
        |b: u8|
            if 0x41 <= b <= 0x5a {
                (b + 0x20) as u8
            } else {
                b
            },
    )
}

/// `HeaderName::from_bytes` takes tokens of at most 65535 bytes, and puts them in
/// lower case.
pub assume_specification[ HeaderName::from_bytes ](src: &[u8]) -> (r: Result<
    HeaderName,
    InvalidHeaderName,
>)
    ensures
        r is Ok <==> valid_name(src@),
        r matches Ok(name) ==> name_bytes(name) == lowered(src@),
;

/// `HeaderValue::from_str` takes text without control characters other than the
/// tab, and keeps its bytes.
pub assume_specification[ HeaderValue::from_str ](src: &str) -> (r: Result<
    HeaderValue,
    InvalidHeaderValue,
>)
    ensures
        r is Ok <==> valid_value(encode_utf8(src@)),
        r matches Ok(value) ==> value_bytes(value) == encode_utf8(src@),
;

/// The `Display` form of `InvalidHeaderName`, which is a fixed text.
#[verifier::external_body]
fn name_fault(error: &InvalidHeaderName) -> (text: String)
    ensures
        text@ == "invalid HTTP header name"@,
{
    format!("{}", error)
}

/// The `Display` form of `InvalidHeaderValue`, which is a fixed text.
#[verifier::external_body]
fn value_fault(error: &InvalidHeaderValue) -> (text: String)
    ensures
        text@ == "failed to parse header value"@,
{
    format!("{}", error)
}

/// `HeaderMap::new` holds no header.
#[verifier::external_body]
fn no_headers() -> (map: HeaderMap<HeaderValue>)
    ensures
        fields(map).dom() == Set::<Seq<u8>>::empty(),
{
    HeaderMap::new()
}

/// A `HeaderMap` always has room for another name while it holds fewer than this
/// many, however they hash.
pub const ROOM_FOR_HEADERS: usize = 6554;

/// `HeaderMap::try_insert` puts a value under a name, in place of any that was
/// there. It fails, and changes nothing, where the map would outgrow its limit of
/// 32768 slots. It grows only when its slots are used up, or when five times the
/// names that it holds reach their number, so it succeeds while it holds fewer
/// names than a fifth of the limit.
#[verifier::external_body]
fn insert_header(map: &mut HeaderMap<HeaderValue>, name: HeaderName, value: HeaderValue) -> (r:
    Result<Option<HeaderValue>, MaxSizeReached>)
    ensures
        r is Ok ==> fields(*final(map)) == fields(*old(map)).insert(
            name_bytes(name),
            value_bytes(value),
        ),
        r is Err ==> fields(*final(map)) == fields(*old(map)),
        fields(*old(map)).dom().len() < ROOM_FOR_HEADERS ==> r is Ok,
{
    map.try_insert(name, value)
}

/// Whether a byte is visible ASCII, a space or a tab.
pub open spec fn is_visible(b: u8) -> bool {
    32 <= b < 127 || b == 9
}

/// The text of a header value, if all of it is visible ASCII.
pub open spec fn visible_text(bytes: Seq<u8>) -> Option<Seq<char>> {
    if forall|i: int| 0 <= i < bytes.len() ==> is_visible(#[trigger] bytes[i]) {
        Some(bytes.map_values(|b: u8| b as char))
    } else {
        None
    }
}

/// `HeaderValue::to_str`, on the value with these bytes: its text, when it only
/// holds visible ASCII characters, spaces and tabs.
#[verifier::external_body]
pub(crate) fn header_text(bytes: &[u8]) -> (r: Option<String>)
    ensures
        r is Some <==> visible_text(bytes@) is Some,
        r matches Some(text) ==> Some(text@) == visible_text(bytes@),
{
    let value = HeaderValue::from_bytes(bytes).ok()?;
    value.to_str().ok().map(|text| text.to_string())
}

/// Why a header that the user gave is refused.
#[derive(Debug)]
pub enum HeaderError {
    /// There is no colon.
    Malformed { raw: String },
    /// What stands before the colon is no name, and why.
    Name { name: String, cause: String },
    /// What stands behind the colon is no value, and why.
    Value { value: String, cause: String },
    /// There are more headers than a request can carry.
    TooMany,
}

/// A header, or what is wrong with it.
pub enum ParsedHeader {
    Field(Seq<u8>, Seq<u8>),
    Malformed,
    BadName(Seq<char>),
    BadValue(Seq<char>),
}

/// A header in the form `Name: value`.
pub open spec fn parsed_header(raw: Seq<char>) -> ParsedHeader {
    match cut_once(raw, ':') {
        None => ParsedHeader::Malformed,
        Some((name, value)) => if !valid_name(encode_utf8(trimmed(name))) {
            ParsedHeader::BadName(name)
        } else if !valid_value(encode_utf8(trimmed(value))) {
            ParsedHeader::BadValue(value)
        } else {
            ParsedHeader::Field(lowered(encode_utf8(trimmed(name))), encode_utf8(trimmed(value)))
        },
    }
}

/// The headers that the first `count` texts give: where a name comes more than
/// once, its last value counts.
pub open spec fn parsed_headers(raws: Seq<String>, count: nat) -> Map<Seq<u8>, Seq<u8>>
    decreases count,
{
    if count == 0 {
        Map::empty()
    } else {
        let before = parsed_headers(raws, (count - 1) as nat);
        match parsed_header(raws[count - 1]@) {
            ParsedHeader::Field(name, value) => before.insert(name, value),
            _ => before,
        }
    }
}

/// Whether the first `count` texts are all headers.
pub open spec fn all_headers(raws: Seq<String>, count: int) -> bool {
    forall|i: int|
        #![trigger raws[i]]
        0 <= i < count ==> parsed_header(raws[i]@) is Field
}

impl HeaderError {
    /// The message that tells of this error.
    pub open spec fn text(self) -> Seq<char> {
        match self {
            HeaderError::Malformed { raw } => "invalid header (expected 'Name: value'): "@ + raw@,
            HeaderError::Name { name, cause } => "invalid header name: "@ + name@ + ": "@ + cause@,
            HeaderError::Value { value, cause } => "invalid header value: "@ + value@ + ": "@
                + cause@,
            HeaderError::TooMany => "too many headers"@,
        }
    }

    /// Whether this is the error that a text calls for.
    pub open spec fn tells(self, raw: Seq<char>) -> bool {
        match parsed_header(raw) {
            ParsedHeader::Field(_, _) => false,
            ParsedHeader::Malformed => self matches HeaderError::Malformed { raw: r } && r@ == raw,
            ParsedHeader::BadName(n) => self matches HeaderError::Name { name, cause } && name@ == n
                && cause@ == "invalid HTTP header name"@,
            ParsedHeader::BadValue(v) => self matches HeaderError::Value { value, cause } && value@
                == v && cause@ == "failed to parse header value"@,
        }
    }

    /// The message that tells of this error.
    pub fn message(&self) -> (r: String)
        ensures
            r@ == self.text(),
    {
        let mut out = String::new();
        match self {
            HeaderError::Malformed { raw } => {
                out.append("invalid header (expected 'Name: value'): ");
                out.append(raw.as_str());
            },
            HeaderError::Name { name, cause } => {
                out.append("invalid header name: ");
                out.append(name.as_str());
                out.append(": ");
                out.append(cause.as_str());
            },
            HeaderError::Value { value, cause } => {
                out.append("invalid header value: ");
                out.append(value.as_str());
                out.append(": ");
                out.append(cause.as_str());
            },
            HeaderError::TooMany => {
                out.append("too many headers");
            },
        }
        assert(out@ =~= self.text());
        out
    }
}

/// Parse one header in the form `Name: value`.
fn parse_header(raw: &str) -> (r: Result<(HeaderName, HeaderValue), HeaderError>)
    ensures
        match r {
            Ok((name, value)) => parsed_header(raw@) == ParsedHeader::Field(
                name_bytes(name),
                value_bytes(value),
            ),
            Err(e) => e.tells(raw@),
        },
{
    let (name_part, value_part) = match split_once(raw, ':') {
        Some(parts) => parts,
        None => {
            return Err(HeaderError::Malformed { raw: raw.to_owned() });
        },
    };
    let name = match HeaderName::from_bytes(trim(name_part).as_bytes()) {
        Ok(name) => name,
        Err(e) => {
            return Err(HeaderError::Name { name: name_part.to_owned(), cause: name_fault(&e) });
        },
    };
    let value = match HeaderValue::from_str(trim(value_part)) {
        Ok(value) => value,
        Err(e) => {
            return Err(HeaderError::Value { value: value_part.to_owned(), cause: value_fault(&e) });
        },
    };
    Ok((name, value))
}

/// Parse the headers that the user gave, each in the form `Name: value`. The first
/// one that is wrong decides the error. Valid headers are refused only where they give
/// thousands of different names.
pub fn parse_headers(raws: &Vec<String>) -> (r: Result<HeaderMap<HeaderValue>, HeaderError>)
    ensures
        match r {
            Ok(map) => all_headers(raws@, raws@.len() as int) && fields(map) == parsed_headers(
                raws@,
                raws@.len(),
            ),
            Err(HeaderError::TooMany) => exists|k: nat|
                k < raws@.len() && all_headers(raws@, k as int + 1) && (#[trigger] parsed_headers(
                    raws@,
                    k,
                )).dom().len() >= ROOM_FOR_HEADERS,
            Err(e) => exists|k: int|
                0 <= k < raws@.len() && all_headers(raws@, k) && e.tells(#[trigger] raws@[k]@),
        },
{
    let mut map = no_headers();
    assert(fields(map) =~= parsed_headers(raws@, 0));
    let mut i: usize = 0;
    while i < raws.len()
        invariant
            i <= raws@.len(),
            all_headers(raws@, i as int),
            fields(map) == parsed_headers(raws@, i as nat),
        decreases raws@.len() - i,
    {
        match parse_header(raws[i].as_str()) {
            Ok((name, value)) => {
                match insert_header(&mut map, name, value) {
                    Ok(_) => {},
                    Err(_) => {
                        assert(parsed_headers(raws@, i as nat).dom().len() >= ROOM_FOR_HEADERS);
                        return Err(HeaderError::TooMany);
                    },
                }
            },
            Err(e) => {
                assert(e.tells(raws@[i as int]@));
                return Err(e);
            },
        }
        i = i + 1;
    }
    Ok(map)
}

/// Text of visible ASCII characters, spaces and tabs is what the bytes of a header value
/// say, character by character, and any other byte leaves the value without text.
pub proof fn law_visible_text_is_the_bytes(text: Seq<char>, bytes: Seq<u8>)
    requires
        text.len() == bytes.len(),
        forall|i: int| 0 <= i < text.len() ==> #[trigger] text[i] as int == bytes[i] as int,
    ensures
        (forall|i: int|
            0 <= i < bytes.len() ==> 32 <= #[trigger] bytes[i] <= 126 || bytes[i] == 9)
            ==> visible_text(bytes) == Some(text),
        (exists|i: int|
            0 <= i < bytes.len() && !(32 <= #[trigger] bytes[i] <= 126 || bytes[i] == 9))
            ==> visible_text(bytes) is None,
{
    let read = bytes.map_values(|b: u8| b as char);
    assert forall|i: int| 0 <= i < bytes.len() && bytes[i] < 128 implies read[i]
        == #[trigger] text[i] by {
        assert(read[i] as int == bytes[i] as int);
    }
    if forall|i: int| 0 <= i < bytes.len() ==> 32 <= #[trigger] bytes[i] <= 126 || bytes[i] == 9 {
        assert(read =~= text);
        assert(forall|i: int| 0 <= i < bytes.len() ==> is_visible(#[trigger] bytes[i]));
    } else {
        let i = choose|i: int|
            0 <= i < bytes.len() && !(32 <= #[trigger] bytes[i] <= 126 || bytes[i] == 9);
        assert(!is_visible(bytes[i]));
    }
}

/// A header is cut at its first colon, so that a value may hold more of them. Space around
/// name and value does not count, and the name is the same in either case. What is wrong with
/// the name is told before what is wrong with the value.
pub proof fn law_header_is_cut_at_its_first_colon(name: Seq<char>, value: Seq<char>)
    requires
        forall|i: int| 0 <= i < name.len() ==> name[i] != ':',
    ensures
        ({
            let read = parsed_header(name.push(':') + value);
            let name_bytes = encode_utf8(trimmed(name));
            let value_bytes = encode_utf8(trimmed(value));
            &&& !valid_name(name_bytes) ==> read == ParsedHeader::BadName(name)
            &&& valid_name(name_bytes) && !valid_value(value_bytes) ==> read
                == ParsedHeader::BadValue(value)
            &&& valid_name(name_bytes) && valid_value(value_bytes) ==> (
            read matches ParsedHeader::Field(n, v) && v == value_bytes && n.len()
                == name_bytes.len() && (forall|i: int|
                0 <= i < n.len() ==> #[trigger] n[i] == (if 65 <= name_bytes[i] <= 90 {
                    name_bytes[i] + 32
                } else {
                    name_bytes[i] as int
                })))
        }),
        parsed_header(name) is Malformed,
{
    law_cut_is_at_the_first(name, ':', value);
}

/// The last value of a name counts: where a text gives a header and no later one gives the
/// same name, its value is the one that is sent. Only names that a text gives are sent.
pub proof fn law_last_value_counts(raws: Seq<String>, count: nat, at: int, name: Seq<u8>)
    requires
        count <= raws.len(),
        0 <= at < count,
    ensures
        parsed_header(raws[at]@) matches ParsedHeader::Field(n, v) ==> ((forall|j: int|
            at < j < count ==> !(parsed_header(#[trigger] raws[j]@) matches ParsedHeader::Field(
                m,
                _,
            ) && m == n)) ==> parsed_headers(raws, count).contains_key(n) && parsed_headers(
            raws,
            count,
        )[n] == v),
        parsed_headers(raws, count).contains_key(name) ==> exists|j: int|
            0 <= j < count && (parsed_header(#[trigger] raws[j]@) matches ParsedHeader::Field(m, _)
                && m == name),
    decreases count,
{
    let before = parsed_headers(raws, (count - 1) as nat);
    if at < count - 1 {
        law_last_value_counts(raws, (count - 1) as nat, at, name);
    } else if count > 1 {
        law_last_value_counts(raws, (count - 1) as nat, 0, name);
    } else {
        assert(before == Map::<Seq<u8>, Seq<u8>>::empty());
    }
}

/// Every text is a header only where each one is.
pub proof fn law_all_headers_are_headers(raws: Seq<String>, count: int)
    ensures
        all_headers(raws, count) <==> (forall|i: int|
            0 <= i < count ==> parsed_header((#[trigger] raws[i])@) is Field),
{
}

/// A header error is the one that its text calls for: it holds the whole text where there is
/// no colon, else the name or the value as it was given, with the reason; and a valid header
/// calls for none.
pub proof fn law_header_errors_fit_their_text(error: HeaderError, raw: Seq<char>)
    ensures
        parsed_header(raw) is Field ==> !error.tells(raw),
        error.tells(raw) ==> (match error {
            HeaderError::Malformed { raw: text } => parsed_header(raw) is Malformed && text@ == raw,
            HeaderError::Name { name, cause } => parsed_header(raw) == ParsedHeader::BadName(name@)
                && cause@ == "invalid HTTP header name"@,
            HeaderError::Value { value, cause } => parsed_header(raw) == ParsedHeader::BadValue(
                value@,
            ) && cause@ == "failed to parse header value"@,
            HeaderError::TooMany => false,
        }),
{
}

/// The messages of the header errors.
pub proof fn law_header_errors_are_told(error: HeaderError)
    ensures
        match error {
            HeaderError::Malformed { raw } => error.text()
                == "invalid header (expected 'Name: value'): "@ + raw@,
            HeaderError::Name { name, cause } => error.text() == "invalid header name: "@ + name@
                + ": "@ + cause@,
            HeaderError::Value { value, cause } => error.text() == "invalid header value: "@
                + value@ + ": "@ + cause@,
            HeaderError::TooMany => error.text() == "too many headers"@,
        },
{
}

/// What makes a header name: one to 65535 bytes, each a digit, a letter or one of the marks
/// that a token may hold.
pub proof fn law_names_are_tokens(bytes: Seq<u8>)
    ensures
        valid_name(bytes) <==> 1 <= bytes.len() <= 65535 && (forall|i: int|
            0 <= i < bytes.len() ==> {
                let b = #[trigger] bytes[i] as int;
                ||| 48 <= b <= 57
                ||| 65 <= b <= 90
                ||| 97 <= b <= 122
                ||| b == 33
                ||| 35 <= b <= 39
                ||| b == 42
                ||| b == 43
                ||| b == 45
                ||| b == 46
                ||| 94 <= b <= 96
                ||| b == 124
                ||| b == 126
            }),
{
    if valid_name(bytes) {
        assert(forall|i: int| 0 <= i < bytes.len() ==> is_token_byte(#[trigger] bytes[i]));
    }
}

/// What makes a header value: any bytes but the control characters, of which the tab is let
/// through; however long, and none at all.
pub proof fn law_values_hold_no_controls(bytes: Seq<u8>)
    ensures
        valid_value(bytes) <==> (forall|i: int|
            0 <= i < bytes.len() ==> #[trigger] bytes[i] == 9 || 32 <= bytes[i] <= 126 || bytes[i]
                >= 128),
{
}

} // verus!
