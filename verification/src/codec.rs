//! Calls into outside crates whose results the library takes on trust.
//!
//! Each function here makes one outside call and states what the library
//! believes of it; nothing in this file is proved.

use vstd::prelude::*;

verus! {

/// The error type of `base64::decode`.
#[verifier::external_type_specification]
#[verifier::external_body]
pub struct ExBase64DecodeError(base64::DecodeError);

/// What `base64::decode` yields for a text: the bytes it encodes in the
/// standard alphabet with padding, or nothing where it encodes none.
pub uninterp spec fn base64_decoded(text: Seq<char>) -> Option<Seq<u8>>;

/// What `base64::encode` yields for bytes: their text in the standard
/// alphabet with padding.
pub uninterp spec fn base64_encoded(bytes: Seq<u8>) -> Seq<char>;

/// Calls `base64::decode`. The result depends on the text alone: the
/// decoded bytes on success, the crate's error where the text is not
/// valid base64. The call sizes its buffer from the text's length plus
/// three, which no string is long enough to overflow.
#[verifier::external_body]
pub(crate) fn base64_decode(text: &str) -> (r: Result<Vec<u8>, base64::DecodeError>)
    ensures
        match r {
            Ok(bytes) => base64_decoded(text@) == Some(bytes@),
            Err(_) => base64_decoded(text@) is None,
        },
{
    base64::decode(text)
}

/// Calls `base64::encode`. The result depends on the bytes alone. The call
/// sizes its buffer as four thirds of the input's length, which no slice
/// is long enough to overflow.
#[verifier::external_body]
pub(crate) fn base64_encode(bytes: &[u8]) -> (text: String)
    ensures
        text@ == base64_encoded(bytes@),
{
    base64::encode(bytes)
}

/// The error type of `url::Url::parse`.
#[verifier::external_type_specification]
#[verifier::external_body]
pub struct ExUrlParseError(url::ParseError);

/// The error type of `http_range::HttpRange::parse`.
#[verifier::external_type_specification]
#[verifier::external_body]
pub struct ExHttpRangeParseError(http_range::HttpRangeParseError);

/// The error type of `aws_smithy_types::DateTime::fmt`.
#[verifier::external_type_specification]
#[verifier::external_body]
pub struct ExDateTimeFormatError(aws_smithy_types::date_time::DateTimeFormatError);

/// The parts of a parsed URL that the library reads.
#[derive(Debug)]
pub struct UrlParts {
    pub scheme: String,
    pub host: Option<String>,
    pub path: String,
    /// The pairs of the query string, decoded, in order.
    pub query: Vec<(String, String)>,
}

/// The view of an optional string.
pub open spec fn text_of(o: Option<String>) -> Option<Seq<char>> {
    match o {
        Some(s) => Some(s@),
        None => None,
    }
}

/// The views of a run of string pairs.
pub open spec fn pairs_of(v: Seq<(String, String)>) -> Seq<(Seq<char>, Seq<char>)> {
    Seq::new(v.len(), |i: int| (v[i].0@, v[i].1@))
}

/// A URL as plain values: its scheme, its host, its path, and the pairs
/// of its query string.
pub type UrlView = (Seq<char>, Option<Seq<char>>, Seq<char>, Seq<(Seq<char>, Seq<char>)>);

impl View for UrlParts {
    type V = UrlView;

    open spec fn view(&self) -> Self::V {
        (self.scheme@, text_of(self.host), self.path@, pairs_of(self.query@))
    }
}

/// What `url::Url::parse` makes of a text: the scheme, host, path and
/// query pairs of the URL it denotes, or nothing where it denotes none.
pub uninterp spec fn url_parsed(text: Seq<char>) -> Option<UrlView>;

/// What `http_range::HttpRange::parse` makes of a range header for a
/// body of `size` bytes: the start and length of each range, or nothing
/// where the header is refused.
pub uninterp spec fn http_ranges_parsed(header: Seq<char>, size: u64) -> Option<Seq<(u64, u64)>>;

/// What `aws_smithy_types::DateTime::fmt` writes, in the RFC 3339
/// date-time format, for a time given in seconds since the epoch, or
/// nothing where the format cannot express the time.
pub uninterp spec fn datetime_formatted(secs: i64) -> Option<Seq<char>>;

/// Calls `url::Url::parse` and reads the scheme, host, path and query
/// pairs off the result. The outcome depends on the text alone.
#[verifier::external_body]
pub(crate) fn url_parse(text: &str) -> (r: Result<UrlParts, url::ParseError>)
    ensures
        match r {
            Ok(parts) => url_parsed(text@) == Some(parts@),
            Err(_) => url_parsed(text@) is None,
        },
{
    let u = url::Url::parse(text)?;
    Ok(
        UrlParts {
            scheme: u.scheme().to_string(),
            host: u.host_str().map(|h| h.to_string()),
            path: u.path().to_string(),
            query: u.query_pairs().into_owned().collect(),
        },
    )
}

/// Every range lies within a body of `size` bytes, and holds a byte unless
/// the body is empty.
pub open spec fn ranges_lie_within(ranges: Seq<(u64, u64)>, size: u64) -> bool {
    forall|i: int|
        0 <= i < ranges.len() ==> (#[trigger] ranges[i]).0 + ranges[i].1 <= size && (size > 0
            ==> ranges[i].1 >= 1)
}

/// Calls `http_range::HttpRange::parse` and hands out each range as its
/// start and its length. The outcome depends on the header and the size
/// alone. The crate clips every range it returns to the body: a range
/// begins before the body's end and runs no further than it, and a suffix
/// range is as long as asked or as the body, whichever is less. So each
/// range ends within the body, and none is empty but the suffix of an
/// empty body.
#[verifier::external_body]
pub(crate) fn http_range_parse(header: &str, size: u64) -> (r: Result<
    Vec<(u64, u64)>,
    http_range::HttpRangeParseError,
>)
    ensures
        match r {
            Ok(ranges) => http_ranges_parsed(header@, size) == Some(ranges@) && ranges_lie_within(
                ranges@,
                size,
            ),
            Err(_) => http_ranges_parsed(header@, size) is None,
        },
{
    let ranges = http_range::HttpRange::parse(header, size)?;
    Ok(ranges.into_iter().map(|r| (r.start, r.length)).collect())
}

/// Calls `aws_smithy_types::DateTime::fmt` with the RFC 3339 date-time
/// format on the time `secs` seconds after the epoch. The outcome depends
/// on `secs` alone.
#[verifier::external_body]
pub(crate) fn format_datetime(secs: i64) -> (r: Result<
    String,
    aws_smithy_types::date_time::DateTimeFormatError,
>)
    ensures
        match r {
            Ok(text) => datetime_formatted(secs) == Some(text@),
            Err(_) => datetime_formatted(secs) is None,
        },
{
    aws_smithy_types::DateTime::from_secs(secs).fmt(aws_smithy_types::date_time::Format::DateTime)
}

/// `c` is an ASCII letter or digit.
pub open spec fn is_alphanumeric(c: char) -> bool {
    ('0' <= c && c <= '9') || ('a' <= c && c <= 'z') || ('A' <= c && c <= 'Z')
}

/// Calls `sample_string` of `rand::distributions::Alphanumeric` on the
/// thread's generator. Whatever is drawn, the string has `len` characters,
/// each an ASCII letter or digit.
#[verifier::external_body]
pub(crate) fn random_alphanumeric(len: usize) -> (s: String)
    ensures
        s@.len() == len,
        forall|i: int| 0 <= i < s@.len() ==> is_alphanumeric(#[trigger] s@[i]),
{
    rand::distributions::DistString::sample_string(
        &rand::distributions::Alphanumeric,
        &mut rand::thread_rng(),
        len,
    )
}

/// The error type of `String::from_utf8`.
#[verifier::external_type_specification]
#[verifier::external_body]
pub struct ExFromUtf8Error(std::string::FromUtf8Error);

/// Calls `String::from_utf8`: the string that the bytes encode in UTF-8,
/// or the error where they encode none.
#[verifier::external_body]
pub(crate) fn string_from_utf8(bytes: Vec<u8>) -> (r: Result<String, std::string::FromUtf8Error>)
    ensures
        match r {
            Ok(s) => vstd::utf8::valid_utf8(bytes@) && s@ == vstd::utf8::decode_utf8(bytes@),
            Err(_) => !vstd::utf8::valid_utf8(bytes@),
        },
{
    String::from_utf8(bytes)
}

} // verus!
