use vstd::prelude::*;
use vstd::string::*;
use vstd::utf8::encode_utf8;

use crate::error::StreamError;

verus! {

#[verifier::external_type_specification]
#[verifier::external_body]
pub struct ExUrl(url::Url);

#[verifier::external_type_specification]
#[verifier::external_body]
pub struct ExParseError(url::ParseError);

/// Bytes that form-urlencoding writes as they are: ASCII letters and digits,
/// and `*`, `-`, `.`, `_`.
pub open spec fn form_unchanged(b: u8) -> bool {
    b == 0x2a || b == 0x2d || b == 0x2e || (0x30 <= b && b <= 0x39) || (0x41 <= b && b <= 0x5a)
        || b == 0x5f || (0x61 <= b && b <= 0x7a)
}

/// The sixteen upper-case hexadecimal digits, in order of value.
pub open spec fn upper_hex_digits() -> Seq<char> {
    seq!['0', '1', '2', '3', '4', '5', '6', '7', '8', '9', 'A', 'B', 'C', 'D', 'E', 'F']
}

/// How form-urlencoding writes one byte: unchanged, a space as `+`, any
/// other byte as `%XX` in upper-case hexadecimal.
pub open spec fn form_encode_byte(b: u8) -> Seq<char> {
    if form_unchanged(b) {
        seq![(b as u32) as char]
    } else if b == 0x20 {
        seq!['+']
    } else {
        seq!['%', upper_hex_digits()[(b / 16) as int], upper_hex_digits()[(b % 16) as int]]
    }
}

/// The form-urlencoding of a byte string, byte by byte.
pub open spec fn form_encoded(bytes: Seq<u8>) -> Seq<char>
    decreases bytes.len(),
{
    if bytes.len() == 0 {
        Seq::empty()
    } else {
        form_encode_byte(bytes[0]) + form_encoded(bytes.drop_first())
    }
}

/// Whether the URL parser accepts a text as an absolute URL.
pub uninterp spec fn url_accepts(s: Seq<char>) -> bool;

/// The address of the feed: the fixed endpoint, with the token, encoded as
/// a query value, as its `api_token` parameter.
pub open spec fn endpoint_address(token: Seq<char>) -> Seq<char> {
    "wss://ws.eodhistoricaldata.com/ws/us?api_token="@ + form_encoded(encode_utf8(token))
}

/// Relies on `url::form_urlencoded::byte_serialize`, which writes each byte
/// as `form_encode_byte` states.
#[verifier::external_body]
fn form_urlencode(bytes: &[u8]) -> (r: String)
    ensures
        r@ == form_encoded(bytes@),
{
    url::form_urlencoded::byte_serialize(bytes).collect()
}

/// Relies on `url::Url::parse`: it parses an absolute URL, and whether it
/// succeeds depends on the text alone.
#[verifier::external_body]
fn parse_url(s: &str) -> (r: Result<url::Url, url::ParseError>)
    ensures
        r is Ok <==> url_accepts(s@),
{
    url::Url::parse(s)
}

/// The text of the feed address for a token. Reserved characters of the
/// token are escaped, so the token cannot change the address's shape.
pub fn endpoint_text(api_token: &str) -> (r: String)
    ensures
        r@ == endpoint_address(api_token@),
{
    let encoded = form_urlencode(api_token.as_bytes());
    let address = String::from_str("wss://ws.eodhistoricaldata.com/ws/us?api_token=");
    address.concat(encoded.as_str())
}

/// What a parse of the feed address means to a session: the URL to connect
/// to, or a connection failure, from which the session backs off as from
/// any other.
pub fn connection_target(parsed: Result<url::Url, url::ParseError>) -> (r: Result<url::Url, StreamError>)
    ensures
        r is Ok <==> parsed is Ok,
        parsed is Ok ==> r == Ok::<url::Url, StreamError>(parsed->Ok_0),
        r is Err ==> r->Err_0 == StreamError::ConnectionError,
{
    match parsed {
        Ok(u) => Ok(u),
        Err(_) => Err(StreamError::ConnectionError),
    }
}

/// The feed address for a token, parsed.
pub fn endpoint_url(api_token: &str) -> (r: Result<url::Url, StreamError>)
    ensures
        r is Ok <==> url_accepts(endpoint_address(api_token@)),
        r is Err ==> r->Err_0 == StreamError::ConnectionError,
{
    let text = endpoint_text(api_token);
    connection_target(parse_url(text.as_str()))
}

} // verus!
