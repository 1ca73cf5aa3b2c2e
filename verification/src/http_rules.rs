//! What HTTP accepts as a method, a status, a header name and a header value.
use crate::text;
use axum::http::{HeaderName, HeaderValue, StatusCode};
use reqwest::Method;
use vstd::prelude::*;

verus! {

/// The characters of an HTTP token.
pub open spec fn is_token_char(c: char) -> bool {
    ||| 'a' <= c && c <= 'z'
    ||| 'A' <= c && c <= 'Z'
    ||| '0' <= c && c <= '9'
    ||| c == '!'
    ||| c == '#'
    ||| c == '$'
    ||| c == '%'
    ||| c == '&'
    ||| c == '\''
    ||| c == '*'
    ||| c == '+'
    ||| c == '-'
    ||| c == '.'
    ||| c == '^'
    ||| c == '_'
    ||| c == '`'
    ||| c == '|'
    ||| c == '~'
}

/// An HTTP token: at least one token character, and nothing else.
pub open spec fn is_http_token(s: Seq<char>) -> bool {
    &&& s.len() > 0
    &&& forall|i: int| 0 <= i < s.len() ==> is_token_char(#[trigger] s[i])
}

/// A header name that fits into a header map.
pub open spec fn valid_header_name(s: Seq<char>) -> bool {
    is_http_token(s) && s.len() <= 65535
}

/// A header value without control characters other than the tab.
pub open spec fn valid_header_value(s: Seq<char>) -> bool {
    forall|i: int|
        0 <= i < s.len() ==> ('\u{20}' <= #[trigger] s[i] && s[i] != '\u{7f}') || s[i] == '\t'
}

/// A status code of three digits.
pub open spec fn valid_status(status: u16) -> bool {
    100 <= status <= 999
}

/// Calls `HeaderName::from_bytes` of the http crate on the bytes of a text, and hands out the
/// name that it made of them. It takes a token of at most 65535 bytes, and puts it into lower
/// case; it refuses every other text.
#[verifier::external_body]
pub(crate) fn parse_header_name(name: &str) -> (parsed: Option<String>)
    ensures
        parsed is Some == valid_header_name(name@),
        parsed matches Some(parsed) ==> parsed@ == text::ascii_lower(name@),
{
    match HeaderName::from_bytes(name.as_bytes()) {
        Ok(parsed) => Some(parsed.as_str().to_string()),
        Err(_) => None,
    }
}

/// Calls `HeaderValue::from_str` of the http crate, and tells whether it takes the text. It
/// refuses the bytes below 32 other than the tab, and the byte 127; the bytes of a character
/// beyond ASCII lie above both.
#[verifier::external_body]
pub(crate) fn accepts_header_value(value: &str) -> (accepted: bool)
    ensures
        accepted == valid_header_value(value@),
{
    HeaderValue::from_str(value).is_ok()
}

/// Calls `Method::from_bytes` of the http crate, as reqwest hands it on, and tells whether it
/// takes the text. It takes every token, of whatever length.
#[verifier::external_body]
pub(crate) fn accepts_method(method: &str) -> (accepted: bool)
    ensures
        accepted == is_http_token(method@),
{
    Method::from_bytes(method.as_bytes()).is_ok()
}

/// Calls `StatusCode::from_u16` of the http crate, and tells whether it takes the number: it does
/// from 100 to 999.
#[verifier::external_body]
pub(crate) fn accepts_status(status: u16) -> (accepted: bool)
    ensures
        accepted == valid_status(status),
{
    StatusCode::from_u16(status).is_ok()
}

} // verus!
