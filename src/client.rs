//! Preparation of authenticated requests to the client's loopback API, and
//! the classification of its responses.

use vstd::prelude::*;
use vstd::string::StringSliceAdditionalSpecFns;
use vstd::utf8::encode_utf8;
use base64::Engine;
use crate::text::{decimal, u16_decimal};

verus! {

#[verifier::external_type_specification]
#[verifier::external_body]
pub struct ExMethod(reqwest::Method);

/// A character allowed in an HTTP method token.
pub open spec fn is_token_char(c: char) -> bool {
    ('0' <= c <= '9') || ('A' <= c <= 'Z') || ('a' <= c <= 'z') || c == '!' || c == '#' || c
        == '$' || c == '%' || c == '&' || c == '\'' || c == '*' || c == '+' || c == '-' || c == '.'
        || c == '^' || c == '_' || c == '`' || c == '|' || c == '~'
}

/// A syntactically valid HTTP method: a non-empty token.
pub open spec fn is_method_token(s: Seq<char>) -> bool {
    s.len() > 0 && forall|i: int| 0 <= i < s.len() ==> is_token_char(#[trigger] s[i])
}

/// Relies on `str::parse` into reqwest's `Method` (http's `Method::from_bytes`):
/// it accepts exactly the non-empty byte strings of token characters.
#[verifier::external_body]
fn parse_method(s: &str) -> (r: Option<reqwest::Method>)
    ensures
        r is Some <==> is_method_token(s@),
{
    s.parse::<reqwest::Method>().ok()
}

/// The character of the standard base64 alphabet for a 6-bit value.
pub open spec fn base64_digit(v: int) -> char {
    if v < 26 {
        ((65 + v) as u32) as char
    } else if v < 52 {
        ((97 + v - 26) as u32) as char
    } else if v < 62 {
        ((48 + v - 52) as u32) as char
    } else if v == 62 {
        '+'
    } else {
        '/'
    }
}

/// Standard base64 with padding: each group of three bytes becomes four
/// characters; a final group of one or two bytes is padded with `=`.
pub open spec fn base64_encoding(b: Seq<u8>) -> Seq<char>
    decreases b.len(),
{
    let b0 = if b.len() > 0 { b[0] as int } else { 0 };
    let b1 = if b.len() > 1 { b[1] as int } else { 0 };
    let b2 = if b.len() > 2 { b[2] as int } else { 0 };
    if b.len() == 0 {
        seq![]
    } else if b.len() == 1 {
        seq![base64_digit(b0 / 4), base64_digit((b0 % 4) * 16), '=', '=']
    } else if b.len() == 2 {
        seq![base64_digit(b0 / 4), base64_digit((b0 % 4) * 16 + b1 / 16), base64_digit((b1 % 16) * 4), '=']
    } else {
        seq![
            base64_digit(b0 / 4),
            base64_digit((b0 % 4) * 16 + b1 / 16),
            base64_digit((b1 % 16) * 4 + b2 / 64),
            base64_digit(b2 % 64),
        ] + base64_encoding(b.subrange(3, b.len() as int))
    }
}

/// Relies on base64's `general_purpose::STANDARD.encode` (standard alphabet,
/// padded) over the UTF-8 bytes of `s`; the length bound keeps its output
/// size from overflowing.
#[verifier::external_body]
fn base64_standard(s: &str) -> (r: String)
    requires
        s@.len() <= usize::MAX / 8,
    ensures
        r@ == base64_encoding(s.spec_bytes()),
{
    base64::engine::general_purpose::STANDARD.encode(s.as_bytes())
}

/// Why an authenticated request failed.
#[derive(Debug)]
pub enum ApiError {
    /// The method is not a valid HTTP method; nothing was sent.
    InvalidMethod,
    /// The connection or the transfer failed.
    Transport(String),
    /// The API answered with a status outside 200..=299.
    Http { status: u16, reason: Option<String>, body: String },
}

/// The user name of the client's Basic authentication.
pub open spec fn auth_user() -> Seq<char> {
    "riot"@
}

/// The request target: always the loopback address.
pub open spec fn request_url(port: u16, path: Seq<char>) -> Seq<char> {
    "https://127.0.0.1:"@ + decimal(port as nat) + path
}

/// The Basic authorization header value for `password`.
pub open spec fn authorization(password: Seq<char>) -> Seq<char> {
    "Basic "@ + base64_encoding(encode_utf8(auth_user() + ":"@ + password))
}

/// The Basic authorization header value for already-encoded credentials.
pub fn basic_authorization(encoded: &str) -> (r: String)
    ensures
        r@ == "Basic "@ + encoded@,
{
    let mut auth = String::from_str("Basic ");
    auth.append(encoded);
    auth
}

/// A request ready to be sent; its method is a valid HTTP method token.
pub struct PreparedRequest {
    pub method: String,
    pub url: String,
    pub authorization: String,
    pub body: Option<String>,
}

/// The view of an optional body.
pub open spec fn body_view(b: Option<&str>) -> Option<Seq<char>> {
    match b {
        Some(s) => Some(s@),
        None => None,
    }
}

/// The view of an optional owned string.
pub open spec fn string_option_view(b: Option<String>) -> Option<Seq<char>> {
    match b {
        Some(s) => Some(s@),
        None => None,
    }
}

/// Prepares an authenticated request to `https://127.0.0.1:<port><path>`;
/// an invalid method fails before anything is sent.
pub fn prepare_request(port: u16, password: &str, method: &str, path: &str, body: Option<&str>) -> (r:
    Result<PreparedRequest, ApiError>)
    requires
        password@.len() <= usize::MAX / 16,
    ensures
        r is Ok <==> is_method_token(method@),
        r matches Err(e) ==> e is InvalidMethod,
        r matches Ok(p) ==> {
            &&& p.method@ == method@
            &&& p.url@ == request_url(port, path@)
            &&& p.authorization@ == authorization(password@)
            &&& string_option_view(p.body) == body_view(body)
        },
{
    let mut url = String::from_str("https://127.0.0.1:");
    let digits = u16_decimal(port);
    url.append(digits.as_str());
    url.append(path);
    let mut credentials = String::from_str("riot");
    credentials.append(":");
    credentials.append(password);
    proof {
        reveal_strlit("riot");
        reveal_strlit(":");
    }
    let encoded = base64_standard(credentials.as_str());
    let auth = basic_authorization(encoded.as_str());
    if parse_method(method).is_none() {
        return Err(ApiError::InvalidMethod);
    }
    let m = String::from_str(method);
    let body = match body {
        Some(b) => Some(String::from_str(b)),
        None => None,
    };
    Ok(PreparedRequest { method: m, url, authorization: auth, body })
}

/// Is `status` a success status (200..=299)?
pub open spec fn is_success(status: u16) -> bool {
    200 <= status <= 299
}

/// The outcome of a response: its text on success, otherwise an HTTP error
/// that keeps the status, its canonical reason and the body text.
pub fn response_outcome(status: u16, reason: Option<&str>, text: String) -> (r: Result<
    String,
    ApiError,
>)
    ensures
        is_success(status) ==> (r matches Ok(t) && t@ == text@),
        !is_success(status) ==> (r matches Err(ApiError::Http { status: s, reason: why, body })
            && s == status && string_option_view(why) == body_view(reason) && body@ == text@),
{
    if 200 <= status && status <= 299 {
        Ok(text)
    } else {
        let reason = match reason {
            Some(t) => Some(String::from_str(t)),
            None => None,
        };
        Err(ApiError::Http { status, reason, body: text })
    }
}

impl ApiError {
    pub open spec fn message_spec(self) -> Seq<char> {
        match self {
            ApiError::InvalidMethod => "Invalid HTTP method"@,
            ApiError::Transport(m) => m@,
            ApiError::Http { status, reason, body } => "LCU API error "@ + decimal(status as nat)
                + " "@ + match reason {
                Some(t) => t@,
                None => "<unknown status code>"@,
            } + ": "@ + body@,
        }
    }

    /// Human-readable description, with the status and body text of an HTTP error.
    pub fn message(&self) -> (r: String)
        ensures
            r@ == self.message_spec(),
    {
        match self {
            ApiError::InvalidMethod => String::from_str("Invalid HTTP method"),
            ApiError::Transport(m) => m.clone(),
            ApiError::Http { status, reason, body } => {
                let mut out = String::from_str("LCU API error ");
                let digits = u16_decimal(*status);
                out.append(digits.as_str());
                out.append(" ");
                match reason {
                    Some(t) => out.append(t.as_str()),
                    None => out.append("<unknown status code>"),
                }
                out.append(": ");
                out.append(body.as_str());
                out
            },
        }
    }
}

} // verus!
