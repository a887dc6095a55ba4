//! The calls this library makes into the `sha2`, `serde_json` and `url` crates.
//!
//! Each function here is trusted: Verus believes its contract and does not
//! read its body.  The digest and the parsed URL are functions of their input
//! alone, so each is given a name that the rest of the library reasons about;
//! the JSON string literal is short enough to be stated outright.
use sha2::Digest;
use vstd::prelude::*;

use crate::text::hex_digit_char;

verus! {

/// The SHA-256 digest of `data`.
pub uninterp spec fn sha256(data: Seq<u8>) -> Seq<u8>;

/// How `serde_json` writes one character inside a string literal: a quote or
/// a backslash behind a backslash; backspace, tab, line feed, form feed and
/// carriage return as `\b \t \n \f \r`; any other character below U+0020
/// as `\u00` and two lowercase hexadecimal digits; anything else, DEL and
/// all non-ASCII characters included, as itself.
pub open spec fn json_escape(c: char) -> Seq<char> {
    if c == '"' {
        seq!['\\', '"']
    } else if c == '\\' {
        seq!['\\', '\\']
    } else if c == '\x08' {
        seq!['\\', 'b']
    } else if c == '\t' {
        seq!['\\', 't']
    } else if c == '\n' {
        seq!['\\', 'n']
    } else if c == '\x0c' {
        seq!['\\', 'f']
    } else if c == '\r' {
        seq!['\\', 'r']
    } else if (c as u32) < 0x20 {
        seq![
            '\\',
            'u',
            '0',
            '0',
            hex_digit_char(((c as u32) / 16) as nat),
            hex_digit_char(((c as u32) % 16) as nat),
        ]
    } else {
        seq![c]
    }
}

/// The escaped characters of a text, in order.
pub open spec fn json_escaped(text: Seq<char>) -> Seq<char>
    decreases text.len(),
{
    if text.len() == 0 {
        Seq::empty()
    } else {
        json_escaped(text.drop_last()) + json_escape(text.last())
    }
}

/// The JSON string literal that `serde_json` writes for `text`: its escaped
/// characters between double quotes.
pub open spec fn json_string(text: Seq<char>) -> Seq<char> {
    seq!['"'] + json_escaped(text) + seq!['"']
}

/// What `url::Url::parse` makes of `text`, read back through `scheme`,
/// `host_str`, `path` and `port`; `None` where the text is not a URL.
pub uninterp spec fn url_parse(text: Seq<char>) -> Option<(Seq<char>, Option<Seq<char>>, Seq<char>, Option<u16>)>;

/// `sha2::Sha256::digest`.  The contract claims the digest is the named
/// SHA-256 value of the bytes and, as the algorithm fixes, 32 bytes long.
#[verifier::external_body]
pub(crate) fn sha256_digest(data: &[u8]) -> (r: Vec<u8>)
    ensures
        r@ == sha256(data@),
        r@.len() == 32,
{
    sha2::Sha256::digest(data).to_vec()
}

/// `serde_json::to_string` on a string slice.  The contract claims the
/// result is the JSON literal of the text as `json_string` states it (the
/// compact formatter's escaping); serialising a string into memory cannot
/// fail, so the error arm is never taken.
#[verifier::external_body]
pub(crate) fn json_quote(text: &str) -> (r: String)
    ensures
        r@ == json_string(text@),
{
    match serde_json::to_string(text) {
        Ok(quoted) => quoted,
        Err(_) => String::new(),
    }
}

/// The parts of a parsed URL that remote canonicalisation reads.
pub(crate) struct UrlParts {
    pub scheme: String,
    pub host: Option<String>,
    pub path: String,
    pub port: Option<u16>,
}

pub open spec fn opt_view(value: Option<String>) -> Option<Seq<char>> {
    match value {
        Some(s) => Some(s@),
        None => None,
    }
}

/// `url::Url::parse`, with `scheme`, `host_str`, `path` and `port` read from
/// the parsed value.  The contract claims the parts are the named parse of
/// the text, and that `None` comes exactly when the text does not parse.
#[verifier::external_body]
pub(crate) fn parse_url(text: &str) -> (r: Option<UrlParts>)
    ensures
        match r {
            Some(parts) => url_parse(text@) == Some(
                (parts.scheme@, opt_view(parts.host), parts.path@, parts.port),
            ),
            None => url_parse(text@) is None,
        },
{
    match url::Url::parse(text) {
        Ok(url) => Some(
            UrlParts {
                scheme: url.scheme().to_owned(),
                host: match url.host_str() {
                    Some(host) => Some(host.to_owned()),
                    None => None,
                },
                path: url.path().to_owned(),
                port: url.port(),
            },
        ),
        Err(_) => None,
    }
}

} // verus!
