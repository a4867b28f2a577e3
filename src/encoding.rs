//! Percent-encoding of URL parameters and JSON string literals.

use vstd::prelude::*;
use vstd::utf8::encode_utf8;
use vstd::string::StringSliceAdditionalSpecFns;
use crate::text::push_str;

verus! {

/// The uppercase hexadecimal digit of `d`.
pub open spec fn hex_upper(d: nat) -> char
    recommends
        d < 16,
{
    if d < 10 {
        ((d + 48) as u8) as char
    } else {
        ((d + 55) as u8) as char
    }
}

/// `%` followed by the two uppercase hexadecimal digits of a byte.
pub open spec fn pct_byte(b: u8) -> Seq<char> {
    seq!['%', hex_upper((b / 16) as nat), hex_upper((b % 16) as nat)]
}

/// Relies on percent_encoding's `percent_encode_byte`: the three-character
/// escape `%XX` of a byte, with uppercase hexadecimal digits.
pub assume_specification[ percent_encoding::percent_encode_byte ](byte: u8) -> (r: &'static str)
    ensures
        r@ == pct_byte(byte),
;

/// The ASCII bytes that are escaped in every URL parameter of a badge:
/// the control characters and the reserved or unsafe punctuation.
pub open spec fn is_url_reserved(b: u8) -> bool {
    b < 0x20 || b == 0x7f || b == 0x20 || b == 0x21 || b == 0x22 || b == 0x23 || b == 0x24
        || b == 0x25 || b == 0x26 || b == 0x27 || b == 0x28 || b == 0x29 || b == 0x2a
        || b == 0x2b || b == 0x2c || b == 0x2f || b == 0x3a || b == 0x3b || b == 0x3c
        || b == 0x3d || b == 0x3e || b == 0x3f || b == 0x40 || b == 0x5b || b == 0x5c
        || b == 0x5d || b == 0x5e || b == 0x60 || b == 0x7b || b == 0x7c || b == 0x7d
}

/// The encoding of one byte: escaped when it is not ASCII or is reserved.
pub open spec fn url_encoded_byte(b: u8) -> Seq<char> {
    if b >= 0x80 || is_url_reserved(b) {
        pct_byte(b)
    } else {
        seq![b as char]
    }
}

pub open spec fn url_encoded_bytes(bs: Seq<u8>) -> Seq<char>
    decreases bs.len(),
{
    if bs.len() == 0 {
        Seq::empty()
    } else {
        url_encoded_bytes(bs.drop_last()) + url_encoded_byte(bs.last())
    }
}

/// Percent-encoding of the UTF-8 bytes of a text.
pub open spec fn url_encoded(s: Seq<char>) -> Seq<char> {
    url_encoded_bytes(encode_utf8(s))
}

pub fn is_url_reserved_byte(b: u8) -> (r: bool)
    ensures
        r == is_url_reserved(b),
{
    b < 0x20 || b == 0x7f || b == 0x20 || b == 0x21 || b == 0x22 || b == 0x23 || b == 0x24
        || b == 0x25 || b == 0x26 || b == 0x27 || b == 0x28 || b == 0x29 || b == 0x2a
        || b == 0x2b || b == 0x2c || b == 0x2f || b == 0x3a || b == 0x3b || b == 0x3c
        || b == 0x3d || b == 0x3e || b == 0x3f || b == 0x40 || b == 0x5b || b == 0x5c
        || b == 0x5d || b == 0x5e || b == 0x60 || b == 0x7b || b == 0x7c || b == 0x7d
}

/// Percent-encodes a value interpolated into a badge URL.
pub fn url_encode(s: &str) -> (r: String)
    ensures
        r@ == url_encoded(s@),
{
    let bytes = s.as_bytes();
    let mut out = String::new();
    let mut i: usize = 0;
    while i < bytes.len()
        invariant
            i <= bytes@.len(),
            bytes@ == s.spec_bytes(),
            s.spec_bytes() == encode_utf8(s@),
            out@ == url_encoded_bytes(bytes@.subrange(0, i as int)),
        decreases bytes@.len() - i,
    {
        let b = bytes[i];
        if b >= 0x80 || is_url_reserved_byte(b) {
            push_str(&mut out, percent_encoding::percent_encode_byte(b));
        } else {
            out.push(b as char);
        }
        proof {
            let next = bytes@.subrange(0, i + 1);
            assert(next.drop_last() =~= bytes@.subrange(0, i as int));
        }
        i = i + 1;
    }
    assert(bytes@.subrange(0, bytes@.len() as int) =~= bytes@);
    out
}

/// The lowercase hexadecimal digit of `d`.
pub open spec fn hex_lower(d: nat) -> char
    recommends
        d < 16,
{
    if d < 10 {
        ((d + 48) as u8) as char
    } else {
        ((d + 87) as u8) as char
    }
}

/// How a character stands inside a JSON string literal: quote and backslash
/// escaped, control characters written as short escapes or `\u00xx`.
pub open spec fn json_escaped_char(c: char) -> Seq<char> {
    if c == '"' {
        seq!['\\', '"']
    } else if c == '\\' {
        seq!['\\', '\\']
    } else if c == '\x08' {
        seq!['\\', 'b']
    } else if c == '\t' {
        seq!['\\', 't']
    } else if c == '\n' {
        seq!['\\', 'n']
    } else if c == '\x0c' {
        seq!['\\', 'f']
    } else if c == '\r' {
        seq!['\\', 'r']
    } else if (c as u32) < 0x20 {
        seq!['\\', 'u', '0', '0', hex_lower((c as u32 / 16) as nat), hex_lower((c as u32 % 16) as nat)]
    } else {
        seq![c]
    }
}

pub open spec fn json_escaped(s: Seq<char>) -> Seq<char>
    decreases s.len(),
{
    if s.len() == 0 {
        Seq::empty()
    } else {
        json_escaped(s.drop_last()) + json_escaped_char(s.last())
    }
}

/// The JSON string literal of a text.
pub open spec fn json_quoted(s: Seq<char>) -> Seq<char> {
    seq!['"'] + json_escaped(s) + seq!['"']
}

/// Relies on serde_json: a `Value::String` displays as the JSON string
/// literal of its text, escaped as `json_escaped_char` states.
#[verifier::external_body]
fn json_string(s: &str) -> (r: String)
    ensures
        r@ == json_quoted(s@),
{
    serde_json::Value::String(s.to_owned()).to_string()
}

/// Appends the JSON string literal of `t`.
pub fn push_json_str(s: &mut String, t: &str)
    ensures
        final(s)@ == old(s)@ + json_quoted(t@),
{
    let q = json_string(t);
    push_str(s, q.as_str());
}

} // verus!
