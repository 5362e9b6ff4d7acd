//! The response formatter: a `Response` in wire format.

use vstd::prelude::*;
use vstd::utf8::encode_utf8;
use crate::text::push_char;
use crate::types::{ContentType, Response};

verus! {

/// The media type written for a content type.
pub open spec fn content_type_name(t: ContentType) -> Seq<char> {
    match t {
        ContentType::ApplicationJson => "application/json"@,
        ContentType::TextHtml => "text/html"@,
        ContentType::TextPlain => "text/plain"@,
        ContentType::Unknown => "unknown"@,
    }
}

impl ContentType {
    pub fn as_str(&self) -> (r: &'static str)
        ensures
            r@ == content_type_name(*self),
    {
        match self {
            ContentType::ApplicationJson => "application/json",
            ContentType::TextHtml => "text/html",
            ContentType::TextPlain => "text/plain",
            ContentType::Unknown => "unknown",
        }
    }
}

pub open spec fn digit_char(d: nat) -> char {
    ((d + 48) as u8) as char
}

/// Decimal digits of a number, most significant first, without leading zeros.
pub open spec fn decimal(n: nat) -> Seq<char>
    decreases n,
{
    if n < 10 {
        seq![digit_char(n)]
    } else {
        decimal(n / 10).push(digit_char(n % 10))
    }
}

/// Number of bytes in the UTF-8 encoding of a text held in memory.
pub open spec fn byte_len(s: Seq<char>) -> nat {
    (encode_utf8(s).len() as usize) as nat
}

/// The wire form of a response; the reason phrase is always `OK`.
pub open spec fn wire_format(code: nat, t: ContentType, content: Seq<char>) -> Seq<char> {
    "HTTP/1.1 "@ + decimal(code) + " OK\r\nContent-Type: "@ + content_type_name(t)
        + "\r\nContent-Length: "@ + decimal(byte_len(content)) + "\r\nConnection: close\r\n\r\n"@
        + content
}

/// Appends the decimal digits of `n`.
pub fn push_decimal(s: &mut String, n: u64)
    ensures
        final(s)@ == old(s)@ + decimal(n as nat),
    decreases n,
{
    if n >= 10 {
        push_decimal(s, n / 10);
    }
    let d = (n % 10) as u8;
    push_char(s, (48u8 + d) as char);
    assert(final(s)@ =~= old(s)@ + decimal(n as nat));
}

/// Writes a response in wire format.
pub fn res_formatter(res: Response) -> (r: String)
    ensures
        r@ == wire_format(res.code as nat, res.header, res.content@),
{
    let len = res.content.as_str().len();
    let mut out = String::from_str("HTTP/1.1 ");
    push_decimal(&mut out, res.code as u64);
    out.append(" OK\r\nContent-Type: ");
    out.append(res.header.as_str());
    out.append("\r\nContent-Length: ");
    push_decimal(&mut out, len as u64);
    out.append("\r\nConnection: close\r\n\r\n");
    out.append(res.content.as_str());
    out
}

} // verus!
