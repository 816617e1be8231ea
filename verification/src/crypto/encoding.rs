//! Hexadecimal and base64 text for bytes, and bytes read back as text.

use vstd::prelude::*;
use vstd::string::StringSliceAdditionalSpecFns;
use vstd::utf8::{decode_utf8, encode_utf8, encode_utf8_decode_utf8, encode_utf8_valid_utf8, valid_utf8};
use base64::Engine;
use crate::error::GraphoidError;

verus! {

/// The lowercase hexadecimal digit of `v` (`0 <= v < 16`).
pub open spec fn hex_digit(v: int) -> char {
    if v < 10 { (('0' as int) + v) as char } else { (('a' as int) + v - 10) as char }
}

/// Lowercase hexadecimal text of `b`, two digits per byte, high digit first.
pub open spec fn hex_encoding(b: Seq<u8>) -> Seq<char>
    decreases b.len(),
{
    if b.len() == 0 {
        Seq::empty()
    } else {
        hex_encoding(b.drop_last()) + seq![hex_digit(b.last() as int / 16), hex_digit(b.last() as int % 16)]
    }
}

/// The value of a hexadecimal digit of either case.
pub open spec fn hex_digit_value(c: char) -> Option<int> {
    if '0' <= c && c <= '9' {
        Some(c as int - '0' as int)
    } else if 'a' <= c && c <= 'f' {
        Some(c as int - 'a' as int + 10)
    } else if 'A' <= c && c <= 'F' {
        Some(c as int - 'A' as int + 10)
    } else {
        None
    }
}

/// The bytes that hexadecimal text `s` stands for: `None` unless it has an
/// even number of characters, all hexadecimal digits (of either case).
pub open spec fn hex_decoding(s: Seq<char>) -> Option<Seq<u8>>
    decreases s.len(),
{
    if s.len() == 0 {
        Some(Seq::empty())
    } else if s.len() == 1 {
        None
    } else {
        match (hex_decoding(s.subrange(0, s.len() - 2)), hex_digit_value(s[s.len() - 2]), hex_digit_value(s[s.len() - 1])) {
            (Some(rest), Some(hi), Some(lo)) => Some(rest.push((hi * 16 + lo) as u8)),
            _ => None,
        }
    }
}

/// The symbol of `v` (`0 <= v < 64`) in the standard base64 alphabet.
pub open spec fn base64_symbol(v: int) -> char {
    if v < 26 {
        (('A' as int) + v) as char
    } else if v < 52 {
        (('a' as int) + v - 26) as char
    } else if v < 62 {
        (('0' as int) + v - 52) as char
    } else if v == 62 {
        '+'
    } else {
        '/'
    }
}

/// Standard base64 (RFC 4648) of `b`, padded with `=` to a multiple of four
/// symbols.
pub open spec fn base64_encoding(b: Seq<u8>) -> Seq<char>
    decreases b.len(),
{
    if b.len() == 0 {
        Seq::empty()
    } else {
        let x = b[0] as int;
        let y = if b.len() > 1 { b[1] as int } else { 0 };
        let z = if b.len() > 2 { b[2] as int } else { 0 };
        if b.len() == 1 {
            seq![base64_symbol(x / 4), base64_symbol((x % 4) * 16), '=', '=']
        } else if b.len() == 2 {
            seq![base64_symbol(x / 4), base64_symbol((x % 4) * 16 + y / 16), base64_symbol((y % 16) * 4), '=']
        } else {
            seq![
                base64_symbol(x / 4),
                base64_symbol((x % 4) * 16 + y / 16),
                base64_symbol((y % 16) * 4 + z / 64),
                base64_symbol(z % 64),
            ] + base64_encoding(b.subrange(3, b.len() as int))
        }
    }
}

/// The text `String::from_utf8_lossy` makes of bytes `b`.
pub uninterp spec fn utf8_lossy(b: Seq<u8>) -> Seq<char>;

/// `hex::encode`: lowercase hexadecimal text of the bytes.
#[verifier::external_body]
pub(crate) fn hex_encode(data: &[u8]) -> (r: String)
    ensures
        r@ == hex_encoding(data@),
{
    hex::encode(data)
}

/// `hex::decode`: the bytes that hexadecimal text of either case stands
/// for; an error (its `Display` text) on odd length or a non-digit.
#[verifier::external_body]
pub(crate) fn hex_decode(s: &str) -> (r: Result<Vec<u8>, String>)
    ensures
        match hex_decoding(s@) {
            Some(b) => r matches Ok(v) && v@ == b,
            None => r is Err,
        },
{
    hex::decode(s).map_err(|e| e.to_string())
}

/// The standard base64 engine's `encode`: padded standard base64 text.
#[verifier::external_body]
pub(crate) fn base64_encode(data: &[u8]) -> (r: String)
    ensures
        r@ == base64_encoding(data@),
{
    base64::engine::general_purpose::STANDARD.encode(data)
}

/// The standard base64 engine's `decode`, which requires canonical padding
/// and no stray trailing bits: it succeeds exactly on the texts that are the
/// encoding of some bytes, and gives those bytes; an error (its `Display`
/// text) otherwise.
#[verifier::external_body]
pub(crate) fn base64_decode(s: &str) -> (r: Result<Vec<u8>, String>)
    ensures
        r matches Ok(v) ==> base64_encoding(v@) == s@,
        (exists|b: Seq<u8>| base64_encoding(b) == s@) ==> r is Ok,
{
    base64::engine::general_purpose::STANDARD.decode(s).map_err(|e| e.to_string())
}

/// `String::from_utf8_lossy`: the bytes as text, each invalid sequence
/// replaced by U+FFFD; valid UTF-8 is decoded unchanged.
#[verifier::external_body]
pub(crate) fn lossy_text(bytes: &[u8]) -> (r: String)
    ensures
        r@ == utf8_lossy(bytes@),
        valid_utf8(bytes@) ==> r@ == decode_utf8(bytes@),
{
    String::from_utf8_lossy(bytes).to_string()
}

/// Distinct values below 64 have distinct base64 symbols, none of them `=`.
proof fn lemma_base64_symbol(v: int, w: int)
    requires
        0 <= v < 64,
        0 <= w < 64,
    ensures
        base64_symbol(v) != '=',
        base64_symbol(v) == base64_symbol(w) ==> v == w,
{
}

/// Base64 text has four symbols for every three bytes or part of three.
proof fn lemma_base64_length(b: Seq<u8>)
    ensures
        base64_encoding(b).len() == 4 * ((b.len() + 2) / 3),
    decreases b.len(),
{
    if b.len() > 2 {
        lemma_base64_length(b.subrange(3, b.len() as int));
    }
}

/// No two byte strings have the same base64 text: reading back the base64
/// text of some bytes can give only those bytes.
pub proof fn lemma_base64_injective(a: Seq<u8>, b: Seq<u8>)
    requires
        base64_encoding(a) == base64_encoding(b),
    ensures
        a == b,
    decreases a.len(),
{
    lemma_base64_length(a);
    lemma_base64_length(b);
    if a.len() == 0 || b.len() == 0 {
        assert(a.len() == 0 && b.len() == 0);
        assert(a =~= b);
        return;
    }
    let ea = base64_encoding(a);
    let eb = base64_encoding(b);
    let (xa, ya, za) = (a[0] as int, if a.len() > 1 { a[1] as int } else { 0 }, if a.len() > 2 { a[2] as int } else { 0 });
    let (xb, yb, zb) = (b[0] as int, if b.len() > 1 { b[1] as int } else { 0 }, if b.len() > 2 { b[2] as int } else { 0 });
    lemma_base64_symbol(xa / 4, xb / 4);
    lemma_base64_symbol((xa % 4) * 16 + ya / 16, (xb % 4) * 16 + yb / 16);
    lemma_base64_symbol((ya % 16) * 4 + za / 64, (yb % 16) * 4 + zb / 64);
    lemma_base64_symbol(za % 64, zb % 64);
    assert(ea[0] == base64_symbol(xa / 4));
    assert(eb[0] == base64_symbol(xb / 4));
    assert(ea[1] == base64_symbol((xa % 4) * 16 + ya / 16));
    assert(eb[1] == base64_symbol((xb % 4) * 16 + yb / 16));
    // the padding tells the lengths apart
    assert(a.len() >= 2 ==> ea[2] == base64_symbol((ya % 16) * 4 + za / 64));
    assert(b.len() >= 2 ==> eb[2] == base64_symbol((yb % 16) * 4 + zb / 64));
    assert(a.len() >= 3 ==> ea[3] == base64_symbol(za % 64));
    assert(b.len() >= 3 ==> eb[3] == base64_symbol(zb % 64));
    assert(a.len() == 1 ==> ea[2] == '=');
    assert(b.len() == 1 ==> eb[2] == '=');
    assert(a.len() == 2 ==> ea[3] == '=');
    assert(b.len() == 2 ==> eb[3] == '=');
    assert((a.len() == 1) == (b.len() == 1));
    assert((a.len() == 2) == (b.len() == 2));
    // the first symbols give back the first bytes
    assert(xa / 4 == xb / 4);
    assert((xa % 4) * 16 + ya / 16 == (xb % 4) * 16 + yb / 16);
    assert(xa % 4 == xb % 4 && ya / 16 == yb / 16);
    assert(xa == xb);
    if a.len() == 1 {
        assert(a =~= b);
        return;
    }
    assert(a.len() >= 2 ==> (ya % 16) * 4 + za / 64 == (yb % 16) * 4 + zb / 64);
    assert(a.len() >= 2 ==> ya % 16 == yb % 16 && za / 64 == zb / 64);
    assert(a.len() >= 2 ==> ya == yb);
    if a.len() == 2 {
        assert(a =~= b);
        return;
    }
    assert(za % 64 == zb % 64);
    assert(za == zb);
    let ra = a.subrange(3, a.len() as int);
    let rb = b.subrange(3, b.len() as int);
    assert(ea.subrange(4, ea.len() as int) =~= base64_encoding(ra));
    assert(eb.subrange(4, eb.len() as int) =~= base64_encoding(rb));
    lemma_base64_injective(ra, rb);
    assert(a =~= b) by {
        assert forall|i: int| 0 <= i < a.len() implies a[i] == b[i] by {
            if i >= 3 {
                assert(a[i] == ra[i - 3]);
                assert(b[i] == rb[i - 3]);
            }
        }
    }
}

/// Reading back the hexadecimal text of some bytes gives those bytes.
pub proof fn lemma_hex_round_trip(b: Seq<u8>)
    ensures
        hex_decoding(hex_encoding(b)) == Some(b),
    decreases b.len(),
{
    if b.len() > 0 {
        lemma_hex_round_trip(b.drop_last());
        let e = hex_encoding(b);
        let hi = b.last() as int / 16;
        let lo = b.last() as int % 16;
        assert(e.subrange(0, e.len() - 2) =~= hex_encoding(b.drop_last()));
        assert(hex_digit_value(hex_digit(hi)) == Some(hi));
        assert(hex_digit_value(hex_digit(lo)) == Some(lo));
        assert(b.drop_last().push(b.last()) =~= b);
    }
}

/// Text survives its bytes' hexadecimal and base64 forms: the bytes of a
/// text are valid UTF-8 that decodes to the text, and reading back their
/// hexadecimal text gives those bytes. So `from_hex(&to_hex(t))` and
/// `from_base64(&to_base64(t))` both give `t` back.
pub proof fn lemma_text_round_trip(t: Seq<char>)
    ensures
        valid_utf8(encode_utf8(t)),
        decode_utf8(encode_utf8(t)) == t,
        hex_decoding(hex_encoding(encode_utf8(t))) == Some(encode_utf8(t)),
{
    encode_utf8_valid_utf8(t);
    encode_utf8_decode_utf8(t);
    lemma_hex_round_trip(encode_utf8(t));
}

/// The hexadecimal text of the text's bytes.
pub fn to_hex(data: &str) -> (r: String)
    ensures
        r@ == hex_encoding(data.spec_bytes()),
{
    hex_encode(data.as_bytes())
}

/// The bytes of hexadecimal text, read back as text; an error for text
/// that is not hexadecimal.
pub fn from_hex(hex_str: &str) -> (r: Result<String, GraphoidError>)
    ensures
        match hex_decoding(hex_str@) {
            Some(b) => r matches Ok(s) && s@ == utf8_lossy(b) && (valid_utf8(b) ==> s@ == decode_utf8(b)),
            None => r matches Err(GraphoidError::RuntimeError { .. }),
        },
{
    match hex_decode(hex_str) {
        Ok(bytes) => Ok(lossy_text(bytes.as_slice())),
        Err(e) => Err(decode_error("Invalid hex string: ", e)),
    }
}

/// The standard base64 text of the text's bytes.
pub fn to_base64(data: &str) -> (r: String)
    ensures
        r@ == base64_encoding(data.spec_bytes()),
{
    base64_encode(data.as_bytes())
}

/// The bytes that canonical base64 text encodes, read back as text; an
/// error for text that is not the encoding of any bytes.
pub fn from_base64(b64: &str) -> (r: Result<String, GraphoidError>)
    ensures
        (exists|b: Seq<u8>| base64_encoding(b) == b64@) <==> r is Ok,
        forall|b: Seq<u8>| #[trigger] base64_encoding(b) == b64@ ==> (r matches Ok(s) && s@ == utf8_lossy(b)
            && (valid_utf8(b) ==> s@ == decode_utf8(b))),
        r matches Err(e) ==> e is RuntimeError,
{
    match base64_decode(b64) {
        Ok(bytes) => {
            proof {
                assert forall|b: Seq<u8>| #[trigger] base64_encoding(b) == b64@ implies b == bytes@ by {
                    lemma_base64_injective(b, bytes@);
                }
            }
            Ok(lossy_text(bytes.as_slice()))
        },
        Err(e) => Err(decode_error("Invalid base64 string: ", e)),
    }
}

/// A runtime error `<what><reason>`.
fn decode_error(what: &str, reason: String) -> (e: GraphoidError)
    ensures
        e matches GraphoidError::RuntimeError { message } && message@ == what@ + reason@,
{
    let mut message = String::from_str(what);
    message.append(reason.as_str());
    GraphoidError::runtime(message)
}

} // verus!
