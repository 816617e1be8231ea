//! The byte-list helpers of the `net` module (the socket functions live
//! with the program, which does the I/O).

use vstd::prelude::*;
use crate::crypto::encoding::{hex_decode, hex_decoding, hex_encode, hex_encoding, lossy_text, utf8_lossy};
use crate::error::GraphoidError;
use vstd::utf8::{decode_utf8, valid_utf8};

verus! {

/// The bytes that hexadecimal text stands for; an error for text that is
/// not hexadecimal.
pub fn hex_to_bytes(hex_str: &str) -> (r: Result<Vec<u8>, GraphoidError>)
    ensures
        match hex_decoding(hex_str@) {
            Some(b) => r matches Ok(v) && v@ == b,
            None => r matches Err(GraphoidError::RuntimeError { .. }),
        },
{
    match hex_decode(hex_str) {
        Ok(bytes) => Ok(bytes),
        Err(e) => {
            let mut message = String::from_str("Invalid hex string: ");
            message.append(e.as_str());
            Err(GraphoidError::runtime(message))
        },
    }
}

/// The lowercase hexadecimal text of the bytes.
pub fn bytes_to_hex(bytes: &[u8]) -> (r: String)
    ensures
        r@ == hex_encoding(bytes@),
{
    hex_encode(bytes)
}

/// The bytes of `a` followed by those of `b`.
pub fn concat_bytes(a: &[u8], b: &[u8]) -> (r: Vec<u8>)
    ensures
        r@ == a@ + b@,
{
    let mut combined: Vec<u8> = Vec::new();
    let mut i: usize = 0;
    while i < a.len()
        invariant
            i <= a@.len(),
            combined@ == a@.subrange(0, i as int),
        decreases a@.len() - i,
    {
        combined.push(a[i]);
        i = i + 1;
    }
    let mut j: usize = 0;
    while j < b.len()
        invariant
            j <= b@.len(),
            combined@ == a@ + b@.subrange(0, j as int),
        decreases b@.len() - j,
    {
        combined.push(b[j]);
        j = j + 1;
    }
    assert(a@.subrange(0, a@.len() as int) =~= a@);
    assert(b@.subrange(0, b@.len() as int) =~= b@);
    combined
}

/// The bytes read as UTF-8 text, invalid sequences replaced.
pub fn bytes_to_string(bytes: &[u8]) -> (r: String)
    ensures
        r@ == utf8_lossy(bytes@),
        valid_utf8(bytes@) ==> r@ == decode_utf8(bytes@),
{
    lossy_text(bytes)
}

} // verus!
