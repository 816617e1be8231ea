//! Digests, message authentication and key derivation.

use vstd::prelude::*;
use vstd::string::StringSliceAdditionalSpecFns;
use sha2::Digest;
use hmac::Mac;
use crate::error::GraphoidError;
use super::encoding::{hex_decode, hex_decoding, hex_encode, hex_encoding, lemma_hex_round_trip};

verus! {

/// The SHA-256 digest of `data`.
pub uninterp spec fn sha256_digest(data: Seq<u8>) -> Seq<u8>;
/// The SHA-512 digest of `data`.
pub uninterp spec fn sha512_digest(data: Seq<u8>) -> Seq<u8>;
/// The SHA-1 digest of `data`.
pub uninterp spec fn sha1_digest(data: Seq<u8>) -> Seq<u8>;
/// The MD5 digest of `data`.
pub uninterp spec fn md5_digest(data: Seq<u8>) -> Seq<u8>;
/// The BLAKE2b-512 digest of `data`.
pub uninterp spec fn blake2b_digest(data: Seq<u8>) -> Seq<u8>;
/// The BLAKE3 (32-byte) hash of `data`.
pub uninterp spec fn blake3_digest(data: Seq<u8>) -> Seq<u8>;
/// The HMAC-SHA256 tag of `message` under `key`.
pub uninterp spec fn hmac_sha256_tag(key: Seq<u8>, message: Seq<u8>) -> Seq<u8>;
/// The 32-byte PBKDF2-HMAC-SHA256 key of `password` and `salt` after
/// `rounds` rounds.
pub uninterp spec fn pbkdf2_sha256_key(password: Seq<u8>, salt: Seq<u8>, rounds: u32) -> Seq<u8>;
/// The `len` bytes of HKDF-SHA256 output key material for `salt`, `ikm`
/// and `info`.
pub uninterp spec fn hkdf_sha256_okm(salt: Option<Seq<u8>>, ikm: Seq<u8>, info: Seq<u8>, len: nat) -> Seq<u8>;

/// `sha2::Sha256::digest`.
#[verifier::external_body]
fn sha256_bytes(data: &[u8]) -> (r: Vec<u8>)
    ensures
        r@ == sha256_digest(data@),
        r@.len() == 32,
{
    sha2::Sha256::digest(data).to_vec()
}

/// `sha2::Sha512::digest`.
#[verifier::external_body]
fn sha512_bytes(data: &[u8]) -> (r: Vec<u8>)
    ensures
        r@ == sha512_digest(data@),
        r@.len() == 64,
{
    sha2::Sha512::digest(data).to_vec()
}

/// `sha1::Sha1::digest`.
#[verifier::external_body]
fn sha1_bytes(data: &[u8]) -> (r: Vec<u8>)
    ensures
        r@ == sha1_digest(data@),
        r@.len() == 20,
{
    sha1::Sha1::digest(data).to_vec()
}

/// `md5::Md5::digest`.
#[verifier::external_body]
fn md5_bytes(data: &[u8]) -> (r: Vec<u8>)
    ensures
        r@ == md5_digest(data@),
        r@.len() == 16,
{
    md5::Md5::digest(data).to_vec()
}

/// `blake2::Blake2b512::digest`.
#[verifier::external_body]
fn blake2b_bytes(data: &[u8]) -> (r: Vec<u8>)
    ensures
        r@ == blake2b_digest(data@),
        r@.len() == 64,
{
    blake2::Blake2b512::digest(data).to_vec()
}

/// `blake3::hash`.
#[verifier::external_body]
fn blake3_bytes(data: &[u8]) -> (r: Vec<u8>)
    ensures
        r@ == blake3_digest(data@),
        r@.len() == 32,
{
    blake3::hash(data).as_bytes().to_vec()
}

/// HMAC-SHA256 (`hmac::Hmac<Sha256>`, which takes keys of any length):
/// the tag of `message` under `key`.
#[verifier::external_body]
fn hmac_sha256_bytes(key: &[u8], message: &[u8]) -> (r: Vec<u8>)
    ensures
        r@ == hmac_sha256_tag(key@, message@),
        r@.len() == 32,
{
    let mut mac = <hmac::Hmac<sha2::Sha256> as Mac>::new_from_slice(key).unwrap();
    mac.update(message);
    mac.finalize().into_bytes().to_vec()
}

/// `Mac::verify_slice` of HMAC-SHA256: whether `tag` is the full tag of
/// `message` under `key` (compared in constant time).
#[verifier::external_body]
fn hmac_sha256_matches(key: &[u8], message: &[u8], tag: &[u8]) -> (r: bool)
    ensures
        r == (tag@ == hmac_sha256_tag(key@, message@)),
{
    let mut mac = <hmac::Hmac<sha2::Sha256> as Mac>::new_from_slice(key).unwrap();
    mac.update(message);
    mac.verify_slice(tag).is_ok()
}

/// `pbkdf2::pbkdf2_hmac_array::<Sha256, 32>`.
#[verifier::external_body]
fn pbkdf2_sha256_bytes(password: &[u8], salt: &[u8], rounds: u32) -> (r: Vec<u8>)
    ensures
        r@ == pbkdf2_sha256_key(password@, salt@, rounds),
        r@.len() == 32,
{
    pbkdf2::pbkdf2_hmac_array::<sha2::Sha256, 32>(password, salt, rounds).to_vec()
}

/// `hkdf::Hkdf::<Sha256>::new(salt, ikm)` then `expand(info, ..)` into `len`
/// bytes, which succeeds for lengths up to 255 blocks of 32 bytes.
#[verifier::external_body]
fn hkdf_sha256_bytes(salt: Option<&[u8]>, ikm: &[u8], info: &[u8], len: usize) -> (r: Vec<u8>)
    requires
        len <= 8160,
    ensures
        r@ == hkdf_sha256_okm(
            match salt {
                Some(s) => Some(s@),
                None => None,
            },
            ikm@,
            info@,
            len as nat,
        ),
        r@.len() == len,
{
    let hk = hkdf::Hkdf::<sha2::Sha256>::new(salt, ikm);
    let mut okm = vec![0u8; len];
    hk.expand(info, &mut okm).unwrap();
    okm
}

/// SHA-256 of the text, as hexadecimal.
pub fn sha256(data: &str) -> (r: String)
    ensures
        r@ == hex_encoding(sha256_digest(data.spec_bytes())),
{
    hex_encode(sha256_bytes(data.as_bytes()).as_slice())
}

/// SHA-512 of the text, as hexadecimal.
pub fn sha512(data: &str) -> (r: String)
    ensures
        r@ == hex_encoding(sha512_digest(data.spec_bytes())),
{
    hex_encode(sha512_bytes(data.as_bytes()).as_slice())
}

/// SHA-1 of the text, as hexadecimal (kept for older protocols).
pub fn sha1(data: &str) -> (r: String)
    ensures
        r@ == hex_encoding(sha1_digest(data.spec_bytes())),
{
    hex_encode(sha1_bytes(data.as_bytes()).as_slice())
}

/// MD5 of the text, as hexadecimal (kept for older protocols).
pub fn md5(data: &str) -> (r: String)
    ensures
        r@ == hex_encoding(md5_digest(data.spec_bytes())),
{
    hex_encode(md5_bytes(data.as_bytes()).as_slice())
}

/// BLAKE2b-512 of the text, as hexadecimal.
pub fn blake2b(data: &str) -> (r: String)
    ensures
        r@ == hex_encoding(blake2b_digest(data.spec_bytes())),
{
    hex_encode(blake2b_bytes(data.as_bytes()).as_slice())
}

/// BLAKE3 of the text, as hexadecimal.
pub fn blake3(data: &str) -> (r: String)
    ensures
        r@ == hex_encoding(blake3_digest(data.spec_bytes())),
{
    hex_encode(blake3_bytes(data.as_bytes()).as_slice())
}

/// HMAC-SHA256 of `message` under `key` (both as text), as hexadecimal.
pub fn hmac_sha256(message: &str, key: &str) -> (r: String)
    ensures
        r@ == hex_encoding(hmac_sha256_tag(key.spec_bytes(), message.spec_bytes())),
{
    hex_encode(hmac_sha256_bytes(key.as_bytes(), message.as_bytes()).as_slice())
}

/// A tag made by `hmac_sha256` checks: its hexadecimal text reads back as
/// the tag of the same message and key, so `hmac_verify` gives `Ok(true)`.
pub proof fn lemma_hmac_round_trip(key: Seq<u8>, message: Seq<u8>)
    ensures
        hex_decoding(hex_encoding(hmac_sha256_tag(key, message))) == Some(hmac_sha256_tag(key, message)),
{
    lemma_hex_round_trip(hmac_sha256_tag(key, message));
}

/// Whether `mac_hex` is the HMAC-SHA256 tag of `message` under `key`; an
/// error when `mac_hex` is not hexadecimal.
pub fn hmac_verify(message: &str, mac_hex: &str, key: &str) -> (r: Result<bool, GraphoidError>)
    ensures
        match hex_decoding(mac_hex@) {
            Some(tag) => r == Ok::<bool, GraphoidError>(tag == hmac_sha256_tag(key.spec_bytes(), message.spec_bytes())),
            None => r matches Err(GraphoidError::RuntimeError { .. }),
        },
{
    let tag = match hex_decode(mac_hex) {
        Ok(t) => t,
        Err(e) => return Err(invalid("Invalid MAC (must be hex): ", e)),
    };
    Ok(hmac_sha256_matches(key.as_bytes(), message.as_bytes(), tag.as_slice()))
}

/// The number of PBKDF2 rounds when none is given.
pub const DEFAULT_PBKDF2_ROUNDS: u32 = 100000;

/// A 32-byte key derived from `password` and `salt` by PBKDF2-HMAC-SHA256
/// (100000 rounds unless given), as hexadecimal.
pub fn pbkdf2(password: &str, salt: &str, iterations: Option<u32>) -> (r: String)
    ensures
        r@ == hex_encoding(pbkdf2_sha256_key(
            password.spec_bytes(),
            salt.spec_bytes(),
            match iterations {
                Some(n) => n,
                None => DEFAULT_PBKDF2_ROUNDS,
            },
        )),
{
    let rounds = match iterations {
        Some(n) => n,
        None => DEFAULT_PBKDF2_ROUNDS,
    };
    hex_encode(pbkdf2_sha256_bytes(password.as_bytes(), salt.as_bytes(), rounds).as_slice())
}

/// HKDF-Extract, taken here as the first 32 bytes of HKDF-SHA256 output for
/// `salt` and `ikm` (both hexadecimal) with empty info, as hexadecimal; an
/// error when either argument is not hexadecimal.
pub fn hkdf_extract(salt_hex: &str, ikm_hex: &str) -> (r: Result<String, GraphoidError>)
    ensures
        match (hex_decoding(salt_hex@), hex_decoding(ikm_hex@)) {
            (Some(salt), Some(ikm)) => r matches Ok(s) && s@ == hex_encoding(
                hkdf_sha256_okm(Some(salt), ikm, Seq::empty(), 32),
            ),
            _ => r matches Err(GraphoidError::RuntimeError { .. }),
        },
{
    let salt = match hex_decode(salt_hex) {
        Ok(s) => s,
        Err(e) => return Err(invalid("Invalid salt (must be hex): ", e)),
    };
    let ikm = match hex_decode(ikm_hex) {
        Ok(k) => k,
        Err(e) => return Err(invalid("Invalid ikm (must be hex): ", e)),
    };
    let info: Vec<u8> = Vec::new();
    let prk = hkdf_sha256_bytes(Some(salt.as_slice()), ikm.as_slice(), info.as_slice(), 32);
    Ok(hex_encode(prk.as_slice()))
}

/// HKDF-Expand: `length` (1 to 8160) bytes of HKDF-SHA256 output with
/// `prk` as input key material and no salt, as hexadecimal.
pub fn hkdf_expand(prk_hex: &str, info_hex: &str, length: usize) -> (r: Result<String, GraphoidError>)
    ensures
        (length == 0 || length > 8160) ==> r matches Err(GraphoidError::RuntimeError { .. }),
        (1 <= length <= 8160) ==> match (hex_decoding(prk_hex@), hex_decoding(info_hex@)) {
            (Some(prk), Some(info)) => r matches Ok(s) && s@ == hex_encoding(
                hkdf_sha256_okm(None, prk, info, length as nat),
            ),
            _ => r matches Err(GraphoidError::RuntimeError { .. }),
        },
{
    if length == 0 || length > 8160 {
        return Err(GraphoidError::runtime(String::from_str("HKDF output length must be between 1 and 8160 bytes")));
    }
    let prk = match hex_decode(prk_hex) {
        Ok(p) => p,
        Err(e) => return Err(invalid("Invalid prk (must be hex): ", e)),
    };
    let info = match hex_decode(info_hex) {
        Ok(i) => i,
        Err(e) => return Err(invalid("Invalid info (must be hex): ", e)),
    };
    let okm = hkdf_sha256_bytes(None, prk.as_slice(), info.as_slice(), length);
    Ok(hex_encode(okm.as_slice()))
}

/// A runtime error `<what><reason>`.
pub(crate) fn invalid(what: &str, reason: String) -> (e: GraphoidError)
    ensures
        e matches GraphoidError::RuntimeError { message } && message@ == what@ + reason@,
{
    let mut message = String::from_str(what);
    message.append(reason.as_str());
    GraphoidError::runtime(message)
}

} // verus!
