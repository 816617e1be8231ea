//! Random keys and authenticated encryption (AES-256-GCM and
//! ChaCha20-Poly1305).  A ciphertext is handed out as the hexadecimal text of
//! its 12-byte nonce followed by the sealed bytes.

use vstd::prelude::*;
use vstd::string::StringSliceAdditionalSpecFns;
use aes_gcm::aead::Aead as _;
use aes_gcm::aead::KeyInit;
use rand::RngCore;
use crate::error::GraphoidError;
use super::encoding::{hex_decode, hex_decoding, hex_encode, hex_encoding, lossy_text, utf8_lossy};
use vstd::utf8::{decode_utf8, valid_utf8};
use super::hashing::invalid;

verus! {

/// AES-256-GCM sealing of `plaintext` under `key` with `nonce`: the
/// ciphertext followed by the 16-byte tag.
pub uninterp spec fn aes256_gcm_seal(key: Seq<u8>, nonce: Seq<u8>, plaintext: Seq<u8>) -> Seq<u8>;
/// AES-256-GCM opening of `sealed` under `key` with `nonce`: the plaintext,
/// or `None` when the tag does not check.
pub uninterp spec fn aes256_gcm_open(key: Seq<u8>, nonce: Seq<u8>, sealed: Seq<u8>) -> Option<Seq<u8>>;
/// ChaCha20-Poly1305 sealing of `plaintext` under `key` with `nonce`.
pub uninterp spec fn chacha20_poly1305_seal(key: Seq<u8>, nonce: Seq<u8>, plaintext: Seq<u8>) -> Seq<u8>;
/// ChaCha20-Poly1305 opening of `sealed` under `key` with `nonce`.
pub uninterp spec fn chacha20_poly1305_open(key: Seq<u8>, nonce: Seq<u8>, sealed: Seq<u8>) -> Option<Seq<u8>>;

/// The longest plaintext AES-256-GCM seals (`aes_gcm::P_MAX`).
pub open spec fn aes_gcm_max_plaintext() -> nat {
    0x10_0000_0000
}

/// `n` bytes from `rand::thread_rng()`.  Nothing is stated of their values.
#[verifier::external_body]
fn random_bytes(n: usize) -> (r: Vec<u8>)
    ensures
        r@.len() == n,
{
    let mut v = vec![0u8; n];
    rand::thread_rng().fill_bytes(&mut v);
    v
}

/// `Aes256Gcm::new(key).encrypt(nonce, plaintext)`: fails only for a
/// plaintext longer than `P_MAX`; the error is its `Display` text.
#[verifier::external_body]
fn aes_gcm_encrypt(key: &[u8], nonce: &[u8], plaintext: &[u8]) -> (r: Result<Vec<u8>, String>)
    requires
        key@.len() == 32,
        nonce@.len() == 12,
    ensures
        r is Ok <==> plaintext@.len() <= aes_gcm_max_plaintext(),
        r matches Ok(c) ==> c@ == aes256_gcm_seal(key@, nonce@, plaintext@) && c@.len() == plaintext@.len() + 16,
{
    let cipher = aes_gcm::Aes256Gcm::new(aes_gcm::Key::<aes_gcm::Aes256Gcm>::from_slice(key));
    cipher.encrypt(aes_gcm::Nonce::from_slice(nonce), plaintext).map_err(|e| e.to_string())
}

/// `Aes256Gcm::new(key).decrypt(nonce, sealed)`: the plaintext when the tag
/// checks (in particular for whatever the same key and nonce sealed); the
/// error is its `Display` text.
#[verifier::external_body]
fn aes_gcm_decrypt(key: &[u8], nonce: &[u8], sealed: &[u8]) -> (r: Result<Vec<u8>, String>)
    requires
        key@.len() == 32,
        nonce@.len() == 12,
    ensures
        match aes256_gcm_open(key@, nonce@, sealed@) {
            Some(p) => r matches Ok(v) && v@ == p,
            None => r is Err,
        },
        forall|p: Seq<u8>| #[trigger] aes256_gcm_seal(key@, nonce@, p) == sealed@ && p.len() <= aes_gcm_max_plaintext()
            ==> (r is Ok && r->Ok_0@ == p),
{
    let cipher = aes_gcm::Aes256Gcm::new(aes_gcm::Key::<aes_gcm::Aes256Gcm>::from_slice(key));
    cipher.decrypt(aes_gcm::Nonce::from_slice(nonce), sealed).map_err(|e| e.to_string())
}

/// `ChaCha20Poly1305::new(key).encrypt(nonce, plaintext)`: fails only when
/// the plaintext has `u32::MAX` or more 64-byte blocks; the error is its
/// `Display` text.
#[verifier::external_body]
fn chacha_encrypt(key: &[u8], nonce: &[u8], plaintext: &[u8]) -> (r: Result<Vec<u8>, String>)
    requires
        key@.len() == 32,
        nonce@.len() == 12,
    ensures
        r is Ok <==> plaintext@.len() / 64 < u32::MAX,
        r matches Ok(c) ==> c@ == chacha20_poly1305_seal(key@, nonce@, plaintext@) && c@.len() == plaintext@.len() + 16,
{
    let cipher = chacha20poly1305::ChaCha20Poly1305::new(chacha20poly1305::Key::from_slice(key));
    cipher.encrypt(chacha20poly1305::Nonce::from_slice(nonce), plaintext).map_err(|e| e.to_string())
}

/// `ChaCha20Poly1305::new(key).decrypt(nonce, sealed)`: the plaintext when
/// the tag checks (in particular for whatever the same key and nonce
/// sealed); the error is its `Display` text.
#[verifier::external_body]
fn chacha_decrypt(key: &[u8], nonce: &[u8], sealed: &[u8]) -> (r: Result<Vec<u8>, String>)
    requires
        key@.len() == 32,
        nonce@.len() == 12,
    ensures
        match chacha20_poly1305_open(key@, nonce@, sealed@) {
            Some(p) => r matches Ok(v) && v@ == p,
            None => r is Err,
        },
        forall|p: Seq<u8>| #[trigger] chacha20_poly1305_seal(key@, nonce@, p) == sealed@ && p.len() / 64 < u32::MAX
            ==> (r is Ok && r->Ok_0@ == p),
{
    let cipher = chacha20poly1305::ChaCha20Poly1305::new(chacha20poly1305::Key::from_slice(key));
    cipher.decrypt(chacha20poly1305::Nonce::from_slice(nonce), sealed).map_err(|e| e.to_string())
}

/// A random key of `length` (1 to 1024) bytes, as hexadecimal.
pub fn generate_key(length: usize) -> (r: Result<String, GraphoidError>)
    ensures
        (length == 0 || length > 1024) <==> r is Err,
        r matches Err(e) ==> e is RuntimeError,
        r matches Ok(s) ==> exists|k: Seq<u8>| k.len() == length && s@ == hex_encoding(k),
{
    if length == 0 || length > 1024 {
        return Err(GraphoidError::runtime(String::from_str("Key length must be between 1 and 1024 bytes")));
    }
    let key = random_bytes(length);
    Ok(hex_encode(key.as_slice()))
}

/// Which authenticated cipher to use.
pub enum Cipher {
    Aes256Gcm,
    ChaCha20Poly1305,
}

/// The sealing function of a cipher.
pub open spec fn seal_spec(which: Cipher, key: Seq<u8>, nonce: Seq<u8>, plaintext: Seq<u8>) -> Seq<u8> {
    match which {
        Cipher::Aes256Gcm => aes256_gcm_seal(key, nonce, plaintext),
        Cipher::ChaCha20Poly1305 => chacha20_poly1305_seal(key, nonce, plaintext),
    }
}

/// The opening function of a cipher.
pub open spec fn open_spec(which: Cipher, key: Seq<u8>, nonce: Seq<u8>, sealed: Seq<u8>) -> Option<Seq<u8>> {
    match which {
        Cipher::Aes256Gcm => aes256_gcm_open(key, nonce, sealed),
        Cipher::ChaCha20Poly1305 => chacha20_poly1305_open(key, nonce, sealed),
    }
}

/// The longest plaintext a cipher seals.
pub open spec fn fits(which: Cipher, len: nat) -> bool {
    match which {
        Cipher::Aes256Gcm => len <= aes_gcm_max_plaintext(),
        Cipher::ChaCha20Poly1305 => len / 64 < u32::MAX,
    }
}

/// `key_hex` is the hexadecimal text of a 32-byte key.
pub open spec fn key_ok(key_hex: Seq<char>) -> bool {
    hex_decoding(key_hex) matches Some(k) && k.len() == 32
}

/// The message of the error that a key without 32 bytes gets.
pub open spec fn key_length_message(which: Cipher) -> Seq<char> {
    match which {
        Cipher::Aes256Gcm => "AES-256 requires 32-byte (256-bit) key"@,
        Cipher::ChaCha20Poly1305 => "ChaCha20 requires 32-byte (256-bit) key"@,
    }
}

/// The error that a key without 32 bytes gets.
fn key_length_error(which: &Cipher) -> (e: GraphoidError)
    ensures
        e matches GraphoidError::RuntimeError { message } && message@ == key_length_message(*which),
{
    match which {
        Cipher::Aes256Gcm => GraphoidError::runtime(String::from_str("AES-256 requires 32-byte (256-bit) key")),
        Cipher::ChaCha20Poly1305 => GraphoidError::runtime(String::from_str("ChaCha20 requires 32-byte (256-bit) key")),
    }
}

/// Encrypts the text under the key (hexadecimal, 32 bytes) with a fresh
/// random nonce; the result is the hexadecimal text of nonce and sealed
/// bytes.
pub fn encrypt_with(which: Cipher, plaintext: &str, key_hex: &str) -> (r: Result<String, GraphoidError>)
    ensures
        r is Ok <==> key_ok(key_hex@) && fits(which, plaintext.spec_bytes().len()),
        r matches Err(e) ==> e is RuntimeError,
        r matches Ok(s) ==> exists|nonce: Seq<u8>| nonce.len() == 12 && s@ == hex_encoding(
            nonce + seal_spec(which, hex_decoding(key_hex@)->0, nonce, plaintext.spec_bytes()),
        ),
{
    let key = match hex_decode(key_hex) {
        Ok(k) => k,
        Err(e) => return Err(invalid("Invalid key (must be hex): ", e)),
    };
    if key.len() != 32 {
        return Err(key_length_error(&which));
    }
    let nonce = random_bytes(12);
    let sealed = match which {
        Cipher::Aes256Gcm => aes_gcm_encrypt(key.as_slice(), nonce.as_slice(), plaintext.as_bytes()),
        Cipher::ChaCha20Poly1305 => chacha_encrypt(key.as_slice(), nonce.as_slice(), plaintext.as_bytes()),
    };
    let sealed = match sealed {
        Ok(c) => c,
        Err(e) => return Err(invalid("Encryption failed: ", e)),
    };
    let mut combined = nonce.clone();
    let mut rest = sealed;
    let ghost sealed_view = rest@;
    combined.append(&mut rest);
    assert(combined@ == nonce@ + sealed_view);
    Ok(hex_encode(combined.as_slice()))
}

/// `ciphertext_hex` is what `encrypt_with` makes of plaintext bytes `p`
/// under `key_hex` with nonce `n`.
pub open spec fn sealed_by(which: Cipher, ciphertext_hex: Seq<char>, key_hex: Seq<char>, n: Seq<u8>, p: Seq<u8>) -> bool {
    &&& key_ok(key_hex)
    &&& n.len() == 12
    &&& fits(which, p.len())
    &&& hex_decoding(ciphertext_hex) == Some(n + seal_spec(which, hex_decoding(key_hex)->0, n, p))
}

/// `r` is the text read back from plaintext bytes `p`: their lossy
/// reading, which for valid UTF-8 is the decoded text.
pub open spec fn decrypts_to(r: Result<String, GraphoidError>, p: Seq<u8>) -> bool {
    r matches Ok(s) && s@ == utf8_lossy(p) && (valid_utf8(p) ==> s@ == decode_utf8(p))
}

/// Decrypts hexadecimal text of nonce and sealed bytes under the key
/// (hexadecimal, 32 bytes); the plaintext is read back as text.
pub fn decrypt_with(which: Cipher, ciphertext_hex: &str, key_hex: &str) -> (r: Result<String, GraphoidError>)
    ensures
        r is Ok <==> (hex_decoding(ciphertext_hex@) matches Some(c) && c.len() >= 12 && key_ok(key_hex@)
            && open_spec(which, hex_decoding(key_hex@)->0, c.subrange(0, 12), c.subrange(12, c.len() as int)) is Some),
        r matches Err(e) ==> e is RuntimeError,
        r matches Ok(s) ==> s@ == utf8_lossy(open_spec(
            which,
            hex_decoding(key_hex@)->0,
            hex_decoding(ciphertext_hex@)->0.subrange(0, 12),
            hex_decoding(ciphertext_hex@)->0.subrange(12, hex_decoding(ciphertext_hex@)->0.len() as int),
        )->0),
        forall|n: Seq<u8>, p: Seq<u8>| #![trigger seal_spec(which, hex_decoding(key_hex@)->0, n, p)]
            sealed_by(which, ciphertext_hex@, key_hex@, n, p) ==> decrypts_to(r, p),
{
    let combined = match hex_decode(ciphertext_hex) {
        Ok(c) => c,
        Err(e) => return Err(invalid("Invalid ciphertext (must be hex): ", e)),
    };
    if combined.len() < 12 {
        return Err(GraphoidError::runtime(String::from_str("Invalid ciphertext (too short)")));
    }
    let key = match hex_decode(key_hex) {
        Ok(k) => k,
        Err(e) => return Err(invalid("Invalid key (must be hex): ", e)),
    };
    if key.len() != 32 {
        return Err(key_length_error(&which));
    }
    let nonce = slice_to_vec(combined.as_slice(), 0, 12);
    let sealed = slice_to_vec(combined.as_slice(), 12, combined.len());
    let opened = match which {
        Cipher::Aes256Gcm => aes_gcm_decrypt(key.as_slice(), nonce.as_slice(), sealed.as_slice()),
        Cipher::ChaCha20Poly1305 => chacha_decrypt(key.as_slice(), nonce.as_slice(), sealed.as_slice()),
    };
    proof {
        assert forall|n: Seq<u8>, p: Seq<u8>| #![trigger seal_spec(which, key@, n, p)]
            sealed_by(which, ciphertext_hex@, key_hex@, n, p) implies (opened matches Ok(o) && o@ == p) by {
            assert(combined@.subrange(0, 12) =~= n);
            assert(combined@.subrange(12, combined@.len() as int) =~= seal_spec(which, key@, n, p));
        }
    }
    match opened {
        Ok(p) => Ok(lossy_text(p.as_slice())),
        Err(e) => Err(invalid("Decryption failed: ", e)),
    }
}

/// The bytes `v[from..to]`.
fn slice_to_vec(v: &[u8], from: usize, to: usize) -> (r: Vec<u8>)
    requires
        from <= to <= v@.len(),
    ensures
        r@ == v@.subrange(from as int, to as int),
{
    let mut r: Vec<u8> = Vec::new();
    let mut i = from;
    while i < to
        invariant
            from <= i <= to <= v@.len(),
            r@ == v@.subrange(from as int, i as int),
        decreases to - i,
    {
        r.push(v[i]);
        i = i + 1;
    }
    r
}

/// AES-256-GCM encryption of the text under a hexadecimal 32-byte key.
pub fn aes_encrypt(plaintext: &str, key_hex: &str) -> (r: Result<String, GraphoidError>)
    ensures
        r is Ok <==> key_ok(key_hex@) && fits(Cipher::Aes256Gcm, plaintext.spec_bytes().len()),
        r matches Err(e) ==> e is RuntimeError,
        r matches Ok(s) ==> exists|nonce: Seq<u8>| nonce.len() == 12 && s@ == hex_encoding(
            nonce + aes256_gcm_seal(hex_decoding(key_hex@)->0, nonce, plaintext.spec_bytes()),
        ),
{
    encrypt_with(Cipher::Aes256Gcm, plaintext, key_hex)
}

/// AES-256-GCM decryption of nonce-prefixed hexadecimal ciphertext.
pub fn aes_decrypt(ciphertext_hex: &str, key_hex: &str) -> (r: Result<String, GraphoidError>)
    ensures
        r is Ok <==> (hex_decoding(ciphertext_hex@) matches Some(c) && c.len() >= 12 && key_ok(key_hex@)
            && aes256_gcm_open(hex_decoding(key_hex@)->0, c.subrange(0, 12), c.subrange(12, c.len() as int)) is Some),
        r matches Err(e) ==> e is RuntimeError,
        r matches Ok(s) ==> s@ == utf8_lossy(aes256_gcm_open(
            hex_decoding(key_hex@)->0,
            hex_decoding(ciphertext_hex@)->0.subrange(0, 12),
            hex_decoding(ciphertext_hex@)->0.subrange(12, hex_decoding(ciphertext_hex@)->0.len() as int),
        )->0),
        forall|n: Seq<u8>, p: Seq<u8>| #![trigger aes256_gcm_seal(hex_decoding(key_hex@)->0, n, p)]
            sealed_by(Cipher::Aes256Gcm, ciphertext_hex@, key_hex@, n, p) ==> decrypts_to(r, p),
{
    decrypt_with(Cipher::Aes256Gcm, ciphertext_hex, key_hex)
}

/// ChaCha20-Poly1305 encryption of the text under a hexadecimal 32-byte key.
pub fn chacha20_encrypt(plaintext: &str, key_hex: &str) -> (r: Result<String, GraphoidError>)
    ensures
        r is Ok <==> key_ok(key_hex@) && fits(Cipher::ChaCha20Poly1305, plaintext.spec_bytes().len()),
        r matches Err(e) ==> e is RuntimeError,
        r matches Ok(s) ==> exists|nonce: Seq<u8>| nonce.len() == 12 && s@ == hex_encoding(
            nonce + chacha20_poly1305_seal(hex_decoding(key_hex@)->0, nonce, plaintext.spec_bytes()),
        ),
{
    encrypt_with(Cipher::ChaCha20Poly1305, plaintext, key_hex)
}

/// ChaCha20-Poly1305 decryption of nonce-prefixed hexadecimal ciphertext.
pub fn chacha20_decrypt(ciphertext_hex: &str, key_hex: &str) -> (r: Result<String, GraphoidError>)
    ensures
        r is Ok <==> (hex_decoding(ciphertext_hex@) matches Some(c) && c.len() >= 12 && key_ok(key_hex@)
            && chacha20_poly1305_open(hex_decoding(key_hex@)->0, c.subrange(0, 12), c.subrange(12, c.len() as int)) is Some),
        r matches Err(e) ==> e is RuntimeError,
        r matches Ok(s) ==> s@ == utf8_lossy(chacha20_poly1305_open(
            hex_decoding(key_hex@)->0,
            hex_decoding(ciphertext_hex@)->0.subrange(0, 12),
            hex_decoding(ciphertext_hex@)->0.subrange(12, hex_decoding(ciphertext_hex@)->0.len() as int),
        )->0),
        forall|n: Seq<u8>, p: Seq<u8>| #![trigger chacha20_poly1305_seal(hex_decoding(key_hex@)->0, n, p)]
            sealed_by(Cipher::ChaCha20Poly1305, ciphertext_hex@, key_hex@, n, p) ==> decrypts_to(r, p),
{
    decrypt_with(Cipher::ChaCha20Poly1305, ciphertext_hex, key_hex)
}

} // verus!
