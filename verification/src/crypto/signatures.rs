//! Key pairs, Ed25519 signatures, X25519 key agreement, and RSA and ECDSA
//! signature checks.  Keys, signatures and messages of the checks are
//! hexadecimal text.

use vstd::prelude::*;
use vstd::string::StringSliceAdditionalSpecFns;
use ed25519_dalek::{Signer, Verifier};
use rand::RngCore;
use rsa::pkcs1::DecodeRsaPublicKey;
use rsa::pkcs8::DecodePublicKey;
use crate::error::GraphoidError;
use crate::text::str_eq;
use super::encoding::{hex_decode, hex_decoding, hex_encode, hex_encoding};
use super::hashing::invalid;

verus! {

/// The Ed25519 public key of a 32-byte secret key.
pub uninterp spec fn ed25519_public_key(secret: Seq<u8>) -> Seq<u8>;
/// The Ed25519 signature of `message` by a 32-byte secret key.
pub uninterp spec fn ed25519_signature(secret: Seq<u8>, message: Seq<u8>) -> Seq<u8>;
/// Whether `signature` is a valid Ed25519 signature of `message` under
/// `public`; `None` when `public` is not a valid point encoding.
pub uninterp spec fn ed25519_verdict(public: Seq<u8>, message: Seq<u8>, signature: Seq<u8>) -> Option<bool>;
/// The X25519 public key of a 32-byte secret.
pub uninterp spec fn x25519_public_key(secret: Seq<u8>) -> Seq<u8>;
/// The X25519 shared secret of a 32-byte secret and a 32-byte public key.
pub uninterp spec fn x25519_shared_secret_of(secret: Seq<u8>, public: Seq<u8>) -> Seq<u8>;
/// Whether `der` is an RSA public key in PKCS#8 or PKCS#1 DER form.
pub uninterp spec fn rsa_key_valid(der: Seq<u8>) -> bool;
/// Whether `signature` is a PKCS#1 v1.5 signature of the digest `hashed`
/// under the RSA key `der`, for hash `hash` (0: SHA-256, 1: SHA-384,
/// 2: SHA-512).
pub uninterp spec fn rsa_pkcs1v15_valid(der: Seq<u8>, hash: u8, hashed: Seq<u8>, signature: Seq<u8>) -> bool;
/// Whether `public` is a SEC1 encoding of a point of the curve (0: P-256,
/// 1: P-384).
pub uninterp spec fn ecdsa_key_valid(curve: u8, public: Seq<u8>) -> bool;
/// Whether `signature` is a DER or fixed-size ECDSA signature for the curve.
pub uninterp spec fn ecdsa_signature_form_valid(curve: u8, signature: Seq<u8>) -> bool;
/// Whether `signature` is a valid ECDSA signature of `message` under
/// `public` on the curve.
pub uninterp spec fn ecdsa_valid(curve: u8, public: Seq<u8>, signature: Seq<u8>, message: Seq<u8>) -> bool;

/// 32 bytes from the operating system's generator (`rand::rngs::OsRng`).
/// Nothing is stated of their values.
#[verifier::external_body]
fn os_random_32() -> (r: Vec<u8>)
    ensures
        r@.len() == 32,
{
    let mut v = vec![0u8; 32];
    rand::rngs::OsRng.fill_bytes(&mut v);
    v
}

/// `SigningKey::from_bytes(secret).verifying_key()`, as bytes.
#[verifier::external_body]
fn ed25519_public(secret: &[u8]) -> (r: Vec<u8>)
    requires
        secret@.len() == 32,
    ensures
        r@ == ed25519_public_key(secret@),
        r@.len() == 32,
{
    let key = ed25519_dalek::SigningKey::from_bytes(secret.try_into().unwrap());
    key.verifying_key().to_bytes().to_vec()
}

/// `SigningKey::from_bytes(secret).sign(message)`, as bytes.
#[verifier::external_body]
fn ed25519_sign(secret: &[u8], message: &[u8]) -> (r: Vec<u8>)
    requires
        secret@.len() == 32,
    ensures
        r@ == ed25519_signature(secret@, message@),
        r@.len() == 64,
{
    let key = ed25519_dalek::SigningKey::from_bytes(secret.try_into().unwrap());
    key.sign(message).to_bytes().to_vec()
}

/// `VerifyingKey::from_bytes(public)` then `verify(message, signature)`:
/// an error (its `Display` text) when the key is not a valid point; a
/// signature made by a secret key checks under that key's public key.
#[verifier::external_body]
fn ed25519_check(public: &[u8], message: &[u8], signature: &[u8]) -> (r: Result<bool, String>)
    requires
        public@.len() == 32,
        signature@.len() == 64,
    ensures
        match ed25519_verdict(public@, message@, signature@) {
            Some(v) => r is Ok && r->Ok_0 == v,
            None => r is Err,
        },
        signature@.len() == 64 ==> forall|s: Seq<u8>| #![trigger ed25519_public_key(s), ed25519_signature(s, message@)]
            s.len() == 32 && public@ == ed25519_public_key(s) && signature@ == ed25519_signature(s, message@)
            ==> (r is Ok && r->Ok_0),
{
    let key = ed25519_dalek::VerifyingKey::from_bytes(public.try_into().unwrap()).map_err(|e| e.to_string())?;
    let sig = ed25519_dalek::Signature::from_bytes(signature.try_into().unwrap());
    Ok(key.verify(message, &sig).is_ok())
}

/// `PublicKey::from(&StaticSecret::from(secret))`, as bytes.
#[verifier::external_body]
fn x25519_public(secret: &[u8]) -> (r: Vec<u8>)
    requires
        secret@.len() == 32,
    ensures
        r@ == x25519_public_key(secret@),
        r@.len() == 32,
{
    let s: [u8; 32] = secret.try_into().unwrap();
    x25519_dalek::PublicKey::from(&x25519_dalek::StaticSecret::from(s)).as_bytes().to_vec()
}

/// `StaticSecret::from(secret).diffie_hellman(&PublicKey::from(public))`,
/// as bytes.  Both sides of an exchange get the same secret.
#[verifier::external_body]
fn x25519_dh(secret: &[u8], public: &[u8]) -> (r: Vec<u8>)
    requires
        secret@.len() == 32,
        public@.len() == 32,
    ensures
        r@ == x25519_shared_secret_of(secret@, public@),
        r@.len() == 32,
        forall|other: Seq<u8>| #![trigger x25519_public_key(other)]
            other.len() == 32 && public@ == x25519_public_key(other)
            ==> r@ == x25519_shared_secret_of(other, x25519_public_key(secret@)),
{
    let s: [u8; 32] = secret.try_into().unwrap();
    let p: [u8; 32] = public.try_into().unwrap();
    x25519_dalek::StaticSecret::from(s).diffie_hellman(&x25519_dalek::PublicKey::from(p)).as_bytes().to_vec()
}

/// `RsaPublicKey::from_public_key_der(der)`, or else `from_pkcs1_der(der)`:
/// an error (the `Display` text of the second attempt) when neither reads
/// the key.
#[verifier::external_body]
fn rsa_parse_key(der: &[u8]) -> (r: Result<(), String>)
    ensures
        r is Ok <==> rsa_key_valid(der@),
{
    rsa::RsaPublicKey::from_public_key_der(der)
        .or_else(|_| rsa::RsaPublicKey::from_pkcs1_der(der))
        .map(|_| ())
        .map_err(|e| e.to_string())
}

/// `RsaPublicKey::verify` with `Pkcs1v15Sign::new::<H>()` for hash `hash`
/// (0: SHA-256, 1: SHA-384, 2: SHA-512) on a key that reads.
#[verifier::external_body]
fn rsa_pkcs1v15_check(der: &[u8], hash: u8, hashed: &[u8], signature: &[u8]) -> (r: bool)
    requires
        rsa_key_valid(der@),
        hash < 3,
    ensures
        r == rsa_pkcs1v15_valid(der@, hash, hashed@, signature@),
{
    let key = rsa::RsaPublicKey::from_public_key_der(der).or_else(|_| rsa::RsaPublicKey::from_pkcs1_der(der)).unwrap();
    let scheme = match hash {
        0 => rsa::pkcs1v15::Pkcs1v15Sign::new::<sha2::Sha256>(),
        1 => rsa::pkcs1v15::Pkcs1v15Sign::new::<sha2::Sha384>(),
        _ => rsa::pkcs1v15::Pkcs1v15Sign::new::<sha2::Sha512>(),
    };
    key.verify(scheme, hashed, signature).is_ok()
}

/// `VerifyingKey::from_sec1_bytes` of P-256 (curve 0) or P-384 (curve 1):
/// an error (its `Display` text) when the bytes are no point of the curve.
#[verifier::external_body]
fn ecdsa_parse_key(curve: u8, public: &[u8]) -> (r: Result<(), String>)
    requires
        curve < 2,
    ensures
        r is Ok <==> ecdsa_key_valid(curve, public@),
{
    if curve == 0 {
        p256::ecdsa::VerifyingKey::from_sec1_bytes(public).map(|_| ()).map_err(|e| e.to_string())
    } else {
        p384::ecdsa::VerifyingKey::from_sec1_bytes(public).map(|_| ()).map_err(|e| e.to_string())
    }
}

/// `Signature::from_der`, or else `Signature::from_slice`, of P-256
/// (curve 0) or P-384 (curve 1): an error (the `Display` text of the second
/// attempt) when neither reads the signature.
#[verifier::external_body]
fn ecdsa_parse_signature(curve: u8, signature: &[u8]) -> (r: Result<(), String>)
    requires
        curve < 2,
    ensures
        r is Ok <==> ecdsa_signature_form_valid(curve, signature@),
{
    if curve == 0 {
        p256::ecdsa::Signature::from_der(signature)
            .or_else(|_| p256::ecdsa::Signature::from_slice(signature))
            .map(|_| ())
            .map_err(|e| e.to_string())
    } else {
        p384::ecdsa::Signature::from_der(signature)
            .or_else(|_| p384::ecdsa::Signature::from_slice(signature))
            .map(|_| ())
            .map_err(|e| e.to_string())
    }
}

/// `Verifier::verify` of P-256 (curve 0) or P-384 (curve 1) on a key and
/// signature that read.
#[verifier::external_body]
fn ecdsa_check(curve: u8, public: &[u8], signature: &[u8], message: &[u8]) -> (r: bool)
    requires
        curve < 2,
        ecdsa_key_valid(curve, public@),
        ecdsa_signature_form_valid(curve, signature@),
    ensures
        r == ecdsa_valid(curve, public@, signature@, message@),
{
    if curve == 0 {
        let key = p256::ecdsa::VerifyingKey::from_sec1_bytes(public).unwrap();
        let sig = p256::ecdsa::Signature::from_der(signature).or_else(|_| p256::ecdsa::Signature::from_slice(signature)).unwrap();
        key.verify(message, &sig).is_ok()
    } else {
        let key = p384::ecdsa::VerifyingKey::from_sec1_bytes(public).unwrap();
        let sig = p384::ecdsa::Signature::from_der(signature).or_else(|_| p384::ecdsa::Signature::from_slice(signature)).unwrap();
        key.verify(message, &sig).is_ok()
    }
}

/// A key pair as hexadecimal text.
pub struct KeyPair {
    pub public: String,
    pub secret: String,
}

/// A fresh Ed25519 key pair: a random 32-byte secret and its public key.
pub fn generate_keypair() -> (r: KeyPair)
    ensures
        exists|s: Seq<u8>| s.len() == 32 && r.secret@ == hex_encoding(s) && r.public@ == hex_encoding(ed25519_public_key(s))
            && ed25519_public_key(s).len() == 32,
{
    let secret = os_random_32();
    let public = ed25519_public(secret.as_slice());
    KeyPair { public: hex_encode(public.as_slice()), secret: hex_encode(secret.as_slice()) }
}

/// The Ed25519 signature of the text by a hexadecimal 32-byte secret key,
/// as hexadecimal.
pub fn sign(message: &str, secret_hex: &str) -> (r: Result<String, GraphoidError>)
    ensures
        match hex_decoding(secret_hex@) {
            Some(s) => if s.len() == 32 {
                r matches Ok(t) && t@ == hex_encoding(ed25519_signature(s, message.spec_bytes()))
                    && ed25519_signature(s, message.spec_bytes()).len() == 64
            } else {
                r matches Err(GraphoidError::RuntimeError { .. })
            },
            None => r matches Err(GraphoidError::RuntimeError { .. }),
        },
{
    let secret = match hex_decode(secret_hex) {
        Ok(s) => s,
        Err(e) => return Err(invalid("Invalid secret key (must be hex): ", e)),
    };
    if secret.len() != 32 {
        return Err(GraphoidError::runtime(String::from_str("Ed25519 secret key must be 32 bytes")));
    }
    Ok(hex_encode(ed25519_sign(secret.as_slice(), message.as_bytes()).as_slice()))
}

/// The inputs that `verify` accepts: hexadecimal signature of 64 bytes and
/// public key of 32 bytes that is a valid point.
pub open spec fn ed25519_inputs_ok(message: Seq<u8>, sig_hex: Seq<char>, pub_hex: Seq<char>) -> bool {
    &&& hex_decoding(sig_hex) matches Some(sig) && sig.len() == 64
    &&& hex_decoding(pub_hex) matches Some(p) && p.len() == 32
    &&& ed25519_verdict(hex_decoding(pub_hex)->0, message, hex_decoding(sig_hex)->0) is Some
}

/// `sig_hex` and `pub_hex` are what `sign` and `generate_keypair` make of
/// secret key `s` and `message`.
pub open spec fn signed_by(s: Seq<u8>, message: Seq<u8>, sig_hex: Seq<char>, pub_hex: Seq<char>) -> bool {
    &&& s.len() == 32
    &&& ed25519_public_key(s).len() == 32
    &&& ed25519_signature(s, message).len() == 64
    &&& hex_decoding(pub_hex) == Some(ed25519_public_key(s))
    &&& hex_decoding(sig_hex) == Some(ed25519_signature(s, message))
}

/// Whether the hexadecimal signature is a valid Ed25519 signature of the
/// text under the hexadecimal public key; an error for malformed input.
pub fn verify(message: &str, sig_hex: &str, pub_hex: &str) -> (r: Result<bool, GraphoidError>)
    ensures
        r is Ok <==> ed25519_inputs_ok(message.spec_bytes(), sig_hex@, pub_hex@),
        r matches Err(e) ==> e is RuntimeError,
        r matches Ok(v) ==> Some(v) == ed25519_verdict(
            hex_decoding(pub_hex@)->0,
            message.spec_bytes(),
            hex_decoding(sig_hex@)->0,
        ),
        forall|s: Seq<u8>| #![trigger ed25519_public_key(s), ed25519_signature(s, message.spec_bytes())]
            signed_by(s, message.spec_bytes(), sig_hex@, pub_hex@) ==> r matches Ok(true),
{
    let sig = match hex_decode(sig_hex) {
        Ok(s) => s,
        Err(e) => return Err(invalid("Invalid signature (must be hex): ", e)),
    };
    if sig.len() != 64 {
        return Err(GraphoidError::runtime(String::from_str("Ed25519 signature must be 64 bytes")));
    }
    let public = match hex_decode(pub_hex) {
        Ok(p) => p,
        Err(e) => return Err(invalid("Invalid public key (must be hex): ", e)),
    };
    if public.len() != 32 {
        return Err(GraphoidError::runtime(String::from_str("Ed25519 public key must be 32 bytes")));
    }
    match ed25519_check(public.as_slice(), message.as_bytes(), sig.as_slice()) {
        Ok(v) => Ok(v),
        Err(e) => Err(invalid("Invalid public key: ", e)),
    }
}

/// The inputs `x25519_shared_secret` accepts: two hexadecimal 32-byte keys.
pub open spec fn x25519_inputs_ok(secret_hex: Seq<char>, public_hex: Seq<char>) -> bool {
    &&& hex_decoding(secret_hex) matches Some(s) && s.len() == 32
    &&& hex_decoding(public_hex) matches Some(p) && p.len() == 32
}

/// The inputs `rsa_verify` accepts: hexadecimal message, signature and
/// readable DER key, and a known hash name.
pub open spec fn rsa_inputs_ok(message_hex: Seq<char>, signature_hex: Seq<char>, pubkey_hex: Seq<char>, hash: Seq<char>) -> bool {
    &&& hex_decoding(message_hex) is Some
    &&& hex_decoding(signature_hex) is Some
    &&& hex_decoding(pubkey_hex) matches Some(der) && rsa_key_valid(der)
    &&& rsa_hash_id(hash) is Some
}

/// The inputs `ecdsa_verify` accepts: hexadecimal message, a readable
/// signature and key for a known curve.
pub open spec fn ecdsa_inputs_ok(message_hex: Seq<char>, signature_hex: Seq<char>, pubkey_hex: Seq<char>, curve: Seq<char>) -> bool {
    &&& hex_decoding(message_hex) is Some
    &&& ecdsa_curve_id(curve) is Some
    &&& hex_decoding(pubkey_hex) matches Some(key) && ecdsa_key_valid(ecdsa_curve_id(curve)->0, key)
    &&& hex_decoding(signature_hex) matches Some(sig) && ecdsa_signature_form_valid(ecdsa_curve_id(curve)->0, sig)
}

/// A fresh X25519 key pair: a random 32-byte secret and its public key.
pub fn x25519_keygen() -> (r: KeyPair)
    ensures
        exists|s: Seq<u8>| s.len() == 32 && r.secret@ == hex_encoding(s) && r.public@ == hex_encoding(x25519_public_key(s))
            && x25519_public_key(s).len() == 32,
{
    let secret = os_random_32();
    let public = x25519_public(secret.as_slice());
    KeyPair { public: hex_encode(public.as_slice()), secret: hex_encode(secret.as_slice()) }
}

/// The X25519 shared secret of my hexadecimal 32-byte secret and their
/// hexadecimal 32-byte public key, as hexadecimal.
pub fn x25519_shared_secret(my_secret_hex: &str, their_public_hex: &str) -> (r: Result<String, GraphoidError>)
    ensures
        r is Ok <==> x25519_inputs_ok(my_secret_hex@, their_public_hex@),
        r matches Err(e) ==> e is RuntimeError,
        r matches Ok(t) ==> t@ == hex_encoding(x25519_shared_secret_of(
            hex_decoding(my_secret_hex@)->0,
            hex_decoding(their_public_hex@)->0,
        )),
        forall|other: Seq<u8>| #![trigger x25519_public_key(other)]
            x25519_inputs_ok(my_secret_hex@, their_public_hex@) && other.len() == 32
            && hex_decoding(their_public_hex@) == Some(x25519_public_key(other))
            ==> (r matches Ok(t) && t@ == hex_encoding(x25519_shared_secret_of(
                other,
                x25519_public_key(hex_decoding(my_secret_hex@)->0),
            ))),
{
    let secret = match hex_decode(my_secret_hex) {
        Ok(s) => s,
        Err(e) => return Err(invalid("Invalid secret key (must be hex): ", e)),
    };
    if secret.len() != 32 {
        return Err(GraphoidError::runtime(String::from_str("X25519 secret key must be 32 bytes")));
    }
    let public = match hex_decode(their_public_hex) {
        Ok(p) => p,
        Err(e) => return Err(invalid("Invalid public key (must be hex): ", e)),
    };
    if public.len() != 32 {
        return Err(GraphoidError::runtime(String::from_str("X25519 public key must be 32 bytes")));
    }
    Ok(hex_encode(x25519_dh(secret.as_slice(), public.as_slice()).as_slice()))
}

/// The number of a hash name of `rsa_verify`.
pub open spec fn rsa_hash_id(name: Seq<char>) -> Option<u8> {
    if name == "sha256"@ {
        Some(0u8)
    } else if name == "sha384"@ {
        Some(1u8)
    } else if name == "sha512"@ {
        Some(2u8)
    } else {
        None
    }
}

/// Whether the hexadecimal signature is a PKCS#1 v1.5 signature of the
/// hexadecimal digest under the hexadecimal DER RSA public key, for hash
/// `sha256`, `sha384` or `sha512`; an error for malformed input.
pub fn rsa_verify(message_hex: &str, signature_hex: &str, pubkey_hex: &str, hash_algo: &str) -> (r: Result<bool, GraphoidError>)
    ensures
        r is Ok <==> rsa_inputs_ok(message_hex@, signature_hex@, pubkey_hex@, hash_algo@),
        r matches Err(e) ==> e is RuntimeError,
        r matches Ok(v) ==> v == rsa_pkcs1v15_valid(
            hex_decoding(pubkey_hex@)->0,
            rsa_hash_id(hash_algo@)->0,
            hex_decoding(message_hex@)->0,
            hex_decoding(signature_hex@)->0,
        ),
        !(hash_algo@ == "sha256"@ || hash_algo@ == "sha384"@ || hash_algo@ == "sha512"@) ==> r is Err,
        (hash_algo@ == "sha256"@ || hash_algo@ == "sha384"@ || hash_algo@ == "sha512"@)
            && hex_decoding(message_hex@) is Some && hex_decoding(signature_hex@) is Some
            && (hex_decoding(pubkey_hex@) matches Some(der) && rsa_key_valid(der)) ==> r is Ok,
        hash_algo@ == "sha256"@ ==> (r matches Ok(v) ==> v == rsa_pkcs1v15_valid(
            hex_decoding(pubkey_hex@)->0, 0u8, hex_decoding(message_hex@)->0, hex_decoding(signature_hex@)->0)),
        hash_algo@ == "sha384"@ ==> (r matches Ok(v) ==> v == rsa_pkcs1v15_valid(
            hex_decoding(pubkey_hex@)->0, 1u8, hex_decoding(message_hex@)->0, hex_decoding(signature_hex@)->0)),
        hash_algo@ == "sha512"@ ==> (r matches Ok(v) ==> v == rsa_pkcs1v15_valid(
            hex_decoding(pubkey_hex@)->0, 2u8, hex_decoding(message_hex@)->0, hex_decoding(signature_hex@)->0)),
{
    proof {
        reveal_strlit("sha256");
        reveal_strlit("sha384");
        reveal_strlit("sha512");
        assert("sha384"@ != "sha256"@) by { assert("sha384"@[3] != "sha256"@[3]); }
        assert("sha512"@ != "sha256"@) by { assert("sha512"@[3] != "sha256"@[3]); }
        assert("sha512"@ != "sha384"@) by { assert("sha512"@[3] != "sha384"@[3]); }
    }
    let message = match hex_decode(message_hex) {
        Ok(m) => m,
        Err(e) => return Err(invalid("Invalid message (must be hex): ", e)),
    };
    let signature = match hex_decode(signature_hex) {
        Ok(s) => s,
        Err(e) => return Err(invalid("Invalid signature (must be hex): ", e)),
    };
    let der = match hex_decode(pubkey_hex) {
        Ok(d) => d,
        Err(e) => return Err(invalid("Invalid public key (must be hex DER): ", e)),
    };
    match rsa_parse_key(der.as_slice()) {
        Ok(()) => {},
        Err(e) => return Err(invalid("Invalid RSA public key: ", e)),
    }
    let hash: u8 = if str_eq(hash_algo, "sha256") {
        0
    } else if str_eq(hash_algo, "sha384") {
        1
    } else if str_eq(hash_algo, "sha512") {
        2
    } else {
        let mut message_text = String::from_str("Unsupported hash algorithm: ");
        message_text.append(hash_algo);
        message_text.append(". Use sha256, sha384, or sha512");
        return Err(GraphoidError::runtime(message_text));
    };
    Ok(rsa_pkcs1v15_check(der.as_slice(), hash, message.as_slice(), signature.as_slice()))
}

/// The curve number of a curve name of `ecdsa_verify`.
pub open spec fn ecdsa_curve_id(name: Seq<char>) -> Option<u8> {
    if name == "p256"@ || name == "P256"@ || name == "secp256r1"@ {
        Some(0u8)
    } else if name == "p384"@ || name == "P384"@ || name == "secp384r1"@ {
        Some(1u8)
    } else {
        None
    }
}

/// Whether the hexadecimal signature (DER or fixed-size) is a valid ECDSA
/// signature of the hexadecimal message under the hexadecimal SEC1 public
/// key on curve P-256 or P-384; an error for malformed input.
pub fn ecdsa_verify(message_hex: &str, signature_hex: &str, pubkey_hex: &str, curve: &str) -> (r: Result<bool, GraphoidError>)
    ensures
        r is Ok <==> ecdsa_inputs_ok(message_hex@, signature_hex@, pubkey_hex@, curve@),
        r matches Err(e) ==> e is RuntimeError,
        r matches Ok(v) ==> v == ecdsa_valid(
            ecdsa_curve_id(curve@)->0,
            hex_decoding(pubkey_hex@)->0,
            hex_decoding(signature_hex@)->0,
            hex_decoding(message_hex@)->0,
        ),
        !(curve@ == "p256"@ || curve@ == "P256"@ || curve@ == "secp256r1"@ || curve@ == "p384"@ || curve@ == "P384"@
            || curve@ == "secp384r1"@) ==> r is Err,
        (curve@ == "p256"@ || curve@ == "P256"@ || curve@ == "secp256r1"@) && hex_decoding(message_hex@) is Some
            && (hex_decoding(pubkey_hex@) matches Some(k) && ecdsa_key_valid(0u8, k))
            && (hex_decoding(signature_hex@) matches Some(g) && ecdsa_signature_form_valid(0u8, g)) ==> r is Ok,
        (curve@ == "p384"@ || curve@ == "P384"@ || curve@ == "secp384r1"@) && hex_decoding(message_hex@) is Some
            && (hex_decoding(pubkey_hex@) matches Some(k) && ecdsa_key_valid(1u8, k))
            && (hex_decoding(signature_hex@) matches Some(g) && ecdsa_signature_form_valid(1u8, g)) ==> r is Ok,
        curve@ == "p256"@ || curve@ == "P256"@ || curve@ == "secp256r1"@ ==> (r matches Ok(v) ==> v == ecdsa_valid(
            0u8, hex_decoding(pubkey_hex@)->0, hex_decoding(signature_hex@)->0, hex_decoding(message_hex@)->0)),
        curve@ == "p384"@ || curve@ == "P384"@ || curve@ == "secp384r1"@ ==> (r matches Ok(v) ==> v == ecdsa_valid(
            1u8, hex_decoding(pubkey_hex@)->0, hex_decoding(signature_hex@)->0, hex_decoding(message_hex@)->0)),
{
    proof {
        reveal_strlit("p256");
        reveal_strlit("P256");
        reveal_strlit("secp256r1");
        reveal_strlit("p384");
        reveal_strlit("P384");
        reveal_strlit("secp384r1");
        assert("p384"@ != "p256"@) by { assert("p384"@[1] != "p256"@[1]); }
        assert("p384"@ != "P256"@) by { assert("p384"@[0] != "P256"@[0]); }
        assert("p384"@ != "secp256r1"@) by { assert("p384"@.len() != "secp256r1"@.len()); }
        assert("P384"@ != "p256"@) by { assert("P384"@[0] != "p256"@[0]); }
        assert("P384"@ != "P256"@) by { assert("P384"@[1] != "P256"@[1]); }
        assert("P384"@ != "secp256r1"@) by { assert("P384"@.len() != "secp256r1"@.len()); }
        assert("secp384r1"@ != "p256"@) by { assert("secp384r1"@.len() != "p256"@.len()); }
        assert("secp384r1"@ != "P256"@) by { assert("secp384r1"@.len() != "P256"@.len()); }
        assert("secp384r1"@ != "secp256r1"@) by { assert("secp384r1"@[4] != "secp256r1"@[4]); }
    }
    let message = match hex_decode(message_hex) {
        Ok(m) => m,
        Err(e) => return Err(invalid("Invalid message (must be hex): ", e)),
    };
    let signature = match hex_decode(signature_hex) {
        Ok(s) => s,
        Err(e) => return Err(invalid("Invalid signature (must be hex): ", e)),
    };
    let public = match hex_decode(pubkey_hex) {
        Ok(p) => p,
        Err(e) => return Err(invalid("Invalid public key (must be hex): ", e)),
    };
    let c: u8 = if str_eq(curve, "p256") || str_eq(curve, "P256") || str_eq(curve, "secp256r1") {
        0
    } else if str_eq(curve, "p384") || str_eq(curve, "P384") || str_eq(curve, "secp384r1") {
        1
    } else {
        let mut message_text = String::from_str("Unsupported curve: ");
        message_text.append(curve);
        message_text.append(". Use p256 or p384");
        return Err(GraphoidError::runtime(message_text));
    };
    let (key_error, sig_error) = if c == 0 {
        ("Invalid P-256 public key: ", "Invalid P-256 signature: ")
    } else {
        ("Invalid P-384 public key: ", "Invalid P-384 signature: ")
    };
    match ecdsa_parse_key(c, public.as_slice()) {
        Ok(()) => {},
        Err(e) => return Err(invalid(key_error, e)),
    }
    match ecdsa_parse_signature(c, signature.as_slice()) {
        Ok(()) => {},
        Err(e) => return Err(invalid(sig_error, e)),
    }
    Ok(ecdsa_check(c, public.as_slice(), signature.as_slice(), message.as_slice()))
}

} // verus!
