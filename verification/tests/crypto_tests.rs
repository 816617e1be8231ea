use graphoid::crypto::ciphers::{aes_decrypt, aes_encrypt, chacha20_decrypt, chacha20_encrypt, generate_key};
use graphoid::crypto::encoding::{from_base64, from_hex, to_base64, to_hex};
use graphoid::crypto::hashing::{
    blake2b, blake3, hkdf_expand, hkdf_extract, hmac_sha256, hmac_verify, md5, pbkdf2, sha1, sha256, sha512,
};
use graphoid::crypto::signatures::{
    ecdsa_verify, generate_keypair, rsa_verify, sign, verify, x25519_keygen, x25519_shared_secret,
};
use graphoid::error::GraphoidError;
use graphoid::modules::{ConstantsModule, CryptoModule, NetModule, OSModule};
use graphoid::net::{bytes_to_hex, bytes_to_string, concat_bytes, hex_to_bytes};

fn runtime_message<T: std::fmt::Debug>(r: Result<T, GraphoidError>) -> String {
    match r {
        Err(GraphoidError::RuntimeError { message }) => message,
        other => panic!("expected a runtime error, got {:?}", other),
    }
}

const KEY: &str = "000102030405060708090a0b0c0d0e0f101112131415161718191a1b1c1d1e1f";

#[test]
fn digests_of_known_inputs() {
    assert_eq!(sha256("abc"), "ba7816bf8f01cfea414140de5dae2223b00361a396177a9cb410ff61f20015ad");
    assert_eq!(sha1("abc"), "a9993e364706816aba3e25717850c26c9cd0d89d");
    assert_eq!(md5(""), "d41d8cd98f00b204e9800998ecf8427e");
    assert_eq!(sha512("").len(), 128);
    assert_eq!(blake2b("abc").len(), 128);
    assert_eq!(blake3("").len(), 64);
    assert_eq!(blake3(""), "af1349b9f5f9a1a6a0404dea36dcc9499bcb25c9adc112b7cc9a93cae41f3262");
}

#[test]
fn hex_text() {
    assert_eq!(to_hex("Hi!"), "486921");
    assert_eq!(from_hex("486921").unwrap(), "Hi!");
    assert_eq!(from_hex("48AbCd").is_ok(), true);
    assert_eq!(runtime_message(from_hex("123")), "Invalid hex string: Odd number of digits");
    assert!(runtime_message(from_hex("zz")).starts_with("Invalid hex string: "));
    assert_eq!(from_hex(&to_hex("round trip")).unwrap(), "round trip");
}

#[test]
fn base64_text() {
    assert_eq!(to_base64("hello"), "aGVsbG8=");
    assert_eq!(to_base64("hi"), "aGk=");
    assert_eq!(to_base64("abc"), "YWJj");
    assert_eq!(to_base64(""), "");
    assert_eq!(from_base64("aGVsbG8=").unwrap(), "hello");
    assert!(runtime_message(from_base64("aGVsbG8")).starts_with("Invalid base64 string: "));
    assert!(from_base64("a!==").is_err());
    assert_eq!(from_base64(&to_base64("naïve")).unwrap(), "naïve");
}

#[test]
fn hmac_known_vector_and_check() {
    let tag = hmac_sha256("what do ya want for nothing?", "Jefe");
    assert_eq!(tag, "5bdcc146bf60754e6a042426089575c75a003f089d2739839dec58b964ec3843");
    assert_eq!(hmac_verify("what do ya want for nothing?", &tag, "Jefe").unwrap(), true);
    assert_eq!(hmac_verify("what do ya want for something?", &tag, "Jefe").unwrap(), false);
    assert_eq!(hmac_verify("x", "00", "k").unwrap(), false);
    assert!(runtime_message(hmac_verify("x", "nothex", "k")).starts_with("Invalid MAC (must be hex): "));
}

#[test]
fn pbkdf2_known_vector() {
    assert_eq!(
        pbkdf2("password", "salt", Some(1)),
        "120fb6cffcf8b32c43e7225256c4f837a86548c92ccc35480805987cb70be17b"
    );
    assert_eq!(pbkdf2("password", "salt", None), pbkdf2("password", "salt", Some(100000)));
}

#[test]
fn hkdf_lengths_and_errors() {
    let prk = hkdf_extract("000102", "0b0b0b0b").unwrap();
    assert_eq!(prk.len(), 64);
    let okm = hkdf_expand(&prk, "f0f1", 42).unwrap();
    assert_eq!(okm.len(), 84);
    assert_eq!(okm, hkdf_expand(&prk, "f0f1", 42).unwrap());
    assert_eq!(runtime_message(hkdf_expand(&prk, "", 0)), "HKDF output length must be between 1 and 8160 bytes");
    assert_eq!(runtime_message(hkdf_expand(&prk, "", 8161)), "HKDF output length must be between 1 and 8160 bytes");
    assert!(hkdf_expand(&prk, "", 8160).is_ok());
    assert!(runtime_message(hkdf_extract("0g", "00")).starts_with("Invalid salt (must be hex): "));
}

#[test]
fn random_keys() {
    let k = generate_key(16).unwrap();
    assert_eq!(k.len(), 32);
    assert!(k.chars().all(|c| c.is_ascii_hexdigit()));
    assert_eq!(runtime_message(generate_key(0)), "Key length must be between 1 and 1024 bytes");
    assert_eq!(runtime_message(generate_key(1025)), "Key length must be between 1 and 1024 bytes");
    assert!(generate_key(1024).is_ok());
}

#[test]
fn aes_round_trip() {
    let c1 = aes_encrypt("attack at dawn", KEY).unwrap();
    let c2 = aes_encrypt("attack at dawn", KEY).unwrap();
    assert_eq!(c1.len(), 2 * (12 + 14 + 16));
    assert_ne!(c1, c2);
    assert_eq!(aes_decrypt(&c1, KEY).unwrap(), "attack at dawn");
    let other = "ff".repeat(32);
    assert_eq!(runtime_message(aes_decrypt(&c1, &other)), "Decryption failed: aead::Error");
    assert_eq!(runtime_message(aes_encrypt("x", "0011")), "AES-256 requires 32-byte (256-bit) key");
    assert_eq!(runtime_message(aes_decrypt("0011", KEY)), "Invalid ciphertext (too short)");
    assert!(runtime_message(aes_encrypt("x", "k")).starts_with("Invalid key (must be hex): "));
}

#[test]
fn chacha_round_trip() {
    let c = chacha20_encrypt("secret", KEY).unwrap();
    assert_eq!(chacha20_decrypt(&c, KEY).unwrap(), "secret");
    assert_eq!(runtime_message(chacha20_encrypt("x", "00")), "ChaCha20 requires 32-byte (256-bit) key");
}

#[test]
fn ed25519_known_vector() {
    let secret = "9d61b19deffd5a60ba844af492ec2cc44449c5697b326919703bac031cae7f60";
    let public = "d75a980182b10ab7d54bfed3c964073a0ee172f3daa62325af021a68f707511a";
    let expected = "e5564300c360ac729086e2cc806e828a84877f1eb8e5d974d873e065224901555fb8821590a33bacc61e39701cf9b46bd25bf5f0595bbe24655141438e7a100b";
    assert_eq!(sign("", secret).unwrap(), expected);
    assert_eq!(verify("", expected, public).unwrap(), true);
    assert_eq!(verify("x", expected, public).unwrap(), false);
}

#[test]
fn ed25519_sign_then_verify() {
    let pair = generate_keypair();
    assert_eq!(pair.public.len(), 64);
    assert_eq!(pair.secret.len(), 64);
    let sig = sign("message", &pair.secret).unwrap();
    assert_eq!(verify("message", &sig, &pair.public).unwrap(), true);
    assert_eq!(runtime_message(sign("m", "00")), "Ed25519 secret key must be 32 bytes");
    assert_eq!(runtime_message(verify("m", "00", &pair.public)), "Ed25519 signature must be 64 bytes");
    assert_eq!(runtime_message(verify("m", &sig, "00")), "Ed25519 public key must be 32 bytes");
}

#[test]
fn x25519_both_sides_agree() {
    let a = x25519_keygen();
    let b = x25519_keygen();
    let ab = x25519_shared_secret(&a.secret, &b.public).unwrap();
    let ba = x25519_shared_secret(&b.secret, &a.public).unwrap();
    assert_eq!(ab, ba);
    assert_eq!(ab.len(), 64);
    assert_eq!(runtime_message(x25519_shared_secret("00", &b.public)), "X25519 secret key must be 32 bytes");
}

#[test]
fn signature_check_errors() {
    assert!(runtime_message(rsa_verify("00", "00", "00", "sha256")).starts_with("Invalid RSA public key: "));
    assert!(runtime_message(rsa_verify("zz", "00", "00", "sha256")).starts_with("Invalid message (must be hex): "));
    assert_eq!(runtime_message(ecdsa_verify("00", "00", "00", "p521")), "Unsupported curve: p521. Use p256 or p384");
    assert!(runtime_message(ecdsa_verify("00", "00", "00", "p256")).starts_with("Invalid P-256 public key: "));
    assert!(runtime_message(ecdsa_verify("00", "00", "00", "secp384r1")).starts_with("Invalid P-384 public key: "));
}

#[test]
fn net_byte_helpers() {
    assert_eq!(hex_to_bytes("00ff10").unwrap(), vec![0, 255, 16]);
    assert!(hex_to_bytes("0").is_err());
    assert_eq!(bytes_to_hex(&[1, 2, 254]), "0102fe");
    assert_eq!(concat_bytes(&[1, 2], &[3]), vec![1, 2, 3]);
    assert_eq!(bytes_to_string(&[104, 105]), "hi");
    assert_eq!(bytes_to_string(&[0xff]), "\u{fffd}");
    assert_eq!(hex_to_bytes(&bytes_to_hex(&[9, 8, 7])).unwrap(), vec![9, 8, 7]);
}

#[test]
fn module_tables() {
    assert_eq!(CryptoModule.name(), "crypto");
    assert_eq!(CryptoModule.alias(), None);
    assert_eq!(CryptoModule.function_names().len(), 27);
    assert_eq!(NetModule.name(), "net");
    assert!(NetModule.function_names().contains(&"concat_bytes"));
    assert_eq!(OSModule.function_names()[0], "system_timestamp");
    assert_eq!(ConstantsModule.alias(), Some("const"));
    let constants = ConstantsModule.constants();
    let value = |name: &str| f64::from_bits(constants.iter().find(|(n, _)| *n == name).unwrap().1);
    assert_eq!(value("pi"), std::f64::consts::PI);
    assert_eq!(value("e"), std::f64::consts::E);
    assert_eq!(value("tau"), std::f64::consts::TAU);
    assert_eq!(value("sqrt2"), std::f64::consts::SQRT_2);
    assert_eq!(value("sqrt3"), 3_f64.sqrt());
    assert_eq!(value("deg_to_rad"), std::f64::consts::PI / 180.0);
    assert_eq!(value("rad_to_deg"), 180.0 / std::f64::consts::PI);
    assert_eq!(value("ln2"), std::f64::consts::LN_2);
    assert_eq!(value("ln10"), std::f64::consts::LN_10);
    assert_eq!(value("log2e"), std::f64::consts::LOG2_E);
    assert_eq!(value("log10e"), std::f64::consts::LOG10_E);
    assert_eq!(value("phi"), 1.618033988749895);
    assert_eq!(value("c"), 299792458.0);
    assert_eq!(value("G"), 6.67430e-11);
    assert_eq!(value("h"), 6.62607015e-34);
}
