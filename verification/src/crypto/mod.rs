//! The `crypto` module of the standard library: hashing, encodings, keys,
//! authenticated encryption, message authentication, key derivation and
//! signatures.  Text arguments are taken as their UTF-8 bytes; binary
//! results are handed back as lowercase hexadecimal text.

pub mod encoding;
pub mod hashing;
pub mod ciphers;
pub mod signatures;
