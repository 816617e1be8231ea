//! The native modules of the standard library that this crate holds: their
//! names, aliases and the functions or constants they offer.

use vstd::prelude::*;

verus! {

/// The `crypto` module (functions in `crate::crypto`).
pub struct CryptoModule;

/// The `net` module (byte helpers in `crate::net`; sockets belong to the
/// program).
pub struct NetModule;

/// The `os` module (its functions read the environment and belong to the
/// program).
pub struct OSModule;

/// The `constants` module: mathematical and physical constants.
pub struct ConstantsModule;

impl CryptoModule {
    pub fn name(&self) -> (r: &'static str)
        ensures
            r@ == "crypto"@,
    {
        "crypto"
    }

    pub fn alias(&self) -> (r: Option<&'static str>)
        ensures
            r is None,
    {
        None
    }

    /// The names under which the module's functions are called.
    pub fn function_names(&self) -> (r: Vec<&'static str>)
        ensures
            r@.map_values(|n: &'static str| n@) == seq!["sha256"@, "sha512"@, "sha1"@, "md5"@, "blake2b"@, "blake3"@, "to_hex"@, "from_hex"@, "to_base64"@, "from_base64"@, "generate_key"@, "aes_encrypt"@, "aes_decrypt"@, "chacha20_encrypt"@, "chacha20_decrypt"@, "hmac_sha256"@, "hmac_verify"@, "pbkdf2"@, "generate_keypair"@, "sign"@, "verify"@, "x25519_keygen"@, "x25519_shared_secret"@, "hkdf_extract"@, "hkdf_expand"@, "rsa_verify"@, "ecdsa_verify"@],
    {
        vec![
            "sha256", "sha512", "sha1", "md5", "blake2b", "blake3", "to_hex", "from_hex", "to_base64",
            "from_base64", "generate_key", "aes_encrypt", "aes_decrypt", "chacha20_encrypt", "chacha20_decrypt",
            "hmac_sha256", "hmac_verify", "pbkdf2", "generate_keypair", "sign", "verify", "x25519_keygen",
            "x25519_shared_secret", "hkdf_extract", "hkdf_expand", "rsa_verify", "ecdsa_verify",
        ]
    }
}

impl NetModule {
    pub fn name(&self) -> (r: &'static str)
        ensures
            r@ == "net"@,
    {
        "net"
    }

    pub fn alias(&self) -> (r: Option<&'static str>)
        ensures
            r is None,
    {
        None
    }

    /// The names under which the module's functions are called.
    pub fn function_names(&self) -> (r: Vec<&'static str>)
        ensures
            r@.map_values(|n: &'static str| n@) == seq!["connect"@, "send"@, "send_bytes"@, "recv"@, "recv_bytes"@, "close"@, "hex_to_bytes"@, "bytes_to_hex"@, "concat_bytes"@, "bytes_to_string"@],
    {
        vec![
            "connect", "send", "send_bytes", "recv", "recv_bytes", "close", "hex_to_bytes", "bytes_to_hex",
            "concat_bytes", "bytes_to_string",
        ]
    }
}

impl OSModule {
    pub fn name(&self) -> (r: &'static str)
        ensures
            r@ == "os"@,
    {
        "os"
    }

    pub fn alias(&self) -> (r: Option<&'static str>)
        ensures
            r is None,
    {
        None
    }

    /// The names under which the module's functions are called.
    pub fn function_names(&self) -> (r: Vec<&'static str>)
        ensures
            r@.map_values(|n: &'static str| n@) == seq!["system_timestamp"@, "env"@, "env_all"@, "getcwd"@, "platform"@, "arch"@, "args"@, "input"@],
    {
        vec!["system_timestamp", "env", "env_all", "getcwd", "platform", "arch", "args", "input"]
    }
}

impl ConstantsModule {
    pub fn name(&self) -> (r: &'static str)
        ensures
            r@ == "constants"@,
    {
        "constants"
    }

    pub fn alias(&self) -> (r: Option<&'static str>)
        ensures
            r matches Some(a) && a@ == "const"@,
    {
        Some("const")
    }

    /// The constants with the IEEE-754 bit patterns of their `f64` values.
    pub fn constants(&self) -> (r: Vec<(&'static str, u64)>)
        ensures
            r@.map_values(|c: (&'static str, u64)| (c.0@, c.1)) == seq![("pi"@, 0x400921FB54442D18u64), ("e"@, 0x4005BF0A8B145769u64), ("tau"@, 0x401921FB54442D18u64), ("phi"@, 0x3FF9E3779B97F4A8u64), ("sqrt2"@, 0x3FF6A09E667F3BCDu64), ("sqrt3"@, 0x3FFBB67AE8584CAAu64), ("deg_to_rad"@, 0x3F91DF46A2529D39u64), ("rad_to_deg"@, 0x404CA5DC1A63C1F8u64), ("c"@, 0x41B1DE784A000000u64), ("G"@, 0x3DD2589EFFED8ACCu64), ("h"@, 0x390B860BDE023111u64), ("ln2"@, 0x3FE62E42FEFA39EFu64), ("ln10"@, 0x40026BB1BBB55516u64), ("log2e"@, 0x3FF71547652B82FEu64), ("log10e"@, 0x3FDBCB7B1526E50Eu64)],
    {
        vec![
            ("pi", 0x400921FB54442D18u64),
            ("e", 0x4005BF0A8B145769u64),
            ("tau", 0x401921FB54442D18u64),
            ("phi", 0x3FF9E3779B97F4A8u64),
            ("sqrt2", 0x3FF6A09E667F3BCDu64),
            ("sqrt3", 0x3FFBB67AE8584CAAu64),
            ("deg_to_rad", 0x3F91DF46A2529D39u64),
            ("rad_to_deg", 0x404CA5DC1A63C1F8u64),
            ("c", 0x41B1DE784A000000u64),
            ("G", 0x3DD2589EFFED8ACCu64),
            ("h", 0x390B860BDE023111u64),
            ("ln2", 0x3FE62E42FEFA39EFu64),
            ("ln10", 0x40026BB1BBB55516u64),
            ("log2e", 0x3FF71547652B82FEu64),
            ("log10e", 0x3FDBCB7B1526E50Eu64),
        ]
    }
}

} // verus!
