//! The server's settings file: from its raw fields (`OriginConfig`) to the
//! settings the server runs with (`Config`).

use crate::codec::{base64_decode, base64_standard_decode};
use vstd::prelude::*;
use vstd::utf8::encode_utf8;

verus! {

/// The object storage part of the settings file.
#[derive(Clone, Debug)]
pub struct Oss {
    pub access_key: String,
    pub secret_key: String,
    pub endpoint: String,
    pub region: String,
    pub bucket: String,
}

/// The settings the server runs with. `host` is an IPv4 address, by its
/// four octets.
#[derive(Debug)]
pub struct Config {
    pub host: [u8; 4],
    pub port: u16,
    pub log_cfg_path: Option<String>,
    pub aes_key: [u8; 32],
    pub oss: Oss,
}

/// The settings file as it is written: optional host and port, and the
/// token key in base64.
#[derive(Debug)]
pub struct OriginConfig {
    pub host: Option<String>,
    pub port: Option<u16>,
    pub log_cfg_path: Option<String>,
    pub aes_key: String,
    pub oss: Oss,
}

/// The port used when the settings file names none.
pub const DEFAULT_PORT: u16 = 80;

/// The address used when the settings file names no host, or one that is
/// not an IPv4 address: 0.0.0.0.
pub open spec fn unspecified_host() -> [u8; 4] {
    [0u8, 0u8, 0u8, 0u8]
}

/// The bytes of the token key that the settings file holds in base64.
pub open spec fn spec_key_bytes(origin: OriginConfig) -> Option<Seq<u8>> {
    base64_standard_decode(encode_utf8(origin.aes_key@))
}

/// The message for a token key that is not base64.
pub open spec fn key_format_message() -> Seq<char> {
    "通信秘钥格式格式错误"@
}

/// The message for a token key that is not 256 bits long.
pub open spec fn key_length_message() -> Seq<char> {
    "通信秘钥必须是256位"@
}

/// The settings the server runs with, from the settings file and the bytes
/// of its token key (`None` where the key is not base64).
///
/// `parsed_host` is the host of the file read as an IPv4 address (by std's
/// parser, which this library may not call): `None` where the file names
/// no host or one that does not parse, and then 0.0.0.0 is used.
/// The key must be exactly 32 bytes.
pub fn config_from_key(origin: OriginConfig, key_bytes: Option<Vec<u8>>, parsed_host: Option<[u8; 4]>) -> (r: Result<Config, String>)
    ensures
        match key_bytes {
            None => r matches Err(m) && m@ == key_format_message(),
            Some(key) => if key@.len() != 32 {
                r matches Err(m) && m@ == key_length_message()
            } else {
                r matches Ok(c) && c.aes_key@ == key@
                    && c.host == (match parsed_host { Some(h) => h, None => unspecified_host() })
                    && c.port == (match origin.port { Some(p) => p, None => DEFAULT_PORT })
                    && c.log_cfg_path == origin.log_cfg_path
                    && c.oss == origin.oss
            },
        },
{
    let key_bytes = match key_bytes {
        None => {
            return Err("通信秘钥格式格式错误".to_owned());
        },
        Some(b) => b,
    };
    if key_bytes.len() != 32 {
        return Err("通信秘钥必须是256位".to_owned());
    }
    let mut aes_key = [0u8; 32];
    let mut i: usize = 0;
    while i < 32
        invariant
            i <= 32,
            key_bytes@.len() == 32,
            forall|j: int| 0 <= j < i ==> aes_key@[j] == key_bytes@[j],
        decreases 32 - i,
    {
        aes_key[i] = key_bytes[i];
        i = i + 1;
    }
    assert(aes_key@ =~= key_bytes@);
    let host = match parsed_host {
        Some(h) => h,
        None => [0u8, 0u8, 0u8, 0u8],
    };
    let port = match origin.port {
        Some(p) => p,
        None => DEFAULT_PORT,
    };
    Ok(Config { host, port, log_cfg_path: origin.log_cfg_path, aes_key, oss: origin.oss })
}

/// Turns the settings file into the settings the server runs with: the
/// token key is decoded from base64, then `config_from_key` applies.
pub fn config_from_origin(origin: OriginConfig, parsed_host: Option<[u8; 4]>) -> (r: Result<Config, String>)
    ensures
        match spec_key_bytes(origin) {
            None => r matches Err(m) && m@ == key_format_message(),
            Some(key) => if key.len() != 32 {
                r matches Err(m) && m@ == key_length_message()
            } else {
                r matches Ok(c) && c.aes_key@ == key
                    && c.host == (match parsed_host { Some(h) => h, None => unspecified_host() })
                    && c.port == (match origin.port { Some(p) => p, None => DEFAULT_PORT })
                    && c.log_cfg_path == origin.log_cfg_path
                    && c.oss == origin.oss
            },
        },
{
    let key_bytes = base64_decode(origin.aes_key.as_str().as_bytes());
    config_from_key(origin, key_bytes, parsed_host)
}

} // verus!
