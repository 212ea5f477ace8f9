//! The server's access check in front of the handler: requests outside the public
//! blob paths must carry a valid access token.
//!
//! A token is base64 of an AES-256 (ECB, PKCS padding) ciphertext whose
//! plaintext is 72 bytes: the 64-byte SHA-512 of the file to upload, then
//! the expiry time as big-endian milliseconds since the epoch.

use crate::codec::{
    aes256_ecb_block_decrypt, aes256_ecb_decrypt_blocks, base64_decode, base64_encode, base64_standard_decode, base64_standard_encode, header_text,
    spec_header_text, utc_from_millis, utc_millis_representable, since_unix_epoch, system_time_now,
};
use crate::handler::BLOB_PREFIX;
use crate::storage::optional_bytes;
use crate::text::{bytes_start_with, spec_starts_with, text_equal};
use vstd::prelude::*;
use vstd::utf8::encode_utf8;

verus! {

/// The code mapping the server uses: codes are answered as they are.
pub fn adjust_error_code(error_code: i32) -> (r: i32)
    ensures
        r == error_code,
{
    error_code
}

/// Why an access token was refused.
#[derive(Clone, Copy, Debug, PartialEq, Eq, Structural)]
pub enum TokenError {
    /// The token is not base64.
    InvalidBase64,
    /// The token does not decrypt under the server's key.
    DecryptFailed,
    /// The plaintext is not 72 bytes long.
    InvalidFormat,
    /// The hash in the token is not the one of the request.
    HashMismatch,
    /// The expiry time is not a representable instant.
    InvalidExpireTime,
    /// The expiry time has passed.
    Expired,
    /// The clock could not be read as a time after the epoch.
    ClockUnavailable,
}

impl TokenError {
    /// The text logged for this error.
    pub fn message(&self) -> (r: &'static str)
        ensures
            r@ == spec_token_error_message(*self),
    {
        match self {
            TokenError::InvalidBase64 => "Invalid token encoding.",
            TokenError::DecryptFailed => "Aes decrypt failed",
            TokenError::InvalidFormat => "Invalid token format.",
            TokenError::HashMismatch => "Token invalid.",
            TokenError::InvalidExpireTime => "Token invalid.",
            TokenError::Expired => "Token expired.",
            TokenError::ClockUnavailable => "System time is before the Unix epoch.",
        }
    }
}

/// The text logged for each token error.
pub open spec fn spec_token_error_message(e: TokenError) -> Seq<char> {
    match e {
        TokenError::InvalidBase64 => "Invalid token encoding."@,
        TokenError::DecryptFailed => "Aes decrypt failed"@,
        TokenError::InvalidFormat => "Invalid token format."@,
        TokenError::HashMismatch => "Token invalid."@,
        TokenError::InvalidExpireTime => "Token invalid."@,
        TokenError::Expired => "Token expired."@,
        TokenError::ClockUnavailable => "System time is before the Unix epoch."@,
    }
}

/// The length of a token's plaintext: a SHA-512 and an expiry time.
pub const TOKEN_PLAIN_LEN: usize = 72;

/// The ciphertext carried by a token (the token is its base64).
pub fn decode_token(token: &str) -> (r: Result<Vec<u8>, TokenError>)
    ensures
        match base64_standard_decode(encode_utf8(token@)) {
            Some(c) => r matches Ok(v) && v@ == c,
            None => r == Err::<Vec<u8>, TokenError>(TokenError::InvalidBase64),
        },
{
    match base64_decode(token.as_bytes()) {
        Some(v) => Ok(v),
        None => Err(TokenError::InvalidBase64),
    }
}

/// The value of bytes read as an unsigned big-endian number.
pub open spec fn spec_be_unsigned(bytes: Seq<u8>) -> int
    decreases bytes.len(),
{
    if bytes.len() == 0 {
        0
    } else {
        spec_be_unsigned(bytes.drop_last()) * 256 + bytes.last() as int
    }
}

/// The value of eight bytes read as a big-endian two's complement `i64`
/// (`i64::from_be_bytes`).
pub open spec fn spec_be_i64(bytes: Seq<u8>) -> int {
    let u = spec_be_unsigned(bytes);
    if u >= 0x8000_0000_0000_0000 {
        u - 0x1_0000_0000_0000_0000
    } else {
        u
    }
}

/// 256 to the power `n`.
pub open spec fn pow256(n: nat) -> nat
    decreases n,
{
    if n == 0 {
        1
    } else {
        256 * pow256((n - 1) as nat)
    }
}

proof fn lemma_pow256_small(n: nat)
    requires
        n <= 7,
    ensures
        pow256(n) <= 0x100_0000_0000_0000,
{
    reveal_with_fuel(pow256, 8);
    if n == 0 {
    } else if n == 1 {
    } else if n == 2 {
    } else if n == 3 {
    } else if n == 4 {
    } else if n == 5 {
    } else if n == 6 {
    } else {
        assert(n == 7);
    }
}

proof fn lemma_be_unsigned_bound(bytes: Seq<u8>)
    ensures
        0 <= spec_be_unsigned(bytes) < pow256(bytes.len()),
    decreases bytes.len(),
{
    if bytes.len() > 0 {
        let rest = bytes.drop_last();
        lemma_be_unsigned_bound(rest);
        let v = spec_be_unsigned(rest);
        let p = pow256(rest.len());
        let b = bytes.last() as int;
        assert(v * 256 + b < p * 256) by (nonlinear_arith)
            requires
                0 <= v < p,
                0 <= b < 256,
        ;
    }
}

/// Eight bytes read as a big-endian `i64`.
pub fn be_i64(bytes: &[u8]) -> (r: i64)
    requires
        bytes@.len() == 8,
    ensures
        r as int == spec_be_i64(bytes@),
{
    let mut v: u64 = 0;
    let mut i: usize = 0;
    while i < 8
        invariant
            i <= 8,
            bytes@.len() == 8,
            v as int == spec_be_unsigned(bytes@.subrange(0, i as int)),
        decreases 8 - i,
    {
        proof {
            lemma_be_unsigned_bound(bytes@.subrange(0, i as int));
            lemma_pow256_small(i as nat);
            assert(bytes@.subrange(0, i + 1).drop_last() =~= bytes@.subrange(0, i as int));
        }
        v = v * 256 + bytes[i] as u64;
        i = i + 1;
    }
    assert(bytes@.subrange(0, 8) =~= bytes@);
    if v >= 0x8000_0000_0000_0000 {
        ((v - 0x8000_0000_0000_0000) as i64) - 0x7fff_ffff_ffff_ffff - 1
    } else {
        v as i64
    }
}

/// Whether instant `a` comes after instant `b`, both as whole seconds and
/// nanoseconds within the second (the order of `chrono::DateTime`).
pub open spec fn spec_later(a: (i64, u32), b: (i64, u32)) -> bool {
    a.0 > b.0 || (a.0 == b.0 && a.1 > b.1)
}

/// The expiry instant of a token whose expiry is `millis`.
pub open spec fn spec_expiry(millis: int) -> (i64, u32) {
    ((millis / 1000) as i64, ((millis % 1000) * 1_000_000) as u32)
}

/// The check of a decrypted token (`None` where decryption failed) against
/// the request's hash at instant `now` (`None` where the clock could not be
/// read).
pub open spec fn spec_check_token(plain: Option<Seq<u8>>, hash: Seq<char>, now: Option<(i64, u32)>) -> Result<(), TokenError> {
    match plain {
        None => Err(TokenError::DecryptFailed),
        Some(p) => if p.len() != TOKEN_PLAIN_LEN {
            Err(TokenError::InvalidFormat)
        } else if base64_standard_encode(p.subrange(0, 64)) != hash {
            Err(TokenError::HashMismatch)
        } else {
            let millis = spec_be_i64(p.subrange(64, 72));
            if !utc_millis_representable(millis as i64) {
                Err(TokenError::InvalidExpireTime)
            } else {
                match now {
                    None => Err(TokenError::ClockUnavailable),
                    Some(t) => if spec_later(t, spec_expiry(millis)) {
                        Err(TokenError::Expired)
                    } else {
                        Ok(())
                    },
                }
            }
        },
    }
}

/// Checks a decrypted token (`None` where decryption failed) against the
/// request's hash at instant `now` (seconds, nanoseconds; `None` where the
/// clock could not be read): the plaintext must be 72 bytes, its first 64
/// in base64 must be the hash, and its expiry must be representable and not
/// before `now`.
pub fn check_token(plain: Option<&[u8]>, hash: &str, now: Option<(i64, u32)>) -> (r: Result<(), TokenError>)
    ensures
        r == spec_check_token(
            optional_bytes(plain),
            hash@,
            now,
        ),
{
    let p = match plain {
        None => {
            return Err(TokenError::DecryptFailed);
        },
        Some(p) => p,
    };
    if p.len() != TOKEN_PLAIN_LEN {
        return Err(TokenError::InvalidFormat);
    }
    let (digest, expiry) = p.split_at(64);
    let hash_in_token = base64_encode(digest);
    if !text_equal(hash_in_token.as_str(), hash) {
        return Err(TokenError::HashMismatch);
    }
    let millis = be_i64(expiry);
    let expire_time = match utc_from_millis(millis) {
        None => {
            return Err(TokenError::InvalidExpireTime);
        },
        Some(t) => t,
    };
    let now = match now {
        None => {
            return Err(TokenError::ClockUnavailable);
        },
        Some(t) => t,
    };
    let later = now.0 > expire_time.0 || (now.0 == expire_time.0 && now.1 > expire_time.1);
    if later {
        return Err(TokenError::Expired);
    }
    Ok(())
}

/// Reads the clock as seconds and nanoseconds since the epoch: `None` where
/// the clock reads before the epoch, or so far after it that the seconds do
/// not fit an `i64`.
pub fn current_instant() -> (r: Option<(i64, u32)>)
    ensures
        r matches Some((secs, nanos)) ==> secs >= 0 && nanos < 1_000_000_000,
{
    let t = system_time_now();
    match since_unix_epoch(&t) {
        Some((secs, nanos)) => if secs <= i64::MAX as u64 {
            Some((secs as i64, nanos))
        } else {
            None
        },
        None => None,
    }
}

/// Checks a decrypted token against the request's hash at the current
/// time. Whatever the clock says, the answer is that of `check_token` at
/// some reading of it; a token that fails for any other reason fails here
/// with the same error.
pub fn check_token_now(plain: Option<&[u8]>, hash: &str) -> (r: Result<(), TokenError>)
    ensures
        exists|now: Option<(i64, u32)>|
            r == #[trigger] spec_check_token(
                optional_bytes(plain),
                hash@,
                now,
            ),
{
    let now = current_instant();
    check_token(plain, hash, now)
}

/// The message of a failed decryption.
pub open spec fn decrypt_failed_message() -> Seq<char> {
    "Aes decrypt failed"@
}

/// What is left of a decrypted block sequence once its PKCS padding is
/// taken off, as rust-crypto's `PkcsPadding` does it: no blocks give no
/// bytes; otherwise the last byte `n` must be at most 16 and the last `n`
/// bytes must all be `n`, and those `n` bytes go (`n == 0` takes nothing).
/// `None` where the padding is refused.
pub open spec fn spec_strip_pkcs(raw: Seq<u8>) -> Option<Seq<u8>> {
    if raw.len() == 0 {
        Some(raw)
    } else {
        let n = raw.last() as int;
        if n <= 16 && n <= raw.len() && (forall|i: int|
            raw.len() - n <= i < raw.len() ==> #[trigger] raw[i] == n) {
            Some(raw.subrange(0, raw.len() - n))
        } else {
            None
        }
    }
}

/// PKCS padding of `p` to a whole number of 16-byte blocks: `n` copies of
/// `n`, where `n` is from 1 to 16.
pub open spec fn pkcs_padded(p: Seq<u8>) -> Seq<u8> {
    let n = 16 - p.len() % 16;
    p + Seq::new(n as nat, |i: int| n as u8)
}

/// Taking the padding off undoes padding: for every byte string `p`,
/// stripping `p` followed by its PKCS padding gives back `p`.
pub proof fn lemma_strip_undoes_pkcs_padding(p: Seq<u8>)
    ensures
        spec_strip_pkcs(pkcs_padded(p)) == Some(p),
{
    let n = 16 - p.len() % 16;
    let raw = pkcs_padded(p);
    assert(1 <= n <= 16);
    assert(raw.len() == p.len() + n);
    assert(raw.last() as int == n);
    assert forall|i: int| raw.len() - n <= i < raw.len() implies #[trigger] raw[i] == n by {
        assert(raw[i] == Seq::new(n as nat, |k: int| n as u8)[i - p.len()]);
    }
    assert(raw.subrange(0, raw.len() - n) =~= p);
}

/// AES-256 in ECB mode with PKCS padding: `None` where the data is not a
/// whole number of blocks or the padding is refused.
pub open spec fn spec_aes256_decrypt(key: Seq<u8>, data: Seq<u8>) -> Option<Seq<u8>> {
    if data.len() % 16 != 0 {
        None
    } else {
        spec_strip_pkcs(aes256_ecb_block_decrypt(key, data))
    }
}

/// Takes the PKCS padding off decrypted blocks (see `spec_strip_pkcs`).
pub fn strip_pkcs_padding(raw: &[u8]) -> (r: Option<Vec<u8>>)
    ensures
        match spec_strip_pkcs(raw@) {
            Some(p) => r matches Some(v) && v@ == p,
            None => r is None,
        },
{
    let len = raw.len();
    if len == 0 {
        return Some(Vec::new());
    }
    let n = raw[len - 1];
    if n > 16 || n as usize > len {
        return None;
    }
    let keep = len - n as usize;
    let mut i = keep;
    while i < len
        invariant
            keep <= i <= len,
            len == raw@.len(),
            len > 0,
            n == raw@[len - 1],
            keep == raw@.len() - n,
            forall|j: int| keep <= j < i ==> raw@[j] == n,
        decreases len - i,
    {
        if raw[i] != n {
            assert(raw@[i as int] != raw@.last() as int);
            return None;
        }
        i = i + 1;
    }
    let mut out = Vec::new();
    let mut k: usize = 0;
    while k < keep
        invariant
            k <= keep,
            keep <= raw@.len(),
            out@ == raw@.subrange(0, k as int),
        decreases keep - k,
    {
        out.push(raw[k]);
        k = k + 1;
    }
    Some(out)
}

/// Decrypts `data` with AES-256 in ECB mode with PKCS padding under `key`.
pub fn decrypt_by_aes_256(data: &[u8], key: &[u8; 32]) -> (r: Result<Vec<u8>, String>)
    ensures
        match spec_aes256_decrypt(key@, data@) {
            Some(p) => r matches Ok(v) && v@ == p,
            None => r matches Err(m) && m@ == decrypt_failed_message(),
        },
        r matches Ok(v) ==> data@.len() % 16 == 0 && data@.len() - 16 <= v@.len() <= data@.len(),
{
    let stripped = match aes256_ecb_decrypt_blocks(data, key) {
        Some(raw) => strip_pkcs_padding(raw.as_slice()),
        None => None,
    };
    match stripped {
        Some(p) => Ok(p),
        None => Err("Aes decrypt failed".to_owned()),
    }
}

/// The check of a token (base64 of the ciphertext) against the request's
/// hash under the server's key at instant `now`.
pub open spec fn spec_validate_token(aes_key: Seq<u8>, hash: Seq<char>, token: Seq<char>, now: Option<(i64, u32)>) -> Result<(), TokenError> {
    match base64_standard_decode(encode_utf8(token)) {
        None => Err(TokenError::InvalidBase64),
        Some(c) => spec_check_token(spec_aes256_decrypt(aes_key, c), hash, now),
    }
}

/// Checks a token against the request's hash at instant `now` (`None`
/// where the clock could not be read): it must be base64 of a ciphertext
/// that decrypts under `aes_key` to a plaintext that `check_token` accepts.
pub fn validate_token_at(aes_key: &[u8; 32], hash: &str, token: &str, now: Option<(i64, u32)>) -> (r: Result<(), TokenError>)
    ensures
        r == spec_validate_token(aes_key@, hash@, token@, now),
{
    let ciphertext = decode_token(token)?;
    match decrypt_by_aes_256(ciphertext.as_slice(), aes_key) {
        Ok(plain) => check_token(Some(plain.as_slice()), hash, now),
        Err(_) => check_token(None, hash, now),
    }
}

/// Checks a token against the request's hash at the current time.
/// Whatever the clock says, the answer is that of `validate_token_at` at
/// some reading of it.
pub fn validate_token(aes_key: &[u8; 32], hash: &str, token: &str) -> (r: Result<(), TokenError>)
    ensures
        exists|now: Option<(i64, u32)>| r == #[trigger] spec_validate_token(aes_key@, hash@, token@, now),
{
    let now = current_instant();
    validate_token_at(aes_key, hash, token, now)
}

/// What the access check does with a request.
#[derive(Debug)]
pub enum DispatchPlan {
    /// Hand the request to the handler.
    Forward,
    /// Answer status 400.
    Reject,
    /// Check the token against the hash; forward if it passes, else reject.
    Validate { token: String, sha512: String },
}

/// The access check's decision from the request path and the bytes of its
/// `X-token` and `X-sha512` headers: paths under `BLOB_PREFIX` pass; other
/// requests need both headers, readable, to be checked.
pub fn dispatch_plan(path: &str, token: Option<&[u8]>, sha512: Option<&[u8]>) -> (r: DispatchPlan)
    ensures
        if spec_starts_with(encode_utf8(path@), encode_utf8(BLOB_PREFIX@)) {
            r is Forward
        } else {
            match (
                match token {
                    Some(b) => spec_header_text(b@),
                    None => None,
                },
                match sha512 {
                    Some(b) => spec_header_text(b@),
                    None => None,
                },
            ) {
                (Some(t), Some(h)) => r matches DispatchPlan::Validate { token: rt, sha512: rh } && rt@ == t
                    && rh@ == h,
                _ => r is Reject,
            }
        },
{
    if bytes_start_with(path.as_bytes(), BLOB_PREFIX.as_bytes()) {
        return DispatchPlan::Forward;
    }
    let token = match token {
        Some(b) => header_text(b),
        None => None,
    };
    let sha512 = match sha512 {
        Some(b) => header_text(b),
        None => None,
    };
    match (token, sha512) {
        (Some(t), Some(h)) => DispatchPlan::Validate { token: t, sha512: h },
        _ => DispatchPlan::Reject,
    }
}

} // verus!
