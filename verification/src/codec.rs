//! Calls into outside crates (and the few parts of std that vstd does not
//! specify), each behind a small trusted item whose contract is written from
//! the crate's source or documentation.

use aws_sdk_s3::primitives::{DateTime, DateTimeFormat};
use base64::engine::Engine;
use base64::prelude::BASE64_STANDARD;
use crypto::aes::{ecb_decryptor, KeySize};
use crypto::blockmodes::NoPadding;
use crypto::buffer::{BufferResult, ReadBuffer, RefReadBuffer, RefWriteBuffer, WriteBuffer};
use crypto::digest::Digest;
use crypto::sha2::Sha512;
use vstd::prelude::*;
use vstd::utf8::{decode_utf8, encode_utf8, valid_utf8};

verus! {

// ---------------------------------------------------------------------------
// base64 (standard alphabet, canonical padding)
// ---------------------------------------------------------------------------

/// What `BASE64_STANDARD.decode` gives back for the given bytes: `None` where
/// the crate reports a `DecodeError`.
pub uninterp spec fn base64_standard_decode(input: Seq<u8>) -> Option<Seq<u8>>;

/// The character of a 6-bit value in the standard base64 alphabet.
pub open spec fn base64_char(v: int) -> char {
    if v < 26 {
        ('A' as int + v) as char
    } else if v < 52 {
        ('a' as int + (v - 26)) as char
    } else if v < 62 {
        ('0' as int + (v - 52)) as char
    } else if v == 62 {
        '+'
    } else {
        '/'
    }
}

/// Standard base64 with `=` padding (RFC 4648), as `BASE64_STANDARD.encode`
/// writes it: each 3 bytes become 4 characters; a last 1 or 2 bytes become
/// 4 characters ending in `==` or `=`.
pub open spec fn base64_standard_encode(input: Seq<u8>) -> Seq<char>
    decreases input.len(),
{
    if input.len() == 0 {
        seq![]
    } else if input.len() == 1 {
        let a = input[0] as int;
        seq![base64_char(a / 4), base64_char((a % 4) * 16), '=', '=']
    } else if input.len() == 2 {
        let a = input[0] as int;
        let b = input[1] as int;
        seq![base64_char(a / 4), base64_char((a % 4) * 16 + b / 16), base64_char((b % 16) * 4), '=']
    } else {
        let a = input[0] as int;
        let b = input[1] as int;
        let c = input[2] as int;
        seq![
            base64_char(a / 4),
            base64_char((a % 4) * 16 + b / 16),
            base64_char((b % 16) * 4 + c / 64),
            base64_char(c % 64),
        ] + base64_standard_encode(input.subrange(3, input.len() as int))
    }
}

/// Calls `base64::Engine::decode` on `base64::prelude::BASE64_STANDARD`.
/// Claims only that the outcome is the named result for these bytes.
#[verifier::external_body]
pub(crate) fn base64_decode(input: &[u8]) -> (r: Option<Vec<u8>>)
    ensures
        match r {
            Some(v) => base64_standard_decode(input@) == Some(v@),
            None => base64_standard_decode(input@) is None,
        },
{
    BASE64_STANDARD.decode(input).ok()
}

/// Calls `base64::Engine::encode` on `base64::prelude::BASE64_STANDARD`:
/// standard alphabet, padded, as `base64_standard_encode` states.
#[verifier::external_body]
pub(crate) fn base64_encode(input: &[u8]) -> (r: String)
    ensures
        r@ == base64_standard_encode(input@),
{
    BASE64_STANDARD.encode(input)
}

// ---------------------------------------------------------------------------
// UTF-8 (std)
// ---------------------------------------------------------------------------

/// Calls `String::from_utf8`. As std documents, it succeeds exactly when the
/// bytes are valid UTF-8, and then the text is those bytes decoded.
#[verifier::external_body]
pub(crate) fn utf8_string(bytes: Vec<u8>) -> (r: Option<String>)
    ensures
        r is Some <==> valid_utf8(bytes@),
        r matches Some(s) ==> s@ == decode_utf8(bytes@),
{
    String::from_utf8(bytes).ok()
}

/// Calls `String::from_utf8_lossy`. As std documents, valid UTF-8 comes back
/// decoded as it is; what it makes of invalid input is not stated here.
#[verifier::external_body]
pub(crate) fn utf8_lossy(bytes: &[u8]) -> (r: String)
    ensures
        valid_utf8(bytes@) ==> r@ == decode_utf8(bytes@),
{
    String::from_utf8_lossy(bytes).into_owned()
}

/// Parsing of a decimal `u64` as `u64::from_str_radix(s, 10)` does it: an
/// optional `+`, then one or more ASCII digits, and a value that fits.
pub open spec fn spec_parse_u64(s: Seq<char>) -> Option<u64> {
    let digits = if s.len() > 0 && s[0] == '+' { s.drop_first() } else { s };
    if digits.len() > 0 && (forall|i: int| 0 <= i < digits.len() ==> '0' <= #[trigger] digits[i] <= '9')
        && spec_decimal_value(digits) <= u64::MAX {
        Some(spec_decimal_value(digits) as u64)
    } else {
        None
    }
}

/// The value of a string of ASCII digits, most significant first.
pub open spec fn spec_decimal_value(digits: Seq<char>) -> int
    decreases digits.len(),
{
    if digits.len() == 0 {
        0
    } else {
        spec_decimal_value(digits.drop_last()) * 10 + (digits.last() as int - '0' as int)
    }
}

/// Calls `u64::from_str_radix(s, 10)`; its contract restates std's
/// documented grammar (see `spec_parse_u64`).
#[verifier::external_body]
pub(crate) fn parse_u64_decimal(s: &str) -> (r: Option<u64>)
    ensures
        r == spec_parse_u64(s@),
{
    u64::from_str_radix(s, 10).ok()
}

// ---------------------------------------------------------------------------
// http header values
// ---------------------------------------------------------------------------

/// A byte that `http::HeaderValue::to_str` accepts: visible ASCII or a tab.
pub open spec fn is_visible_header_byte(b: u8) -> bool {
    (32 <= b && b < 127) || b == 9
}

/// A byte that `http::HeaderValue::from_str` accepts.
pub open spec fn is_valid_header_byte(b: u8) -> bool {
    (32 <= b && b != 127) || b == 9
}

/// The text of a header value, as `HeaderValue::to_str` gives it: present
/// only when every byte is visible ASCII or a tab.
pub open spec fn spec_header_text(bytes: Seq<u8>) -> Option<Seq<char>> {
    if forall|i: int| 0 <= i < bytes.len() ==> is_visible_header_byte(#[trigger] bytes[i]) {
        Some(Seq::new(bytes.len(), |i: int| bytes[i] as char))
    } else {
        None
    }
}

/// Calls `http::HeaderValue::from_bytes` and then `HeaderValue::to_str`.
/// From http's source: `from_bytes` refuses only bytes that `to_str` refuses
/// too, and `to_str` succeeds exactly when every byte is visible ASCII or a
/// tab, handing the bytes back as text.
#[verifier::external_body]
pub(crate) fn header_text(bytes: &[u8]) -> (r: Option<String>)
    ensures
        match r {
            Some(s) => spec_header_text(bytes@) == Some(s@),
            None => spec_header_text(bytes@) is None,
        },
{
    match http::HeaderValue::from_bytes(bytes) {
        Ok(v) => v.to_str().ok().map(|s| s.to_string()),
        Err(_) => None,
    }
}

/// Whether a text can stand as an HTTP header value (`HeaderValue::from_str`).
pub open spec fn spec_header_value_ok(text: Seq<char>) -> bool {
    forall|i: int| 0 <= i < encode_utf8(text).len() ==> is_valid_header_byte(#[trigger] encode_utf8(text)[i])
}

/// Calls `http::HeaderValue::from_str` and reports whether it succeeded.
/// From http's source: it succeeds exactly when every byte of the text is
/// at least 32 and not 127, or is a tab.
#[verifier::external_body]
pub(crate) fn header_value_accepts(s: &str) -> (r: bool)
    ensures
        r == spec_header_value_ok(s@),
{
    http::HeaderValue::from_str(s).is_ok()
}

// ---------------------------------------------------------------------------
// multer
// ---------------------------------------------------------------------------

/// What `multer::parse_boundary` gives back for a content type: `None` on
/// an error (not a MIME type, not multipart/form-data, no boundary).
pub uninterp spec fn multipart_boundary(content_type: Seq<char>) -> Option<Seq<char>>;

/// Calls `multer::parse_boundary`. Claims only that the outcome is the
/// named result for this text.
#[verifier::external_body]
pub(crate) fn parse_boundary(content_type: &str) -> (r: Option<String>)
    ensures
        match r {
            Some(b) => multipart_boundary(content_type@) == Some(b@),
            None => multipart_boundary(content_type@) is None,
        },
{
    multer::parse_boundary(content_type).ok()
}

// ---------------------------------------------------------------------------
// form_urlencoded
// ---------------------------------------------------------------------------

/// The name/value pairs, in order, that `form_urlencoded::parse` yields for
/// a query string.
pub uninterp spec fn form_urlencoded_pairs(query: Seq<u8>) -> Seq<(Seq<char>, Seq<char>)>;

/// Calls `form_urlencoded::parse` and collects the pairs it yields, in order.
/// Claims only that they are the named result for these bytes.
#[verifier::external_body]
pub(crate) fn query_pairs(query: &[u8]) -> (r: Vec<(String, String)>)
    ensures
        r@.len() == form_urlencoded_pairs(query@).len(),
        forall|i: int|
            0 <= i < r@.len() ==> (#[trigger] r@[i]).0@ == form_urlencoded_pairs(query@)[i].0
                && r@[i].1@ == form_urlencoded_pairs(query@)[i].1,
{
    form_urlencoded::parse(query).map(|(k, v)| (k.into_owned(), v.into_owned())).collect()
}

// ---------------------------------------------------------------------------
// SHA-512 (rust-crypto)
// ---------------------------------------------------------------------------

#[verifier::external_type_specification]
#[verifier::external_body]
pub struct ExSha512(Sha512);

/// The bytes fed into a `crypto::sha2::Sha512` since it was made.
pub uninterp spec fn sha512_absorbed(h: Sha512) -> Seq<u8>;

/// Whether `result` has been called on a `crypto::sha2::Sha512`; after that
/// the crate refuses more input (it asserts).
pub uninterp spec fn sha512_finished(h: Sha512) -> bool;

/// The SHA-512 digest of a byte string, as rust-crypto computes it.
pub uninterp spec fn sha512_digest(data: Seq<u8>) -> Seq<u8>;

/// Calls `crypto::sha2::Sha512::new`: nothing fed yet, not finished.
#[verifier::external_body]
pub(crate) fn sha512_new() -> (h: Sha512)
    ensures
        sha512_absorbed(h) == Seq::<u8>::empty(),
        !sha512_finished(h),
{
    Sha512::new()
}

/// Calls `Digest::input` on a `crypto::sha2::Sha512`: the bytes are appended
/// to what it has absorbed. The crate panics once finished, or when the
/// bit count overflows 128 bits; `requires` leaves both out.
#[verifier::external_body]
pub(crate) fn sha512_input(h: &mut Sha512, data: &[u8])
    requires
        !sha512_finished(*old(h)),
        (sha512_absorbed(*old(h)).len() + data@.len()) * 8 < 0x1_0000_0000_0000_0000_0000_0000_0000_0000,
    ensures
        sha512_absorbed(*final(h)) == sha512_absorbed(*old(h)) + data@,
        !sha512_finished(*final(h)),
{
    h.input(data)
}

/// Calls `Digest::result` on a `crypto::sha2::Sha512` with a 64-byte
/// buffer: the digest of everything absorbed, 64 bytes long.
#[verifier::external_body]
pub(crate) fn sha512_result(h: &mut Sha512) -> (out: Vec<u8>)
    ensures
        out@ == sha512_digest(sha512_absorbed(*old(h))),
        out@.len() == 64,
        sha512_absorbed(*final(h)) == sha512_absorbed(*old(h)),
        sha512_finished(*final(h)),
{
    let mut out = [0u8; 64];
    h.result(&mut out);
    out.to_vec()
}

// ---------------------------------------------------------------------------
// AES-256 (rust-crypto)
// ---------------------------------------------------------------------------

/// The bytes that AES-256 in ECB mode recovers from `data` under `key`,
/// block by block, before any padding is looked at
/// (`crypto::aes::ecb_decryptor` with `NoPadding`).
pub uninterp spec fn aes256_ecb_block_decrypt(key: Seq<u8>, data: Seq<u8>) -> Seq<u8>;

/// Calls `crypto::aes::ecb_decryptor` (256-bit key, `NoPadding`) and runs
/// its `decrypt` over all of `data` in one pass marked final, collecting
/// the output through a 4096-byte buffer until the crate reports
/// `BufferUnderflow`. From the crate's block engine: with `NoPadding` a
/// final pass fails (`InvalidLength`) exactly when the data is not a whole
/// number of 16-byte blocks, and otherwise each block gives one block of
/// output. What those bytes are is only named.
#[verifier::external_body]
pub(crate) fn aes256_ecb_decrypt_blocks(data: &[u8], key: &[u8; 32]) -> (r: Option<Vec<u8>>)
    ensures
        r is Some <==> data@.len() % 16 == 0,
        r matches Some(p) ==> p@ == aes256_ecb_block_decrypt(key@, data@) && p@.len() == data@.len(),
{
    let mut decryptor = ecb_decryptor(KeySize::KeySize256, key, NoPadding);
    let mut plain = Vec::<u8>::new();
    let mut input = RefReadBuffer::new(data);
    let mut buffer = [0u8; 4096];
    let mut output = RefWriteBuffer::new(&mut buffer);
    loop {
        let result = decryptor.decrypt(&mut input, &mut output, true).ok()?;
        plain.extend_from_slice(output.take_read_buffer().take_remaining());
        match result {
            BufferResult::BufferUnderflow => return Some(plain),
            BufferResult::BufferOverflow => {},
        }
    }
}

// ---------------------------------------------------------------------------
// chrono
// ---------------------------------------------------------------------------

/// Whether `chrono::DateTime::from_timestamp_millis` can represent this
/// many milliseconds since the epoch: from chrono's source, the instant
/// must fall between `DateTime::<Utc>::MIN_UTC` and the end of the day of
/// `DateTime::<Utc>::MAX_UTC`, whose timestamps are -8334601228800 and
/// 8210266876799 seconds.
pub open spec fn utc_millis_representable(millis: i64) -> bool {
    -8_334_601_228_800_000 <= millis <= 8_210_266_876_799_999
}

/// Calls `chrono::DateTime::from_timestamp_millis` and reads the instant as
/// whole seconds (`timestamp`) and nanoseconds within the second
/// (`timestamp_subsec_nanos`). From chrono's source: present exactly when
/// representable, with the seconds and the nanoseconds that Euclidean
/// division of the milliseconds by 1000 gives.
#[verifier::external_body]
pub(crate) fn utc_from_millis(millis: i64) -> (r: Option<(i64, u32)>)
    ensures
        r is Some <==> utc_millis_representable(millis),
        r matches Some((secs, nanos)) ==> secs == millis as int / 1000 && nanos == (millis as int % 1000)
            * 1_000_000,
{
    match chrono::DateTime::from_timestamp_millis(millis) {
        Some(dt) => Some((dt.timestamp(), dt.timestamp_subsec_nanos())),
        None => None,
    }
}

// ---------------------------------------------------------------------------
// HTTP dates (aws-smithy-types, through aws-sdk-s3)
// ---------------------------------------------------------------------------

/// The HTTP date (IMF-fixdate, such as `Wed, 21 Oct 2015 07:28:00 GMT`)
/// that aws-smithy-types writes for the instant `secs` seconds and `nanos`
/// nanoseconds after the epoch.
pub uninterp spec fn smithy_http_date(secs: i64, nanos: u32) -> Seq<char>;

/// Whether aws-smithy-types can write an instant as an HTTP date: from its
/// source, the date must fall in the years 0001 to 9999, that is from
/// -62135596800 to 253402300799 whole seconds after the epoch.
pub open spec fn http_date_representable(secs: i64) -> bool {
    -62_135_596_800 <= secs <= 253_402_300_799
}

/// Calls `DateTime::from_secs_and_nanos` (which panics for `nanos` of a
/// second or more, hence the `requires`) and formats the instant with
/// `DateTimeFormat::HttpDate`. From the source: the text is written exactly
/// when the year is representable; what it is, is named.
#[verifier::external_body]
pub(crate) fn http_date(secs: i64, nanos: u32) -> (r: Option<String>)
    requires
        nanos < 1_000_000_000,
    ensures
        r is Some <==> http_date_representable(secs),
        r matches Some(t) ==> t@ == smithy_http_date(secs, nanos),
{
    DateTime::from_secs_and_nanos(secs, nanos).fmt(DateTimeFormat::HttpDate).ok()
}

// ---------------------------------------------------------------------------
// std::time
// ---------------------------------------------------------------------------

/// Declares `std::time::SystemTime` so that a reading of the clock can be
/// carried between the two calls below.
#[verifier::external_type_specification]
#[verifier::external_body]
pub struct ExSystemTime(std::time::SystemTime);

/// Calls `std::time::SystemTime::now`. Nothing is claimed of the clock.
#[verifier::external_body]
pub(crate) fn system_time_now() -> (r: std::time::SystemTime) {
    std::time::SystemTime::now()
}

/// Calls `SystemTime::duration_since(UNIX_EPOCH)` and reads the duration as
/// whole seconds (`as_secs`) and nanoseconds within the second
/// (`subsec_nanos`, documented to be under one billion). `None` where std
/// reports the time to be before the epoch; when that happens is not
/// stated, as it rests on the clock.
#[verifier::external_body]
pub(crate) fn since_unix_epoch(t: &std::time::SystemTime) -> (r: Option<(u64, u32)>)
    ensures
        r matches Some((_, nanos)) ==> nanos < 1_000_000_000,
{
    match t.duration_since(std::time::UNIX_EPOCH) {
        Ok(d) => Some((d.as_secs(), d.subsec_nanos())),
        Err(_) => None,
    }
}

} // verus!
