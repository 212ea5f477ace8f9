use base64::engine::Engine;
use base64::prelude::BASE64_STANDARD;
use crypto::buffer::{BufferResult, ReadBuffer, RefReadBuffer, RefWriteBuffer, WriteBuffer};
use object_storage::server::{validate_token, validate_token_at};
use object_storage::server::{be_i64, check_token, check_token_now, current_instant, strip_pkcs_padding, decode_token, dispatch_plan, DispatchPlan, TokenError};

fn plain(digest: &[u8; 64], millis: i64) -> Vec<u8> {
    let mut p = digest.to_vec();
    p.extend_from_slice(&millis.to_be_bytes());
    p
}

#[test]
fn big_endian_reading() {
    for v in [0i64, 1, -1, 1_700_000_000_000, i64::MIN, i64::MAX, -123456789] {
        assert_eq!(be_i64(&v.to_be_bytes()), v);
    }
}

#[test]
fn token_base64_decoding() {
    assert_eq!(decode_token("AQID").unwrap(), vec![1, 2, 3]);
    assert_eq!(decode_token("###").unwrap_err(), TokenError::InvalidBase64);
}

#[test]
fn valid_token_passes() {
    let digest = [9u8; 64];
    let hash = BASE64_STANDARD.encode(digest);
    let p = plain(&digest, 2_000_000_000_000);
    assert_eq!(check_token(Some(&p), &hash, Some((1_700_000_000, 0))), Ok(()));
    // Expiring exactly now still passes.
    assert_eq!(check_token(Some(&p), &hash, Some((2_000_000_000, 0))), Ok(()));
    assert_eq!(check_token_now(Some(&plain(&digest, 4_000_000_000_000)), &hash), Ok(()));
}

#[test]
fn expired_token_fails() {
    let digest = [9u8; 64];
    let hash = BASE64_STANDARD.encode(digest);
    let p = plain(&digest, 2_000_000_000_123);
    assert_eq!(check_token(Some(&p), &hash, Some((2_000_000_000, 123_000_001))), Err(TokenError::Expired));
    assert_eq!(check_token(Some(&p), &hash, Some((2_000_000_001, 0))), Err(TokenError::Expired));
    assert_eq!(check_token_now(Some(&plain(&digest, 0)), &hash), Err(TokenError::Expired));
}

#[test]
fn malformed_tokens_fail() {
    let digest = [9u8; 64];
    let hash = BASE64_STANDARD.encode(digest);
    assert_eq!(check_token(None, &hash, Some((0, 0))), Err(TokenError::DecryptFailed));
    assert_eq!(check_token(Some(&[0u8; 71]), &hash, Some((0, 0))), Err(TokenError::InvalidFormat));
    let p = plain(&[8u8; 64], 2_000_000_000_000);
    assert_eq!(check_token(Some(&p), &hash, Some((0, 0))), Err(TokenError::HashMismatch));
    let p = plain(&digest, i64::MAX);
    assert_eq!(check_token(Some(&p), &hash, Some((0, 0))), Err(TokenError::InvalidExpireTime));
    assert_eq!(TokenError::Expired.message(), "Token expired.");
    // The clock is looked at last: other faults come first.
    assert_eq!(check_token(None, &hash, None), Err(TokenError::DecryptFailed));
    assert_eq!(check_token(Some(&plain(&digest, i64::MAX)), &hash, None), Err(TokenError::InvalidExpireTime));
    assert_eq!(check_token(Some(&plain(&digest, 0)), &hash, None), Err(TokenError::ClockUnavailable));
    assert_eq!(TokenError::ClockUnavailable.message(), "System time is before the Unix epoch.");
}

#[test]
fn clock_reading_is_after_the_epoch() {
    let (secs, nanos) = current_instant().unwrap();
    assert!(secs > 1_600_000_000);
    assert!(nanos < 1_000_000_000);
}

#[test]
fn access_check_decisions() {
    assert!(matches!(dispatch_plan("/blob/a.png", None, None), DispatchPlan::Forward));
    assert!(matches!(dispatch_plan("/api/oss/upload", Some(b"t"), None), DispatchPlan::Reject));
    assert!(matches!(dispatch_plan("/api/oss/upload", None, Some(b"s")), DispatchPlan::Reject));
    match dispatch_plan("/api/oss/upload", Some(b"tok"), Some(b"sha")) {
        DispatchPlan::Validate { token, sha512 } => {
            assert_eq!(token, "tok");
            assert_eq!(sha512, "sha");
        }
        other => panic!("unexpected {:?}", other),
    }
    assert!(matches!(dispatch_plan("/api/oss/upload", Some(&[0x80]), Some(b"sha")), DispatchPlan::Reject));
}

fn encrypt(plain: &[u8], key: &[u8; 32]) -> Vec<u8> {
    let enc = crypto::aes::ecb_encryptor(crypto::aes::KeySize::KeySize256, key, crypto::blockmodes::PkcsPadding);
    run_encryptor(enc, plain)
}

fn encrypt_unpadded(plain: &[u8], key: &[u8; 32]) -> Vec<u8> {
    let enc = crypto::aes::ecb_encryptor(crypto::aes::KeySize::KeySize256, key, crypto::blockmodes::NoPadding);
    run_encryptor(enc, plain)
}

fn run_encryptor(mut enc: Box<dyn crypto::symmetriccipher::Encryptor>, plain: &[u8]) -> Vec<u8> {
    let mut out = Vec::new();
    let mut input = RefReadBuffer::new(plain);
    let mut buffer = [0u8; 4096];
    let mut output = RefWriteBuffer::new(&mut buffer);
    loop {
        let r = enc.encrypt(&mut input, &mut output, true).unwrap();
        out.extend_from_slice(output.take_read_buffer().take_remaining());
        if let BufferResult::BufferUnderflow = r {
            break;
        }
    }
    out
}

#[test]
fn aes_decryption_round_trip() {
    let key = [3u8; 32];
    let plain: Vec<u8> = (0u8..200).collect();
    let cipher = encrypt(&plain, &key);
    assert_ne!(cipher, plain);
    assert_eq!(object_storage::server::decrypt_by_aes_256(&cipher, &key).unwrap(), plain);
    let big: Vec<u8> = (0..10_000u32).map(|i| (i % 251) as u8).collect();
    assert_eq!(object_storage::server::decrypt_by_aes_256(&encrypt(&big, &key), &key).unwrap(), big);
    assert_eq!(
        object_storage::server::decrypt_by_aes_256(&cipher[..15], &key).unwrap_err(),
        "Aes decrypt failed"
    );
    // Nothing in, nothing out.
    assert_eq!(object_storage::server::decrypt_by_aes_256(&[], &key).unwrap(), Vec::<u8>::new());
}

#[test]
fn aes_padding_rules() {
    let key = [3u8; 32];
    let decrypt = |block: &[u8]| object_storage::server::decrypt_by_aes_256(&encrypt_unpadded(block, &key), &key);
    // A last byte above 16 is refused, even where the whole block repeats it.
    assert_eq!(decrypt(&[0xFF; 16]).unwrap_err(), "Aes decrypt failed");
    assert_eq!(decrypt(&[17; 16]).unwrap_err(), "Aes decrypt failed");
    // A last byte of 0 takes nothing off.
    let mut zero = [5u8; 16];
    zero[15] = 0;
    assert_eq!(decrypt(&zero).unwrap(), zero.to_vec());
    // Sixteen 16s are a block of padding alone.
    assert_eq!(decrypt(&[16; 16]).unwrap(), Vec::<u8>::new());
    // Padding bytes that disagree are refused.
    let mut bad = [3u8; 16];
    bad[14] = 4;
    assert_eq!(decrypt(&bad).unwrap_err(), "Aes decrypt failed");
    let mut good = [9u8; 16];
    good[13] = 3;
    good[14] = 3;
    good[15] = 3;
    assert_eq!(decrypt(&good).unwrap(), vec![9u8; 13]);
}

#[test]
fn pkcs_padding_stripping() {
    assert_eq!(strip_pkcs_padding(&[]), Some(vec![]));
    assert_eq!(strip_pkcs_padding(&[1, 2, 2]), Some(vec![1]));
    assert_eq!(strip_pkcs_padding(&[1, 3, 2]), None);
    assert_eq!(strip_pkcs_padding(&[7, 0]), Some(vec![7, 0]));
    assert_eq!(strip_pkcs_padding(&[4, 4, 4]), None);
    assert_eq!(strip_pkcs_padding(&[17; 32]), None);
}

#[test]
fn token_validation_end_to_end() {
    let key = [5u8; 32];
    let digest = [7u8; 64];
    let hash = BASE64_STANDARD.encode(digest);
    let token = BASE64_STANDARD.encode(encrypt(&plain(&digest, 2_000_000_000_000), &key));
    assert_eq!(validate_token_at(&key, &hash, &token, Some((1_700_000_000, 0))), Ok(()));
    assert_eq!(validate_token_at(&key, &hash, &token, Some((2_000_000_001, 0))), Err(TokenError::Expired));
    assert_eq!(validate_token_at(&[6u8; 32], &hash, &token, Some((0, 0))).is_err(), true);
    assert_eq!(validate_token_at(&key, &hash, "@@", Some((0, 0))), Err(TokenError::InvalidBase64));
    let short = BASE64_STANDARD.encode(encrypt(&[1u8; 10], &key));
    assert_eq!(validate_token_at(&key, &hash, &short, Some((0, 0))), Err(TokenError::InvalidFormat));
    let far = BASE64_STANDARD.encode(encrypt(&plain(&digest, 4_000_000_000_000), &key));
    assert_eq!(validate_token(&key, &hash, &far), Ok(()));
}

#[test]
fn expiry_range_bounds() {
    assert_eq!(chrono::DateTime::<chrono::Utc>::MIN_UTC.timestamp(), -8_334_601_228_800);
    assert_eq!(chrono::DateTime::<chrono::Utc>::MAX_UTC.timestamp(), 8_210_266_876_799);
    let digest = [9u8; 64];
    let hash = BASE64_STANDARD.encode(digest);
    for (millis, ok) in [
        (-8_334_601_228_800_000i64, true),
        (-8_334_601_228_800_001, false),
        (8_210_266_876_799_999, true),
        (8_210_266_876_800_000, false),
    ] {
        let r = check_token(Some(&plain(&digest, millis)), &hash, Some((i64::MIN, 0)));
        assert_eq!(r != Err(TokenError::InvalidExpireTime), ok, "{}", millis);
    }
}

#[test]
fn base64_encoding_of_tails() {
    // The hash check compares against base64 of the first 64 bytes.
    for n in 0..7usize {
        let bytes: Vec<u8> = (0..n as u8).map(|i| i.wrapping_mul(77)).collect();
        let mut digest = [0u8; 64];
        digest[..n].copy_from_slice(&bytes);
        let hash = BASE64_STANDARD.encode(digest);
        assert_eq!(check_token(Some(&plain(&digest, 0)), &hash, Some((i64::MIN, 0))), Ok(()));
    }
}
