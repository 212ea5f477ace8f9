use base64::engine::Engine;
use base64::prelude::BASE64_STANDARD;
use crypto::digest::Digest;
use crypto::sha2::Sha512;
use object_storage::storage::{FieldAction, FieldHead, FileCheck, FinishAction, UploadError, UploadSession};

fn digest_b64(data: &[u8]) -> String {
    let mut h = Sha512::new();
    h.input(data);
    let mut out = [0u8; 64];
    h.result(&mut out);
    BASE64_STANDARD.encode(out)
}

fn text_head(name: &str) -> FieldHead {
    FieldHead { has_file_name: false, content_type: None, name: Some(name.to_string()) }
}

fn file_head(name: &str) -> FieldHead {
    FieldHead {
        has_file_name: true,
        content_type: Some("application/octet-stream".to_string()),
        name: Some(name.to_string()),
    }
}

fn send_size(s: &mut UploadSession, size: &str) {
    match s.begin_field(text_head("size")) {
        FieldAction::CollectText { name } => s.text_field(name, size.as_bytes().to_vec()).unwrap(),
        _ => panic!("size field not collected"),
    }
}

fn check(content_length: u64, chunks: &[&[u8]]) -> FileCheck {
    let mut c = FileCheck::new(content_length);
    for chunk in chunks {
        c.absorb(chunk);
    }
    c
}

#[test]
fn upload_accepted_when_size_and_hash_match() {
    let data = b"hello world";
    let hash = digest_b64(data);
    let mut s = UploadSession::new(hash.clone());
    send_size(&mut s, "11");
    match s.begin_field(file_head("file")) {
        FieldAction::CheckFile { content_length, content_type, key } => {
            assert_eq!(content_length, 11);
            assert_eq!(key, hash);
            assert_eq!(content_type, "application/octet-stream");
            let c = check(content_length, &[b"hello ", b"world"]);
            assert_eq!(c.received_len(), 11);
            assert!(matches!(s.finish_file(c, false), FinishAction::Keep));
        }
        _ => panic!("file not checked"),
    }
    assert!(matches!(s.begin_field(file_head("file")), FieldAction::Drain));
    assert_eq!(s.finish(), Ok(hash));
}

#[test]
fn upload_size_mismatch_deletes_stored_file() {
    let data = b"abc";
    let mut s = UploadSession::new(digest_b64(data));
    send_size(&mut s, "4");
    match s.begin_field(file_head("file")) {
        FieldAction::CheckFile { content_length, .. } => {
            let c = check(content_length, &[data]);
            match s.finish_file(c, false) {
                FinishAction::DeleteStored { key } => assert_eq!(key, digest_b64(data)),
                other => panic!("unexpected {:?}", other),
            }
        }
        _ => panic!("file not checked"),
    }
    assert_eq!(s.finish(), Err(UploadError::SizeMismatch));
}

#[test]
fn upload_hash_mismatch_keeps_existing_object() {
    let mut s = UploadSession::new(digest_b64(b"other"));
    send_size(&mut s, "+3");
    match s.begin_field(file_head("file")) {
        FieldAction::CheckFile { content_length, .. } => {
            assert_eq!(content_length, 3);
            let c = check(content_length, &[b"abc"]);
            assert!(matches!(s.finish_file(c, true), FinishAction::Keep));
        }
        _ => panic!("file not checked"),
    }
    assert_eq!(s.finish(), Err(UploadError::HashMismatch));
}

#[test]
fn upload_without_size_field() {
    let mut s = UploadSession::new("h".to_string());
    assert!(matches!(s.begin_field(file_head("file")), FieldAction::Drain));
    assert_eq!(s.finish(), Err(UploadError::MissingSize));
}

#[test]
fn upload_with_invalid_or_zero_size() {
    let mut s = UploadSession::new("h".to_string());
    send_size(&mut s, "12a");
    assert!(matches!(s.begin_field(file_head("file")), FieldAction::Drain));
    assert_eq!(s.finish(), Err(UploadError::InvalidSize));

    let mut s = UploadSession::new("h".to_string());
    send_size(&mut s, "0");
    assert!(matches!(s.begin_field(file_head("file")), FieldAction::Drain));
    assert_eq!(s.finish(), Err(UploadError::EmptyFile));
}

#[test]
fn later_size_field_replaces_earlier() {
    let data = b"xy";
    let mut s = UploadSession::new(digest_b64(data));
    send_size(&mut s, "5");
    send_size(&mut s, "2");
    match s.begin_field(file_head("file")) {
        FieldAction::CheckFile { content_length, .. } => assert_eq!(content_length, 2),
        _ => panic!("file not checked"),
    }
}

#[test]
fn size_field_is_used_up_by_the_file() {
    let mut s = UploadSession::new("h".to_string());
    send_size(&mut s, "2");
    assert!(matches!(s.begin_field(file_head("file")), FieldAction::CheckFile { .. }));
    // No outcome yet; a second file field finds no size any more.
    assert!(matches!(s.begin_field(file_head("file")), FieldAction::Drain));
    assert_eq!(s.finish(), Err(UploadError::MissingSize));
}

#[test]
fn other_fields_are_drained_or_collected() {
    let mut s = UploadSession::new("h".to_string());
    assert!(matches!(s.begin_field(file_head("avatar")), FieldAction::Drain));
    let nameless = FieldHead { has_file_name: false, content_type: None, name: None };
    assert!(matches!(s.begin_field(nameless), FieldAction::Drain));
    let no_type = FieldHead { has_file_name: true, content_type: None, name: Some("file".to_string()) };
    assert!(matches!(s.begin_field(no_type), FieldAction::CollectText { .. }));
    assert_eq!(s.finish(), Err(UploadError::NoFileField));
}

#[test]
fn text_field_must_be_utf8() {
    let mut s = UploadSession::new("h".to_string());
    assert_eq!(s.text_field("size".to_string(), vec![0xff, 0xfe]), Err(UploadError::InvalidText));
    assert_eq!(s.text_field("note".to_string(), "备注".as_bytes().to_vec()), Ok(()));
    assert_eq!(UploadError::InvalidText.message(), "invalid utf-8 in form field");
    assert_eq!(UploadError::NoFileField.message(), "Field \"file\" not found.");
}
