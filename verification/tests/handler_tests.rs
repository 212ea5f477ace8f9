use object_storage::config::{Config, Oss};
use object_storage::handler::{OssHandler, Route, BLOB_PREFIX};
use object_storage::server::adjust_error_code;

fn config() -> Config {
    Config {
        oss: Oss {
            access_key: "ak".to_string(),
            secret_key: "sk".to_string(),
            endpoint: "http://127.0.0.1:9000".to_string(),
            region: "us-east-1".to_string(),
            bucket: "files".to_string(),
        },
    }
}

fn handler() -> OssHandler<fn(i32) -> i32> {
    let mut h = OssHandler::try_init_from_config(config(), adjust_error_code as fn(i32) -> i32);
    h.add_get_mapping("/blob/img/".to_string(), "images/".to_string())
        .add_get_mapping("/blob/".to_string(), "".to_string())
        .add_upload_mapping("/api/oss/upload".to_string(), "uploads/".to_string())
        .set_delete_path("/api/oss/delete".to_string());
    h
}

#[test]
fn namespace_lists_paths_in_order() {
    let h = handler();
    let ns: Vec<&str> = h.namespace().iter().map(|s| s.as_str()).collect();
    assert_eq!(ns, vec!["/blob/img/", "/blob/", "/api/oss/upload"]);
}

#[test]
fn get_uses_first_matching_prefix() {
    let h = handler();
    match h.route("/blob/img/cat.png", None, None, None) {
        Route::Get { key, filename } => {
            assert_eq!(key, "images/cat.png");
            assert_eq!(filename, None);
        }
        other => panic!("unexpected {:?}", other),
    }
    match h.route("/blob/doc/a.txt", None, None, None) {
        Route::Get { key, .. } => assert_eq!(key, "doc/a.txt"),
        other => panic!("unexpected {:?}", other),
    }
}

#[test]
fn get_keeps_non_ascii_rest() {
    let h = handler();
    match h.route("/blob/图片.png", None, None, None) {
        Route::Get { key, .. } => assert_eq!(key, "图片.png"),
        other => panic!("unexpected {:?}", other),
    }
}

#[test]
fn get_with_empty_key_is_not_found() {
    let h = handler();
    assert!(matches!(h.route("/blob/", None, None, None), Route::NotFound));
}

#[test]
fn get_reads_last_filename_parameter() {
    let h = handler();
    match h.route("/blob/x", Some("a=1&filename=one.txt&filename=%E4%B8%AD.txt"), None, None) {
        Route::Get { key, filename } => {
            assert_eq!(key, "x");
            assert_eq!(filename.as_deref(), Some("中.txt"));
        }
        other => panic!("unexpected {:?}", other),
    }
}

#[test]
fn route_strips_handler_prefix() {
    let h = handler();
    match h.route("/oss/blob/a", None, Some("/oss"), None) {
        Route::Get { key, .. } => assert_eq!(key, "a"),
        other => panic!("unexpected {:?}", other),
    }
}

#[test]
fn upload_needs_hash_header() {
    let h = handler();
    match h.route("/api/oss/upload", None, None, Some(b"abc=")) {
        Route::Upload { key_prefix, hash } => {
            assert_eq!(key_prefix, "uploads/");
            assert_eq!(hash, "abc=");
        }
        other => panic!("unexpected {:?}", other),
    }
    assert!(matches!(h.route("/api/oss/upload", None, None, None), Route::BadRequest));
    assert!(matches!(h.route("/api/oss/upload", None, None, Some(&[0xe4, 0xb8, 0xad])), Route::BadRequest));
}

#[test]
fn delete_needs_hash_header() {
    let h = handler();
    match h.route("/api/oss/delete", None, None, Some(b"h")) {
        Route::Delete { hash } => assert_eq!(hash, "h"),
        other => panic!("unexpected {:?}", other),
    }
    assert!(matches!(h.route("/api/oss/delete", None, None, None), Route::BadRequest));
}

#[test]
fn unknown_path_is_not_found() {
    let h = handler();
    assert!(matches!(h.route("/api/oss/upload/x", None, None, Some(b"h")), Route::NotFound));
    assert!(matches!(h.route("/other", None, None, Some(b"h")), Route::NotFound));
}

#[test]
fn handler_context_keeps_settings() {
    let h = handler();
    assert_eq!(h.context().get_bucket(), "files");
    assert_eq!(BLOB_PREFIX, "/blob/");
}
