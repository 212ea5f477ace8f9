use base64::engine::Engine;
use base64::prelude::BASE64_STANDARD;
use object_storage::env_config::{config_from_key, config_from_origin, OriginConfig, Oss, DEFAULT_PORT};

fn oss() -> Oss {
    Oss {
        access_key: "ak".to_string(),
        secret_key: "sk".to_string(),
        endpoint: "http://127.0.0.1:9000".to_string(),
        region: "us-east-1".to_string(),
        bucket: "files".to_string(),
    }
}

fn origin(aes_key: String, port: Option<u16>) -> OriginConfig {
    OriginConfig {
        host: Some("127.0.0.1".to_string()),
        port,
        log_cfg_path: Some("log4rs.yaml".to_string()),
        aes_key,
        oss: oss(),
    }
}

#[test]
fn config_with_valid_key() {
    let key: Vec<u8> = (0u8..32).collect();
    let cfg = config_from_origin(origin(BASE64_STANDARD.encode(&key), Some(8080)), Some([127, 0, 0, 1])).unwrap();
    assert_eq!(cfg.aes_key.to_vec(), key);
    assert_eq!(cfg.host, [127, 0, 0, 1]);
    assert_eq!(cfg.port, 8080);
    assert_eq!(cfg.log_cfg_path.as_deref(), Some("log4rs.yaml"));
    assert_eq!(cfg.oss.bucket, "files");
}

#[test]
fn config_defaults_port_and_host() {
    let key = [7u8; 32];
    let cfg = config_from_origin(origin(BASE64_STANDARD.encode(key), None), None).unwrap();
    assert_eq!(cfg.port, 80);
    assert_eq!(DEFAULT_PORT, 80);
    assert_eq!(cfg.host, [0, 0, 0, 0]);
}

#[test]
fn config_refuses_key_that_is_not_base64() {
    let err = config_from_origin(origin("not base64!".to_string(), None), None).unwrap_err();
    assert_eq!(err, "通信秘钥格式格式错误");
}

#[test]
fn config_refuses_key_of_wrong_length() {
    let err = config_from_origin(origin(BASE64_STANDARD.encode([1u8; 16]), None), None).unwrap_err();
    assert_eq!(err, "通信秘钥必须是256位");
    let err = config_from_origin(origin(BASE64_STANDARD.encode([1u8; 33]), None), None).unwrap_err();
    assert_eq!(err, "通信秘钥必须是256位");
}

#[test]
fn config_from_decoded_key_bytes() {
    let cfg = config_from_key(origin(String::new(), Some(9)), Some(vec![4u8; 32]), Some([10, 0, 0, 1])).unwrap();
    assert_eq!(cfg.aes_key, [4u8; 32]);
    assert_eq!(cfg.port, 9);
    assert_eq!(cfg.host, [10, 0, 0, 1]);
    assert_eq!(config_from_key(origin(String::new(), None), None, None).unwrap_err(), "通信秘钥格式格式错误");
    assert_eq!(config_from_key(origin(String::new(), None), Some(vec![1; 31]), None).unwrap_err(), "通信秘钥必须是256位");
}
