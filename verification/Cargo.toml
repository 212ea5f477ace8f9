[package]
name = "object_storage"
version = "0.1.0"
edition = "2021"
publish = false

[dependencies]
base64 = "0.22"
rust-crypto = "0.2"
chrono = "0.4"
multer = "3"
http = "1"
headers = "0.4"
form_urlencoded = "1"
tihu = "*"
tihu-native = "*"
serde = { version = "1", features = ["derive"] }
serde_json = "1"
json5 = "0.4"
log = "0.4"
log4rs = "1"
anyhow = "1"
async-trait = "0.1"
futures = "0.3"
http-body-util = "0.1"
hyper = { version = "1", features = ["server", "http1", "http2"] }
hyper-util = { version = "0.1", features = ["tokio", "server-auto"] }
tokio = { version = "1", features = ["rt-multi-thread", "macros", "net"] }
aws-sdk-s3 = { version = "1", default-features = false, features = ["rt-tokio"] }
aws-types = "1"
