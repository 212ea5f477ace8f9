//! Request routing, upload checking, access-token checking and response
//! framing for an object storage gateway, with their contracts proved by Verus.

pub mod codec;
pub mod config;
pub mod context;
pub mod env_config;
pub mod handler;
pub mod sdk;
pub mod server;
pub mod storage;
pub mod text;
