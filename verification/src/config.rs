//! Settings of the object storage handler.

use vstd::prelude::*;

verus! {

/// Where the objects are kept and how to sign in to that service.
#[derive(Clone, Debug)]
pub struct Oss {
    pub access_key: String,
    pub secret_key: String,
    pub endpoint: String,
    pub region: String,
    pub bucket: String,
}

/// Settings of the object storage handler.
#[derive(Debug)]
pub struct Config {
    pub oss: Oss,
}

} // verus!
