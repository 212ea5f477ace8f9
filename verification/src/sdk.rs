//! The request and answer types of the storage API, as clients see them.

use vstd::prelude::*;

verus! {

/// A fetch: the key of the object.
#[derive(Debug)]
pub struct GetReq {
    pub key: String,
}

/// The path of the upload API.
pub const UPLOAD_API: &'static str = "/api/oss/upload";

/// The path of the delete API.
pub const DELETE_API: &'static str = "/api/oss/delete";

/// A delete: the key of the object.
#[derive(Debug)]
pub struct DeleteReq {
    pub key: String,
}

/// The answer data of a delete.
pub type DeleteResp = bool;

/// The delete API: its input is a `DeleteReq`, its answer a `DeleteResp`.
pub struct DeleteApi;

impl DeleteApi {
    /// The path the delete API is served at.
    pub fn namespace() -> (r: &'static str)
        ensures
            r@ == DELETE_API@,
    {
        DELETE_API
    }
}

} // verus!
