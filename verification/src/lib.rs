//! Client-side retrieval engine for a remote model registry.
//!
//! Given a model identity (a unique id, or a name together with a version),
//! the library resolves a metadata document describing where the model's
//! files live, decides which file variant to fetch, and plans the mirroring
//! of the remote file tree onto local disk. All network and file system
//! work is left to the calling program; this crate holds the decisions,
//! the document codec and the path arithmetic, each with a proved contract.

pub mod downloader;
pub mod errors;
pub mod json;
pub mod listing;
pub mod metadata;
pub mod pathmap;
pub mod routes;
pub mod types;
pub mod utils;

use vstd::prelude::*;

verus! {

/// True exactly for the HTTP status codes that the registry treats as success.
pub open spec fn spec_is_success_status(status: u16) -> bool {
    200 <= status < 300
}

/// Success test applied to every registry response before its body is used.
pub fn is_success_status(status: u16) -> (r: bool)
    ensures
        r == spec_is_success_status(status),
{
    200 <= status && status < 300
}

} // verus!
