//! The error taxonomy of the retrieval engine.
//!
//! Every failure of a retrieval call is one of these variants; none is
//! swallowed or retried inside the library.

use vstd::prelude::*;

verus! {

/// The ways a retrieval can fail.
#[derive(Debug, Clone)]
pub enum RetrievalError {
    /// The identity does not name exactly one of `uid` / `name` plus `version`.
    /// Raised before any network call.
    InvalidIdentity,
    /// A network or connection failure, with the underlying cause's text.
    Transport(String),
    /// The metadata endpoint's body was not a well-formed metadata document.
    MetadataParse(String),
    /// The listing endpoint's body was not a well-formed listing document,
    /// or the listing request came back with a non-success status.
    Listing(String),
    /// The requested exported or quantized variant is absent from the metadata.
    MissingVariant,
    /// A listed remote file does not lie under the expected remote root.
    PathMapping(String),
    /// A file fetch came back with a non-success status; carries the
    /// server's error text.
    Download(String),
}

impl RetrievalError {
    /// A short label naming the variant, for messages assembled by callers.
    pub fn label(&self) -> (r: &'static str)
        ensures
            r@ == self.spec_label(),
    {
        match self {
            RetrievalError::InvalidIdentity => "invalid identity",
            RetrievalError::Transport(_) => "transport failure",
            RetrievalError::MetadataParse(_) => "metadata parse failure",
            RetrievalError::Listing(_) => "listing failure",
            RetrievalError::MissingVariant => "missing variant",
            RetrievalError::PathMapping(_) => "path mapping failure",
            RetrievalError::Download(_) => "download failure",
        }
    }

    /// The label owed by `label`, one distinct text per variant.
    pub open spec fn spec_label(&self) -> Seq<char> {
        match self {
            RetrievalError::InvalidIdentity => "invalid identity"@,
            RetrievalError::Transport(_) => "transport failure"@,
            RetrievalError::MetadataParse(_) => "metadata parse failure"@,
            RetrievalError::Listing(_) => "listing failure"@,
            RetrievalError::MissingVariant => "missing variant"@,
            RetrievalError::PathMapping(_) => "path mapping failure"@,
            RetrievalError::Download(_) => "download failure"@,
        }
    }
}

} // verus!
