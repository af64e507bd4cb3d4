//! Revision history wire shapes.

use vstd::prelude::*;

verus! {

/// The standing of one revision in a document's history.
#[derive(Debug, Clone, Copy, PartialEq, Eq, Structural)]
pub enum RevisionStatus {
    /// Revision is available.
    Available,
    /// Revision has been deleted.
    Deleted,
    /// Revision is missing.
    Missing,
}

/// Information about a specific document revision.
#[derive(Debug, Clone, PartialEq, Eq)]
pub struct RevisionInfo {
    /// The revision identifier.
    pub rev: String,
    /// The status of this revision.
    pub status: RevisionStatus,
}

/// A document's revision history as the server reports it.
#[derive(Debug, Clone, PartialEq, Eq)]
pub struct DocumentRevisions {
    /// Document identity.
    pub id: crate::DocumentId,
    /// Current revision.
    pub rev: String,
    /// The revisions, newest first.
    pub revs_info: Vec<RevisionInfo>,
}

} // verus!
