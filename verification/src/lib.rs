//! A client-side layer for a JSON document database: document identity,
//! bulk-write reconciliation, result-collection assembly and view-row
//! decoding, specified and verified over a plain JSON value model.

pub mod database;
pub mod document;
pub mod error;
pub mod json;
pub mod types;

use vstd::prelude::*;

verus! {

/// The primary key of a document, unique within its database.
pub type DocumentId = String;

} // verus!
