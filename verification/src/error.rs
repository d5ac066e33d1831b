//! The errors that the caches report.

use std::sync::Arc;
use vstd::prelude::*;

verus! {

/// `foyer::Error`, carried as an opaque value.
#[verifier::external_type_specification]
#[verifier::external_body]
pub struct ExFoyerError(foyer::Error);

/// An error of this library.
#[derive(Debug)]
pub enum SlateDBError {
    /// A background task can no longer run; the text says which.
    BackgroundTaskCancelled(String),
    /// A load through the foyer cache failed.
    FoyerError(Arc<foyer::Error>),
}

} // verus!
