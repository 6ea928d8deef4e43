//! Finding and removing corrupted artifacts in a local package repository.
use vstd::prelude::*;

pub mod clean;
pub mod locate;
pub mod scan;
pub mod settings;
pub mod text;

verus! {

/// One corrupted artifact found by a scan.
#[derive(Clone, Debug)]
pub struct InvalidArtifact {
    /// The directory that holds the artifact's files.
    pub folder: String,
    /// The file name shared by the artifact's files, without its kind suffix.
    pub base_name: String,
    /// Why the artifact was judged corrupted.
    pub reason: String,
}

/// An artifact that a caller asks to remove.
#[derive(Clone, Debug)]
pub struct CleanItem {
    /// The directory that holds the artifact's files.
    pub folder: String,
    /// The prefix that names the artifact's files.
    pub base_name: String,
}

/// What one clean run did.
#[derive(Clone, Debug)]
pub struct CleanResult {
    /// How many files were deleted.
    pub deleted_count: usize,
    /// One message for each folder that could not be listed or file that could
    /// not be deleted, in the order they happened.
    pub errors: Vec<String>,
}

} // verus!
