//! What an injection run is asked to do.

use vstd::prelude::*;

use crate::error::{ErrorView, InjectError};

verus! {

/// How a release is associated with exceptions.
#[derive(Debug, Clone, Copy, PartialEq, Eq, Structural)]
pub enum ReleaseMode {
    /// The release id goes into each chunk, for the SDK to emit with every exception, and chunk
    /// ids are derived from content.
    Event,
    /// The release id is stamped into the source map, which binds the uploaded symbol set to it.
    SymbolSet,
}

/// The files to work on.
#[derive(Debug)]
pub struct FileSelectionArgs {
    /// The selected roots.
    pub directory: Vec<String>,
    /// What makes the selection unusable, if anything does.
    pub defect: Option<String>,
}

/// The release to inject, as far as flags name it.
#[derive(Debug)]
pub struct ReleaseArgs {
    pub name: Option<String>,
    pub version: Option<String>,
    pub build: Option<String>,
    /// The property list that name, version and build are read from where flags leave them out.
    pub info_plist: Option<String>,
    pub skip_release_on_fail: bool,
}

/// The arguments of an injection run.
#[derive(Debug)]
pub struct InjectArgs {
    pub file_selection: FileSelectionArgs,
    /// The public path that the bundler puts before source map URLs, to be ignored in searching
    /// for them.
    pub public_path_prefix: Option<String>,
    pub release: ReleaseArgs,
    pub release_mode: ReleaseMode,
}

impl FileSelectionArgs {
    /// Refuses an unusable selection.
    pub fn validate(&self) -> (result: Result<(), InjectError>)
        ensures
            match (result, self.defect) {
                (Ok(_), None) => true,
                (Err(error), Some(defect)) => error@ == (ErrorView::Selection { cause: defect@ }),
                _ => false,
            },
    {
        match &self.defect {
            Some(defect) => Err(InjectError::Selection { cause: defect.clone() }),
            None => Ok(()),
        }
    }
}

impl InjectArgs {
    /// Refuses an unusable file selection; nothing else is checked.
    pub fn validate(&self) -> (result: Result<(), InjectError>)
        ensures
            match (result, self.file_selection.defect) {
                (Ok(_), None) => true,
                (Err(error), Some(defect)) => error@ == (ErrorView::Selection { cause: defect@ }),
                _ => false,
            },
    {
        self.file_selection.validate()
    }
}

} // verus!
