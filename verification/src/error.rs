//! What can go wrong, and how it is reported.

use vstd::prelude::*;

use crate::text;

verus! {

/// A failure of an injection run. A `cause` is the text of the failure underneath.
#[derive(Debug)]
pub enum InjectError {
    /// The file selection is unusable.
    Selection { cause: String },
    /// The selection holds no source file.
    NoSourceFiles,
    /// A chunk that carries a payload was to be given another.
    ChunkIdAlreadySet,
    /// A chunk id was to be removed from a chunk that does not carry it.
    ChunkIdMismatch,
    /// A chunk or its source map could not be edited.
    EditPair { cause: String },
    /// A service-worker manifest could not be read.
    ReadManifest { path: String, cause: String },
    /// A service-worker manifest is no JSON.
    ParseManifest { path: String, cause: String },
    /// A service-worker manifest has no table of hashes.
    NoHashTable { path: String },
    /// The directory of a service-worker manifest could not be resolved.
    ResolveBuildDirectory { path: String, cause: String },
    /// A rewritten file could not be resolved.
    ResolveRewrittenFile { path: String, cause: String },
    /// A rewritten file could not be read for hashing.
    HashRewrittenFile { path: String, cause: String },
    /// More than one manifest entry could stand for a rewritten file.
    AmbiguousManifestEntry { relative_url: String, matches: Vec<String> },
    /// A repaired manifest could not be written as JSON.
    SerializeManifest { cause: String },
    /// The release fields are incomplete and git cannot fill them in.
    IncompleteRelease,
    /// Git was needed for the release fields and failed.
    GitInfo { cause: String },
}

/// An error as the contracts see it.
#[verifier::ext_equal]
pub enum ErrorView {
    Selection { cause: Seq<char> },
    NoSourceFiles,
    ChunkIdAlreadySet,
    ChunkIdMismatch,
    EditPair { cause: Seq<char> },
    ReadManifest { path: Seq<char>, cause: Seq<char> },
    ParseManifest { path: Seq<char>, cause: Seq<char> },
    NoHashTable { path: Seq<char> },
    ResolveBuildDirectory { path: Seq<char>, cause: Seq<char> },
    ResolveRewrittenFile { path: Seq<char>, cause: Seq<char> },
    HashRewrittenFile { path: Seq<char>, cause: Seq<char> },
    AmbiguousManifestEntry { relative_url: Seq<char>, matches: Seq<Seq<char>> },
    SerializeManifest { cause: Seq<char> },
    IncompleteRelease,
    GitInfo { cause: Seq<char> },
}

impl View for InjectError {
    type V = ErrorView;

    open spec fn view(&self) -> ErrorView {
        match *self {
            InjectError::Selection { cause } => ErrorView::Selection { cause: cause@ },
            InjectError::NoSourceFiles => ErrorView::NoSourceFiles,
            InjectError::ChunkIdAlreadySet => ErrorView::ChunkIdAlreadySet,
            InjectError::ChunkIdMismatch => ErrorView::ChunkIdMismatch,
            InjectError::EditPair { cause } => ErrorView::EditPair { cause: cause@ },
            InjectError::ReadManifest { path, cause } => ErrorView::ReadManifest {
                path: path@,
                cause: cause@,
            },
            InjectError::ParseManifest { path, cause } => ErrorView::ParseManifest {
                path: path@,
                cause: cause@,
            },
            InjectError::NoHashTable { path } => ErrorView::NoHashTable { path: path@ },
            InjectError::ResolveBuildDirectory { path, cause } =>
                ErrorView::ResolveBuildDirectory { path: path@, cause: cause@ },
            InjectError::ResolveRewrittenFile { path, cause } =>
                ErrorView::ResolveRewrittenFile { path: path@, cause: cause@ },
            InjectError::HashRewrittenFile { path, cause } => ErrorView::HashRewrittenFile {
                path: path@,
                cause: cause@,
            },
            InjectError::AmbiguousManifestEntry { relative_url, matches } =>
                ErrorView::AmbiguousManifestEntry {
                    relative_url: relative_url@,
                    matches: text::texts(matches@),
                },
            InjectError::SerializeManifest { cause } => ErrorView::SerializeManifest {
                cause: cause@,
            },
            InjectError::IncompleteRelease => ErrorView::IncompleteRelease,
            InjectError::GitInfo { cause } => ErrorView::GitInfo { cause: cause@ },
        }
    }
}

/// The message of an error, without the failure underneath.
pub open spec fn error_message(error: ErrorView) -> Seq<char> {
    match error {
        ErrorView::Selection { cause } => cause,
        ErrorView::NoSourceFiles => "no source files found"@,
        ErrorView::ChunkIdAlreadySet => "Chunk ID already set"@,
        ErrorView::ChunkIdMismatch => "Chunk ID mismatch"@,
        ErrorView::EditPair { cause } => cause,
        ErrorView::ReadManifest { path, cause } => "Failed to read "@ + path,
        ErrorView::ParseManifest { path, cause } => "Failed to parse "@ + path,
        ErrorView::NoHashTable { path } => path + " has no hashTable object"@,
        ErrorView::ResolveBuildDirectory { path, cause } =>
            "Failed to resolve Angular build directory "@ + path,
        ErrorView::ResolveRewrittenFile { path, cause } =>
            "Failed to resolve rewritten file "@ + path,
        ErrorView::HashRewrittenFile { path, cause } => "Failed to hash rewritten file "@ + path,
        ErrorView::AmbiguousManifestEntry { relative_url, matches } =>
            "Angular service-worker manifest has multiple entries matching "@ + relative_url
                + ": "@ + text::joined(matches, ", "@),
        ErrorView::SerializeManifest { cause } => cause,
        ErrorView::IncompleteRelease =>
            "Release fields are incomplete and git info is unavailable. Provide both --release-name and --release-version, or run from a git repository or supported CI environment."@,
        ErrorView::GitInfo { cause } => "Failed to determine git info for release"@,
    }
}

/// The failure underneath, where the message does not already give it.
pub open spec fn error_cause(error: ErrorView) -> Option<Seq<char>> {
    match error {
        ErrorView::ReadManifest { path, cause } => Some(cause),
        ErrorView::ParseManifest { path, cause } => Some(cause),
        ErrorView::ResolveBuildDirectory { path, cause } => Some(cause),
        ErrorView::ResolveRewrittenFile { path, cause } => Some(cause),
        ErrorView::HashRewrittenFile { path, cause } => Some(cause),
        ErrorView::GitInfo { cause } => Some(cause),
        _ => None,
    }
}

/// The message, with the failure underneath behind a colon where there is one.
pub open spec fn error_report(error: ErrorView) -> Seq<char> {
    match error_cause(error) {
        Some(cause) => error_message(error) + ": "@ + cause,
        None => error_message(error),
    }
}

impl InjectError {
    /// The message of the error, without the failure underneath.
    pub fn message(&self) -> (text: String)
        ensures
            text@ == error_message(self@),
    {
        match self {
            InjectError::Selection { cause } => cause.clone(),
            InjectError::NoSourceFiles => "no source files found".to_string(),
            InjectError::ChunkIdAlreadySet => "Chunk ID already set".to_string(),
            InjectError::ChunkIdMismatch => "Chunk ID mismatch".to_string(),
            InjectError::EditPair { cause } => cause.clone(),
            InjectError::ReadManifest { path, cause: _ } =>
                "Failed to read ".to_string().concat(path.as_str()),
            InjectError::ParseManifest { path, cause: _ } =>
                "Failed to parse ".to_string().concat(path.as_str()),
            InjectError::NoHashTable { path } => path.clone().concat(" has no hashTable object"),
            InjectError::ResolveBuildDirectory { path, cause: _ } =>
                "Failed to resolve Angular build directory ".to_string().concat(path.as_str()),
            InjectError::ResolveRewrittenFile { path, cause: _ } =>
                "Failed to resolve rewritten file ".to_string().concat(path.as_str()),
            InjectError::HashRewrittenFile { path, cause: _ } =>
                "Failed to hash rewritten file ".to_string().concat(path.as_str()),
            InjectError::AmbiguousManifestEntry { relative_url, matches } => {
                let list = text::join(matches.as_slice(), ", ");
                "Angular service-worker manifest has multiple entries matching ".to_string().concat(
                    relative_url.as_str(),
                ).concat(": ").concat(list.as_str())
            },
            InjectError::SerializeManifest { cause } => cause.clone(),
            InjectError::IncompleteRelease =>
                "Release fields are incomplete and git info is unavailable. Provide both --release-name and --release-version, or run from a git repository or supported CI environment.".to_string(),
            InjectError::GitInfo { cause: _ } =>
                "Failed to determine git info for release".to_string(),
        }
    }

    /// The failure underneath, where the message does not already give it.
    pub fn cause(&self) -> (text: Option<String>)
        ensures
            text::opt_text(text) == error_cause(self@),
    {
        match self {
            InjectError::ReadManifest { path: _, cause } => Some(cause.clone()),
            InjectError::ParseManifest { path: _, cause } => Some(cause.clone()),
            InjectError::ResolveBuildDirectory { path: _, cause } => Some(cause.clone()),
            InjectError::ResolveRewrittenFile { path: _, cause } => Some(cause.clone()),
            InjectError::HashRewrittenFile { path: _, cause } => Some(cause.clone()),
            InjectError::GitInfo { cause } => Some(cause.clone()),
            _ => None,
        }
    }

    /// The message, followed by the failure underneath where there is one.
    pub fn report(&self) -> (text: String)
        ensures
            text@ == error_report(self@),
    {
        let message = self.message();
        match self.cause() {
            Some(cause) => message.concat(": ").concat(cause.as_str()),
            None => message,
        }
    }
}

} // verus!
