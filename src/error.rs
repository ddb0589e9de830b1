use vstd::prelude::*;

verus! {

/// Why a run of the pipeline stopped. Every variant is terminal.
#[derive(Debug, PartialEq, Eq)]
pub enum PipelineError {
    /// The archive request failed: a non-success `status`, or an I/O `cause`.
    DownloadFailed { status: Option<u16>, cause: String },
    /// No archive entry lies under the requested variant folder.
    VariantNotFound { selector: String },
    /// A selected entry would be written outside the destination directory.
    UnsafeArchivePath { path: String },
    /// One of the two overlay files could not be copied.
    ConfigCopyFailed { which: String, cause: String },
    /// A file could not be read or written while placeholders were rewritten.
    PlaceholderRewriteFailed { path: String, cause: String },
    /// A directory of the destination tree could not be created.
    DirectoryCreationFailed { path: String, cause: String },
}

} // verus!
