//! Errors that stop the processing of a manifest.
use vstd::prelude::*;

verus! {

/// A manifest-level failure. An entry-level failure is a `ReifyFail`
/// instead, and never aborts a run.
#[derive(Debug)]
pub enum Error {
    /// The document could not be read as structured text; the parser's message.
    LoadYaml(String),
    /// The document is not a list of entries.
    ManifestMalformed,
    /// An entry has no `cmd` string.
    MissingCmd,
    /// Reading, writing or running failed; the system's message.
    Io(String),
    /// A manifest path given on the command line does not exist.
    ManifestFileDoesntExist(String),
    /// A manifest path has no parent directory.
    InvalidPath(String),
}

} // verus!
