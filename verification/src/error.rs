//! The error kinds that the pipeline surfaces to its caller.

use vstd::prelude::*;

verus! {

/// One error of the archival pipeline. Each variant carries the context
/// (a path, a message) that the failing stage attached.
#[derive(Debug, Clone)]
pub enum ZipError {
    /// A filesystem operation (open, read, stat) failed.
    Io(String),
    /// The codec or the archive stream refused a write.
    Compression(String),
    /// The source path does not exist or is not a directory.
    FileNotFound(String),
    /// A discovered file was not under the declared source root.
    PathError(String),
    /// The writer thread ended abnormally.
    ThreadError(String),
}

impl ZipError {
    /// The context string the variant carries.
    pub fn detail(&self) -> (r: &String)
        ensures
            r == match self {
                ZipError::Io(s) => s,
                ZipError::Compression(s) => s,
                ZipError::FileNotFound(s) => s,
                ZipError::PathError(s) => s,
                ZipError::ThreadError(s) => s,
            },
    {
        match self {
            ZipError::Io(s) => s,
            ZipError::Compression(s) => s,
            ZipError::FileNotFound(s) => s,
            ZipError::PathError(s) => s,
            ZipError::ThreadError(s) => s,
        }
    }
}

} // verus!
