//! The compression strategy: turns the classifier's verdict into the
//! concrete per-file encoding options the archive writer applies.

use vstd::prelude::*;
use crate::file_type::spec_should_store_raw;
use crate::file_type::should_store_raw;

verus! {

/// POSIX permission bits attached to every emitted entry.
pub const ENTRY_PERMISSIONS: u32 = 0o644;

/// The closed set of entry encodings the archive container offers here.
#[derive(Clone, Copy, Debug, PartialEq, Eq, Structural)]
pub enum CompressionMethod {
    /// The bytes go in raw.
    Stored,
    /// The bytes go through deflate.
    Deflated,
}

/// The concrete encoding of one entry: method, deflate level (absent for
/// stored entries) and POSIX permission bits. Derived freshly per file;
/// never cached, because the decision is path-dependent.
#[derive(Clone, Debug, PartialEq, Eq)]
pub struct CompressionOptions {
    pub method: CompressionMethod,
    pub level: Option<i64>,
    pub permissions: u32,
}

/// The options the strategy derives for a file: store raw when the
/// classifier says so, else deflate at the configured level.
pub open spec fn spec_options_for(level: i64, p: Seq<char>, size: Option<u64>) -> CompressionOptions {
    if spec_should_store_raw(p, size) {
        CompressionOptions {
            method: CompressionMethod::Stored,
            level: Option::None,
            permissions: ENTRY_PERMISSIONS,
        }
    } else {
        CompressionOptions {
            method: CompressionMethod::Deflated,
            level: Option::Some(level),
            permissions: ENTRY_PERMISSIONS,
        }
    }
}

/// Wraps the classifier with a configured deflate level. Stateless aside
/// from the level; shared read-only across all worker threads.
pub struct CompressionStrategy {
    pub level: i64,
}

impl CompressionStrategy {
    /// A strategy that deflates at `level` whatever the classifier sends
    /// to the codec.
    pub fn new(level: i64) -> (r: Self)
        ensures
            r.level == level,
    {
        Self { level }
    }

    /// The encoding options for one file, decided from its path and its
    /// byte count when known.
    pub fn get_options(&self, path: &str, size: Option<u64>) -> (r: CompressionOptions)
        ensures
            r == spec_options_for(self.level, path@, size),
    {
        if should_store_raw(path, size) {
            CompressionOptions {
                method: CompressionMethod::Stored,
                level: None,
                permissions: ENTRY_PERMISSIONS,
            }
        } else {
            CompressionOptions {
                method: CompressionMethod::Deflated,
                level: Some(self.level),
                permissions: ENTRY_PERMISSIONS,
            }
        }
    }
}

} // verus!
