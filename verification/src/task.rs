//! The unit of work crossing the channel, and the dispatch-side
//! decisions: read strategy, channel capacity, source validation.

use vstd::prelude::*;
use crate::error::ZipError;
use crate::paths::archive_name;
use crate::paths::sanitize_chars;
use crate::paths::spec_is_under;
use crate::paths::spec_rel_of;

verus! {

/// Files above this many bytes are read through a memory map; the rest
/// go through a plain buffered read.
pub const LARGE_FILE_LIMIT: u64 = 10485760;

/// Addition on u64 that tops out instead of wrapping.
pub open spec fn sat_add_u64(a: u64, b: u64) -> u64 {
    if a + b > u64::MAX {
        u64::MAX
    } else {
        (a + b) as u64
    }
}

/// One unit of work: the owned bytes of one file, its archive-relative
/// name, the source path the writer re-derives the encoding from, and
/// the original byte count kept only when detailed statistics were
/// requested. Created by a dispatcher, consumed exactly once by the
/// writer.
#[derive(Debug, Clone)]
pub struct CompressionTask {
    pub path: String,
    pub name: String,
    pub data: Vec<u8>,
    pub original_size: Option<u64>,
}

/// How a dispatcher reads one file.
#[derive(Clone, Copy, Debug, PartialEq, Eq, Structural)]
pub enum ReadStrategy {
    /// A read-only memory map, copied out before the mapping drops.
    MemoryMap,
    /// A plain read into a heap buffer.
    Buffered,
}

/// Large files are mapped, small ones read directly.
pub fn read_strategy_for(size: u64) -> (r: ReadStrategy)
    ensures
        r == (if size > LARGE_FILE_LIMIT {
            ReadStrategy::MemoryMap
        } else {
            ReadStrategy::Buffered
        }),
{
    if size > LARGE_FILE_LIMIT {
        ReadStrategy::MemoryMap
    } else {
        ReadStrategy::Buffered
    }
}

/// The bounded channel's capacity: two outstanding tasks per worker.
pub fn channel_capacity(threads: usize) -> (r: usize)
    requires
        threads <= usize::MAX / 2,
    ensures
        r == threads * 2,
{
    threads * 2
}

/// Rejects a source that is not a directory, before any destination file
/// is touched. The caller hands in what the filesystem said of the path.
pub fn check_source(is_dir: bool, path: &str) -> (r: Result<(), ZipError>)
    ensures
        match r {
            Ok(()) => is_dir,
            Err(e) => !is_dir && (e matches ZipError::FileNotFound(s) && s@ == path@),
        },
{
    if is_dir {
        Ok(())
    } else {
        Err(ZipError::FileNotFound(path.to_owned()))
    }
}

/// Builds the task for one discovered file from its path, the source
/// root, its bytes, and its stat-reported size. The archive-relative
/// name is derived here, with separators normalized to `/` whatever the
/// host convention; a path outside the root is refused.
pub fn make_task(path: &str, root: &str, data: Vec<u8>, detail: bool, file_size: u64) -> (r: Result<
    CompressionTask,
    ZipError,
>)
    ensures
        match r {
            Ok(t) => {
                &&& spec_is_under(sanitize_chars(path@), sanitize_chars(root@))
                &&& t.path@ == path@
                &&& t.name@ == spec_rel_of(sanitize_chars(path@), sanitize_chars(root@))
                &&& t.data@ == data@
                &&& t.original_size == Some(
                    if detail {
                        file_size
                    } else {
                        0
                    },
                )
            },
            Err(e) => {
                &&& !spec_is_under(sanitize_chars(path@), sanitize_chars(root@))
                &&& e matches ZipError::PathError(s) && s@ == path@
            },
        },
{
    let name = match archive_name(path, root) {
        Ok(n) => n,
        Err(e) => {
            return Err(e);
        },
    };
    let original_size = if detail {
        file_size
    } else {
        0
    };
    Ok(
        CompressionTask {
            path: path.to_owned(),
            name,
            data,
            original_size: Some(original_size),
        },
    )
}

} // verus!
