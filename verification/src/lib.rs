//! A parallel directory-to-zip archiver's verified core.
//!
//! The library holds the logic of the pipeline: the extension classifier
//! and the compression strategy, the scanner's accounting, archive-relative
//! naming, task construction, and the single serializing writer that owns
//! the archive stream and finalizes the container. Entries are recorded in
//! the order the writer receives them; with one worker that is discovery
//! order, with many it is completion order, and the multiset of contents
//! is the same either way. File and thread plumbing stays outside; it
//! hands the library plain values and checks each function's conditions
//! before calling.

pub mod error;
pub mod file_type;
pub mod paths;
pub mod scanner;
pub mod strategy;
pub mod task;
pub mod zipio;
pub mod writer;
