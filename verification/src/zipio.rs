//! The trusted boundary: what the library asks of the zip crate and of
//! the parts of std that vstd leaves unspecified.
//!
//! The archive stream is modeled as the sequence of entries recorded in
//! it so far, plus whether an entry is still open for writing; each
//! wrapper below states, over that model, what the zip crate's source
//! shows of the one call its body makes — both what success records and
//! on which arguments success is owed. The stream builds the archive in
//! an in-memory buffer; it reaches disk only as the one value that
//! `zw_finish` hands back, so memory holds the whole archive until then.

use vstd::prelude::*;
use vstd::utf8::encode_utf8;
use std::io::Cursor;
use std::io::Write;
use zip::ZipWriter;
use crate::error::ZipError;
use crate::strategy::CompressionMethod;
use crate::strategy::CompressionOptions;

verus! {

/// The most bytes one entry may carry for the stream to be sure to take
/// it: 3.5 GiB. The archive's plain size fields hold values up to
/// 4 GiB − 1, and the zip crate refuses an entry that crosses them
/// without the large-file option — raw bytes at write time, the encoded
/// form when the entry is closed. The codec's own bound on the encoded
/// form (zlib-rs's compress_bound: the input plus an eighth plus a few
/// bytes) keeps 3.5 GiB of input safely under the fields.
pub const ENTRY_DATA_LIMIT: u64 = 0xE000_0000;

/// Whether the archive format's name field can hold this name: its
/// UTF-8 form is at most 65535 bytes.
pub open spec fn entry_name_fits(name: Seq<char>) -> bool {
    encode_utf8(name).len() <= 65535
}

/// Options the stream is sure to accept: stored bytes carry no level,
/// and a deflate level lies in the codec's plain range.
pub open spec fn options_accepted(o: CompressionOptions) -> bool {
    match o.method {
        CompressionMethod::Stored => o.level is None,
        CompressionMethod::Deflated => o.level matches Option::Some(l) && 1 <= l <= 9,
    }
}

/// The archive stream: exclusive owner of the zip writer over an
/// in-memory buffer. Verus sees it only through `zip_entries`,
/// `zip_open` and the wrappers below; its one field stays opaque.
#[verifier::external_body]
pub struct ArchiveStream {
    inner: ZipWriter<Cursor<Vec<u8>>>,
}

/// One entry as the writer recorded it: its archive-relative name, its
/// raw bytes, and the encoding options it was opened with. zip keeps
/// only the low bits of the permissions.
pub ghost struct EntryModel {
    pub name: Seq<char>,
    pub data: Seq<u8>,
    pub method: CompressionMethod,
    pub level: Option<i64>,
    pub permissions: u32,
}

/// One entry as a reader of the finished archive reports it: the name,
/// the decompressed bytes, and the method. The deflate level is spent in
/// the encoding and is not read back.
pub ghost struct ReadEntry {
    pub name: Seq<char>,
    pub data: Seq<u8>,
    pub method: CompressionMethod,
}

/// What a reader reports of a recorded entry.
pub open spec fn read_view(e: EntryModel) -> ReadEntry {
    ReadEntry { name: e.name, data: e.data, method: e.method }
}

/// The entries recorded so far in an archive stream.
pub uninterp spec fn zip_entries(w: ArchiveStream) -> Seq<EntryModel>;

/// Whether the last recorded entry is still open for writing.
pub uninterp spec fn zip_open(w: ArchiveStream) -> bool;

/// The entries a reader of a finished archive reports, in order.
pub uninterp spec fn archive_entries(bytes: Seq<u8>) -> Seq<ReadEntry>;

/// A stream that will take whatever closes the open entry: either no
/// entry is open, or the open one's bytes leave the codec room under the
/// size fields.
pub open spec fn stream_ready(w: ArchiveStream) -> bool {
    zip_open(w) ==> zip_entries(w).len() > 0 && zip_entries(w).last().data.len()
        <= ENTRY_DATA_LIMIT
}

/// Relies on zip's ZipWriter::new: a fresh stream holds no entries and
/// none is open.
#[verifier::external_body]
pub(crate) fn zw_new() -> (w: ArchiveStream)
    ensures
        zip_entries(w) == Seq::<EntryModel>::empty(),
        !zip_open(w),
{
    ArchiveStream { inner: ZipWriter::new(Cursor::new(Vec::new())) }
}

/// Relies on zip's ZipWriter::start_file: on success it closes the entry
/// open before it and opens a new, still-empty entry under `name` with
/// the given method, level and permissions; a name already in the
/// archive is refused, so success also says the name was fresh. Success
/// is owed when the stream is ready, the name is fresh and fits the
/// format's name field, and the options are ones the stream accepts —
/// writing goes to memory, so nothing else can refuse it.
#[verifier::external_body]
pub(crate) fn zw_start_file(w: &mut ArchiveStream, name: &str, opts: &CompressionOptions) -> (r: Result<(), ZipError>)
    ensures
        r is Ok ==> zip_entries(*final(w)) == zip_entries(*old(w)).push(
            (EntryModel {
                name: name@,
                data: Seq::empty(),
                method: opts.method,
                level: opts.level,
                permissions: opts.permissions,
            }),
        ),
        r is Ok ==> forall|i: int|
            0 <= i < zip_entries(*old(w)).len() ==> (#[trigger] zip_entries(*old(w))[i]).name
                != name@,
        r is Ok ==> zip_open(*final(w)),
        ({
            &&& stream_ready(*old(w))
            &&& entry_name_fits(name@)
            &&& options_accepted(*opts)
            &&& forall|i: int|
                0 <= i < zip_entries(*old(w)).len() ==> (#[trigger] zip_entries(*old(w))[i]).name
                    != name@
        }) ==> r is Ok,
{
    let mut o = zip::write::SimpleFileOptions::default().unix_permissions(opts.permissions);
    o = match opts.method {
        CompressionMethod::Stored => o.compression_method(zip::CompressionMethod::Stored),
        CompressionMethod::Deflated => o.compression_method(zip::CompressionMethod::Deflated),
    };
    o = o.compression_level(opts.level);
    match w.inner.start_file(name, o) {
        Ok(()) => Ok(()),
        Err(e) => Err(ZipError::Compression(format!("{}", e))),
    }
}

/// Relies on the Write impl of zip's ZipWriter: on success write_all
/// appended exactly these bytes to the entry start_file opened last, and
/// whether an entry is open is unchanged; it refuses to write when no
/// entry is open. Success is owed when an entry is open and its bytes
/// stay within the format's plain size field.
#[verifier::external_body]
pub(crate) fn zw_write_all(w: &mut ArchiveStream, data: &Vec<u8>) -> (r: Result<(), ZipError>)
    requires
        zip_entries(*old(w)).len() > 0,
    ensures
        r is Ok ==> zip_entries(*final(w)) == zip_entries(*old(w)).update(
            zip_entries(*old(w)).len() - 1,
            (EntryModel {
                data: zip_entries(*old(w)).last().data + data@,
                ..zip_entries(*old(w)).last()
            }),
        ),
        r is Ok ==> zip_open(*final(w)) == zip_open(*old(w)),
        ({
            &&& zip_open(*old(w))
            &&& zip_entries(*old(w)).last().data.len() + data@.len() <= 0xFFFF_FFFF
        }) ==> r is Ok,
{
    match w.inner.write_all(data) {
        Ok(()) => Ok(()),
        Err(e) => Err(ZipError::Compression(format!("{}", e))),
    }
}

/// Relies on zip's ZipWriter::finish: on success the central directory
/// and trailer are written and the buffer comes back holding a complete
/// archive whose reader reports exactly the recorded entries, each with
/// its name, its original bytes, and its method. Success is owed when
/// the stream is ready: finalization writes only to memory, and the
/// directory records cap their plain size fields rather than refuse.
#[verifier::external_body]
pub(crate) fn zw_finish(w: ArchiveStream) -> (r: Result<Vec<u8>, ZipError>)
    ensures
        r matches Ok(bytes) ==> archive_entries(bytes@) == zip_entries(w).map_values(
            |e: EntryModel| read_view(e),
        ),
        stream_ready(w) ==> r is Ok,
{
    match w.inner.finish() {
        Ok(c) => Ok(c.into_inner()),
        Err(e) => Err(ZipError::Compression(format!("{}", e))),
    }
}

/// Relies on String::push: appends exactly the one character.
#[verifier::external_body]
pub(crate) fn push_char(s: &mut String, c: char)
    ensures
        final(s)@ == old(s)@.push(c),
{
    s.push(c);
}

} // verus!
