//! The scanner's accounting: which discovered entries become work, and
//! the total byte count known before dispatch begins.
//!
//! The traversal itself is filesystem work and stays outside; it hands
//! in one `FileEntry` per discovered object. Directories contribute no
//! archive entry — entry names encode the hierarchy — and an entry whose
//! size could not be determined is carried with size zero rather than
//! aborting the scan.

use vstd::prelude::*;
use crate::task::sat_add_u64;

verus! {

/// One discovered filesystem object: its path, whether it is a regular
/// file, and its byte length (zero when the lookup failed).
#[derive(Debug, Clone)]
pub struct FileEntry {
    pub path: String,
    pub is_file: bool,
    pub size: u64,
}

/// The entries that become work: the regular files, in discovery order.
pub open spec fn spec_kept_files(entries: Seq<FileEntry>) -> Seq<FileEntry> {
    entries.filter(|e: FileEntry| e.is_file)
}

/// The total byte count of the regular files, topping out rather than
/// wrapping.
pub open spec fn spec_scan_total(entries: Seq<FileEntry>, acc: u64) -> u64
    decreases entries.len(),
{
    if entries.len() == 0 {
        acc
    } else {
        spec_scan_total(
            entries.drop_first(),
            if entries[0].is_file {
                sat_add_u64(acc, entries[0].size)
            } else {
                acc
            },
        )
    }
}

/// Folding one more entry on the right steps the total once.
proof fn lemma_scan_total_push(entries: Seq<FileEntry>, acc: u64, e: FileEntry)
    ensures
        spec_scan_total(entries.push(e), acc) == (if e.is_file {
            sat_add_u64(spec_scan_total(entries, acc), e.size)
        } else {
            spec_scan_total(entries, acc)
        }),
    decreases entries.len(),
{
    let stepped: u64 = if e.is_file {
        sat_add_u64(acc, e.size)
    } else {
        acc
    };
    if entries.len() == 0 {
        assert(entries.push(e)[0] == e);
        assert(entries.push(e).drop_first() =~= Seq::<FileEntry>::empty());
        assert(spec_scan_total(entries.push(e), acc) == spec_scan_total(
            Seq::<FileEntry>::empty(),
            stepped,
        ));
    } else {
        assert(entries.push(e)[0] == entries[0]);
        assert(entries.push(e).drop_first() =~= entries.drop_first().push(e));
        lemma_scan_total_push(
            entries.drop_first(),
            if entries[0].is_file {
                sat_add_u64(acc, entries[0].size)
            } else {
                acc
            },
            e,
        );
    }
}

/// Splits a scan into what will be dispatched and the progress
/// denominator: keeps exactly the regular files, in order, and sums
/// their sizes.
pub fn filter_and_total(entries: Vec<FileEntry>) -> (r: (Vec<FileEntry>, u64))
    ensures
        r.0@ == spec_kept_files(entries@),
        r.1 == spec_scan_total(entries@, 0),
{
    broadcast use Seq::lemma_filter_push;

    let ghost orig = entries@;
    let mut rest = entries;
    let n0: usize = rest.len();
    proof {
        assert(orig.len() == n0);
    }
    let mut kept: Vec<FileEntry> = Vec::new();
    let mut total: u64 = 0;
    let mut i: usize = 0;
    while rest.len() > 0
        invariant
            orig.len() <= usize::MAX,
            i + rest@.len() == orig.len(),
            rest@ == orig.subrange(i as int, orig.len() as int),
            kept@ == spec_kept_files(orig.subrange(0, i as int)),
            total == spec_scan_total(orig.subrange(0, i as int), 0),
        decreases rest@.len(),
    {
        let e = rest.remove(0);
        proof {
            let pre = orig.subrange(0, i as int);
            let cur = orig[i as int];
            assert(e == cur);
            assert(orig.subrange(0, i + 1) =~= pre.push(cur));
            assert(rest@ =~= orig.subrange(i + 1, orig.len() as int));
            pre.lemma_filter_push(cur, |x: FileEntry| x.is_file);
            lemma_scan_total_push(pre, 0, cur);
        }
        if e.is_file {
            total = if e.size > u64::MAX - total {
                u64::MAX
            } else {
                total + e.size
            };
            kept.push(e);
        }
        i = i + 1;
    }
    proof {
        assert(orig.subrange(0, orig.len() as int) =~= orig);
    }
    (kept, total)
}

} // verus!
