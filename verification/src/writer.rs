//! The archive writer: the single serializer that owns the archive
//! stream, drains tasks, and finalizes the container.
//!
//! All mutation of the stream funnels through `ArchiveWriter`; the model
//! of the stream is the sequence of entries recorded so far.

use vstd::prelude::*;
use crate::error::ZipError;
use crate::strategy::CompressionOptions;
use crate::strategy::CompressionStrategy;
use crate::strategy::spec_options_for;
use crate::task::CompressionTask;
use crate::task::sat_add_u64;
use crate::zipio::ArchiveStream;
use crate::zipio::ENTRY_DATA_LIMIT;
use crate::zipio::EntryModel;
use crate::zipio::ReadEntry;
use crate::zipio::archive_entries;
use crate::zipio::entry_name_fits;
use crate::zipio::options_accepted;
use crate::zipio::read_view;
use crate::zipio::stream_ready;
use crate::zipio::zip_entries;
use crate::zipio::zip_open;
use crate::zipio::zw_finish;
use crate::zipio::zw_new;
use crate::zipio::zw_start_file;
use crate::zipio::zw_write_all;

verus! {

/// The options the writer derives for one task: decided afresh from the
/// task's source path and the byte count of its data.
pub open spec fn task_options(level: i64, t: CompressionTask) -> CompressionOptions {
    spec_options_for(level, t.path@, Option::Some(t.data@.len() as u64))
}

/// The entry one task becomes.
pub open spec fn task_entry(level: i64, t: CompressionTask) -> EntryModel {
    EntryModel {
        name: t.name@,
        data: t.data@,
        method: task_options(level, t).method,
        level: task_options(level, t).level,
        permissions: task_options(level, t).permissions,
    }
}

/// The entries a sequence of tasks becomes, in arrival order.
pub open spec fn task_entries(level: i64, tasks: Seq<CompressionTask>) -> Seq<EntryModel> {
    tasks.map_values(|t: CompressionTask| task_entry(level, t))
}

/// What a reader of the finished archive reports for those tasks.
pub open spec fn task_read_entries(level: i64, tasks: Seq<CompressionTask>) -> Seq<ReadEntry> {
    task_entries(level, tasks).map_values(|e: EntryModel| read_view(e))
}

/// A task the stream is sure to take: its name fits the format's name
/// field, its bytes leave the codec room under the size fields, and the
/// options derived for it are ones the stream accepts.
pub open spec fn task_accepted(level: i64, t: CompressionTask) -> bool {
    &&& entry_name_fits(t.name@)
    &&& t.data@.len() <= ENTRY_DATA_LIMIT
    &&& options_accepted(task_options(level, t))
}

/// The archive-relative names of the tasks, in order.
pub open spec fn task_names(tasks: Seq<CompressionTask>) -> Seq<Seq<char>> {
    tasks.map_values(|t: CompressionTask| t.name@)
}

/// Tasks a fresh archive is sure to take whole: each one accepted, and
/// no name used twice.
pub open spec fn tasks_buildable(level: i64, tasks: Seq<CompressionTask>) -> bool {
    &&& forall|k: int| 0 <= k < tasks.len() ==> task_accepted(level, #[trigger] tasks[k])
    &&& task_names(tasks).no_duplicates()
}

/// One task's contribution to the running original-size total: counted
/// only when detail was requested and the task carries a size.
pub open spec fn total_step(detail: bool, acc: u64, t: CompressionTask) -> u64 {
    match t.original_size {
        Option::Some(s) => if detail {
            sat_add_u64(acc, s)
        } else {
            acc
        },
        Option::None => acc,
    }
}

/// The running total after a sequence of tasks.
pub open spec fn accumulated_total(detail: bool, acc: u64, tasks: Seq<CompressionTask>) -> u64
    decreases tasks.len(),
{
    if tasks.len() == 0 {
        acc
    } else {
        accumulated_total(detail, total_step(detail, acc, tasks[0]), tasks.drop_first())
    }
}

/// Folding one more task on the right steps the total once.
proof fn lemma_accumulated_total_push(
    detail: bool,
    acc: u64,
    tasks: Seq<CompressionTask>,
    t: CompressionTask,
)
    ensures
        accumulated_total(detail, acc, tasks.push(t)) == total_step(
            detail,
            accumulated_total(detail, acc, tasks),
            t,
        ),
    decreases tasks.len(),
{
    if tasks.len() == 0 {
        assert(tasks.push(t)[0] == t);
        assert(tasks.push(t).drop_first() =~= Seq::<CompressionTask>::empty());
        assert(accumulated_total(detail, acc, tasks.push(t)) == accumulated_total(
            detail,
            total_step(detail, acc, t),
            Seq::<CompressionTask>::empty(),
        ));
        assert(accumulated_total(detail, total_step(detail, acc, t), Seq::<CompressionTask>::empty())
            == total_step(detail, acc, t));
        assert(accumulated_total(detail, acc, tasks) == acc);
    } else {
        assert(tasks.push(t)[0] == tasks[0]);
        assert(tasks.push(t).drop_first() =~= tasks.drop_first().push(t));
        assert(accumulated_total(detail, acc, tasks.push(t)) == accumulated_total(
            detail,
            total_step(detail, acc, tasks[0]),
            tasks.drop_first().push(t),
        ));
        assert(accumulated_total(detail, acc, tasks) == accumulated_total(
            detail,
            total_step(detail, acc, tasks[0]),
            tasks.drop_first(),
        ));
        lemma_accumulated_total_push(detail, total_step(detail, acc, tasks[0]), tasks.drop_first(), t);
    }
}

/// The (name, content) pairs of what a reader reports, the method and
/// order forgotten.
pub open spec fn name_data_pairs(rs: Seq<ReadEntry>) -> Seq<(Seq<char>, Seq<u8>)> {
    rs.map_values(|r: ReadEntry| (r.name, r.data))
}

/// Sequences holding the same elements map to sequences holding the
/// same elements.
proof fn lemma_map_values_to_multiset<A, B>(s1: Seq<A>, s2: Seq<A>, f: spec_fn(A) -> B)
    requires
        s1.to_multiset() == s2.to_multiset(),
    ensures
        s1.map_values(f).to_multiset() == s2.map_values(f).to_multiset(),
    decreases s1.len(),
{
    broadcast use vstd::seq_lib::group_to_multiset_ensures;

    if s1.len() == 0 {
        assert(s1.to_multiset().len() == 0);
        assert(s2.to_multiset().len() == s2.len());
        assert(s2.len() == 0);
        assert(s1.map_values(f) =~= Seq::<B>::empty());
        assert(s2.map_values(f) =~= Seq::<B>::empty());
    } else {
        let x = s1[0];
        assert(s1.contains(x));
        assert(s2.to_multiset().count(x) > 0);
        assert(s2.contains(x));
        let i = choose|i: int| 0 <= i < s2.len() && s2[i] == x;
        let r1 = s1.remove(0);
        let r2 = s2.remove(i);
        assert(r1.to_multiset() == s1.to_multiset().remove(x));
        assert(r2.to_multiset() == s2.to_multiset().remove(x));
        lemma_map_values_to_multiset(r1, r2, f);
        assert(s1.map_values(f).remove(0) =~= r1.map_values(f));
        assert(s2.map_values(f).remove(i) =~= r2.map_values(f));
        assert(s1.map_values(f).remove(0).to_multiset() == s1.map_values(f).to_multiset().remove(
            f(x),
        ));
        assert(s2.map_values(f).remove(i).to_multiset() == s2.map_values(f).to_multiset().remove(
            f(x),
        ));
        assert(s1.map_values(f)[0] == f(x));
        assert(s1.map_values(f).contains(f(x)));
        assert(s2.map_values(f)[i] == f(x));
        assert(s2.map_values(f).contains(f(x)));
        assert(s1.map_values(f).to_multiset() =~= r1.map_values(f).to_multiset().insert(f(x)));
        assert(s2.map_values(f).to_multiset() =~= r2.map_values(f).to_multiset().insert(f(x)));
    }
}

/// Two runs over the same tasks — their arrival orders differing as the
/// worker count and scheduling vary — emit the same multiset of
/// (name, content) pairs, though not necessarily in the same order; and
/// whenever one order is buildable, so is the other, so both runs are
/// owed success.
pub proof fn lemma_archive_content_order_independent(
    level: i64,
    t1: Seq<CompressionTask>,
    t2: Seq<CompressionTask>,
)
    requires
        t1.to_multiset() == t2.to_multiset(),
    ensures
        name_data_pairs(task_read_entries(level, t1)).to_multiset() == name_data_pairs(
            task_read_entries(level, t2),
        ).to_multiset(),
        tasks_buildable(level, t1) ==> tasks_buildable(level, t2),
{
    broadcast use vstd::seq_lib::group_to_multiset_ensures;

    assert(name_data_pairs(task_read_entries(level, t1)) =~= t1.map_values(
        |t: CompressionTask| (t.name@, t.data@),
    ));
    assert(name_data_pairs(task_read_entries(level, t2)) =~= t2.map_values(
        |t: CompressionTask| (t.name@, t.data@),
    ));
    lemma_map_values_to_multiset(t1, t2, |t: CompressionTask| (t.name@, t.data@));
    if tasks_buildable(level, t1) {
        assert forall|k: int| 0 <= k < t2.len() implies task_accepted(level, #[trigger] t2[k]) by {
            assert(t2.contains(t2[k]));
            assert(t1.to_multiset().count(t2[k]) > 0);
            assert(t1.contains(t2[k]));
            let j = choose|j: int| 0 <= j < t1.len() && t1[j] == t2[k];
            assert(task_accepted(level, t1[j]));
        }
        lemma_map_values_to_multiset(t1, t2, |t: CompressionTask| t.name@);
        assert(task_names(t1) =~= t1.map_values(|t: CompressionTask| t.name@));
        assert(task_names(t2) =~= t2.map_values(|t: CompressionTask| t.name@));
        task_names(t1).lemma_multiset_has_no_duplicates();
        assert(forall|x: Seq<char>|
            task_names(t2).to_multiset().contains(x) ==> task_names(t2).to_multiset().count(x)
                == 1);
        task_names(t2).lemma_multiset_has_no_duplicates_conv();
    }
}

/// The single consumer of the pipeline: owns the archive stream for its
/// whole life, asks the strategy for each task's options, and writes the
/// task's bytes under its archive-relative name.
pub struct ArchiveWriter {
    stream: ArchiveStream,
    strategy: CompressionStrategy,
    detail: bool,
    original_total: u64,
}

impl ArchiveWriter {
    /// The entries recorded so far, in the order received.
    pub closed spec fn entries(&self) -> Seq<EntryModel> {
        zip_entries(self.stream)
    }

    /// The configured deflate level.
    pub closed spec fn level(&self) -> i64 {
        self.strategy.level
    }

    /// Whether detailed statistics were requested.
    pub closed spec fn detail_on(&self) -> bool {
        self.detail
    }

    /// The original bytes accumulated so far for statistics.
    pub closed spec fn total(&self) -> u64 {
        self.original_total
    }

    /// Whether the last recorded entry is still open for writing.
    pub closed spec fn writing(&self) -> bool {
        zip_open(self.stream)
    }

    /// The writer will take the next entry or the trailer: no oversize
    /// entry is left open.
    pub open spec fn ready(&self) -> bool {
        self.writing() ==> self.entries().len() > 0 && self.entries().last().data.len()
            <= ENTRY_DATA_LIMIT
    }

    /// A writer over a fresh, empty archive stream.
    pub fn new(strategy: CompressionStrategy, detail: bool) -> (r: Self)
        ensures
            r.entries() == Seq::<EntryModel>::empty(),
            r.level() == strategy.level,
            r.detail_on() == detail,
            r.total() == 0,
            !r.writing(),
    {
        ArchiveWriter { stream: zw_new(), strategy, detail, original_total: 0 }
    }

    /// Writes one task: opens an entry under the task's name with the
    /// options the strategy derives, writes the task's bytes, and, when
    /// detail was requested, accumulates the task's original size.
    /// Success is owed when the writer is ready, the task is accepted,
    /// and its name is fresh among the recorded entries.
    pub fn write_task(&mut self, task: &CompressionTask) -> (r: Result<(), ZipError>)
        ensures
            final(self).level() == old(self).level(),
            final(self).detail_on() == old(self).detail_on(),
            r is Ok ==> final(self).entries() == old(self).entries().push(
                task_entry(old(self).level(), *task),
            ),
            r is Ok ==> final(self).total() == total_step(
                old(self).detail_on(),
                old(self).total(),
                *task,
            ),
            r is Ok ==> final(self).writing(),
            r is Err ==> final(self).total() == old(self).total(),
            ({
                &&& old(self).ready()
                &&& task_accepted(old(self).level(), *task)
                &&& forall|i: int|
                    0 <= i < old(self).entries().len() ==> (#[trigger] old(self).entries()[
                        i
                    ]).name != task.name@
            }) ==> r is Ok,
    {
        let size: u64 = task.data.len() as u64;
        let opts = self.strategy.get_options(task.path.as_str(), Some(size));
        match zw_start_file(&mut self.stream, task.name.as_str(), &opts) {
            Ok(()) => (),
            Err(e) => {
                return Err(e);
            },
        }
        match zw_write_all(&mut self.stream, &task.data) {
            Ok(()) => (),
            Err(e) => {
                return Err(e);
            },
        }
        proof {
            let whole = old(self).entries().push(task_entry(old(self).level(), *task));
            assert(self.entries() =~= whole);
        }
        if self.detail {
            if let Some(s) = task.original_size {
                self.original_total = if s > u64::MAX - self.original_total {
                    u64::MAX
                } else {
                    self.original_total + s
                };
            }
        }
        Ok(())
    }

    /// Drains a whole sequence of tasks in order, stopping at the first
    /// failure. Success is owed when the writer is ready, every task is
    /// accepted, no name repeats, and none collides with a recorded
    /// entry.
    pub fn write_tasks(&mut self, tasks: &Vec<CompressionTask>) -> (r: Result<(), ZipError>)
        ensures
            final(self).level() == old(self).level(),
            final(self).detail_on() == old(self).detail_on(),
            r is Ok ==> final(self).entries() == old(self).entries() + task_entries(
                old(self).level(),
                tasks@,
            ),
            r is Ok ==> final(self).total() == accumulated_total(
                old(self).detail_on(),
                old(self).total(),
                tasks@,
            ),
            r is Ok && tasks@.len() > 0 ==> final(self).writing(),
            r is Ok && tasks@.len() == 0 ==> final(self).writing() == old(self).writing(),
            ({
                &&& old(self).ready()
                &&& tasks_buildable(old(self).level(), tasks@)
                &&& forall|k: int, j: int|
                    0 <= k < tasks@.len() && 0 <= j < old(self).entries().len() ==> (
                    #[trigger] tasks@[k]).name@ != (#[trigger] old(self).entries()[j]).name
            }) ==> r is Ok,
    {
        let n = tasks.len();
        let mut i: usize = 0;
        while i < n
            invariant
                n == tasks@.len(),
                0 <= i <= n,
                self.level() == old(self).level(),
                self.detail_on() == old(self).detail_on(),
                self.entries() == old(self).entries() + task_entries(
                    old(self).level(),
                    tasks@.subrange(0, i as int),
                ),
                self.total() == accumulated_total(
                    old(self).detail_on(),
                    old(self).total(),
                    tasks@.subrange(0, i as int),
                ),
                i > 0 ==> self.writing() && self.entries().len() > 0 && self.entries().last()
                    == task_entry(old(self).level(), tasks@[i - 1]),
                i == 0 ==> self.writing() == old(self).writing(),
            decreases n - i,
        {
            let ghost pre = *self;
            proof {
                if old(self).ready() && tasks_buildable(old(self).level(), tasks@) && (forall|
                    k: int,
                    j: int,
                |
                    0 <= k < tasks@.len() && 0 <= j < old(self).entries().len() ==> (
                    #[trigger] tasks@[k]).name@ != (#[trigger] old(self).entries()[j]).name) {
                    assert(task_names(tasks@).no_duplicates());
                    assert forall|j: int| 0 <= j < pre.entries().len() implies (
                    #[trigger] pre.entries()[j]).name != tasks@[i as int].name@ by {
                        let ol = old(self).entries().len() as int;
                        if j < ol {
                            assert(pre.entries()[j] == old(self).entries()[j]);
                            assert(tasks@[i as int].name@ != old(self).entries()[j].name);
                        } else {
                            let j2 = j - ol;
                            assert(pre.entries()[j] == task_entries(
                                old(self).level(),
                                tasks@.subrange(0, i as int),
                            )[j2]);
                            assert(tasks@.subrange(0, i as int)[j2] == tasks@[j2]);
                            assert(pre.entries()[j].name == tasks@[j2].name@);
                            assert(task_names(tasks@)[j2] == tasks@[j2].name@);
                            assert(task_names(tasks@)[i as int] == tasks@[i as int].name@);
                            assert(task_names(tasks@)[j2] != task_names(tasks@)[i as int]);
                        }
                    }
                    if i == 0 {
                        assert(task_entries(
                            old(self).level(),
                            tasks@.subrange(0, 0),
                        ) =~= Seq::<EntryModel>::empty());
                        assert(pre.entries() =~= old(self).entries());
                        assert(pre.ready());
                    } else {
                        assert(pre.entries().last().data.len() <= ENTRY_DATA_LIMIT);
                        assert(pre.ready());
                    }
                    assert(task_accepted(pre.level(), tasks@[i as int]));
                }
            }
            match self.write_task(&tasks[i]) {
                Ok(()) => (),
                Err(e) => {
                    return Err(e);
                },
            }
            proof {
                let pre = tasks@.subrange(0, i as int);
                assert(tasks@.subrange(0, i + 1) =~= pre.push(tasks@[i as int]));
                assert(task_entries(old(self).level(), pre.push(tasks@[i as int])) =~= task_entries(
                    old(self).level(),
                    pre,
                ).push(task_entry(old(self).level(), tasks@[i as int])));
                assert(self.entries() =~= old(self).entries() + task_entries(
                    old(self).level(),
                    tasks@.subrange(0, i + 1),
                ));
                lemma_accumulated_total_push(
                    old(self).detail_on(),
                    old(self).total(),
                    pre,
                    tasks@[i as int],
                );
            }
            i = i + 1;
        }
        proof {
            assert(tasks@.subrange(0, n as int) =~= tasks@);
        }
        Ok(())
    }

    /// Finalizes the archive: the trailer is written and the finished
    /// bytes come back with the accumulated total. The stream is
    /// consumed; nothing can be written after this. Success is owed
    /// when the writer is ready.
    pub fn finish(self) -> (r: Result<(Vec<u8>, u64), ZipError>)
        ensures
            r matches Ok(p) ==> archive_entries(p.0@) == self.entries().map_values(
                |e: EntryModel| read_view(e),
            ) && p.1 == self.total(),
            self.ready() ==> r is Ok,
    {
        match zw_finish(self.stream) {
            Ok(bytes) => Ok((bytes, self.original_total)),
            Err(e) => Err(e),
        }
    }
}

/// The sequential core of the pipeline: builds the whole archive from
/// the given tasks at the given level. A reader of the result reports
/// exactly one entry per task, in order, holding the task's name, its
/// original bytes, and the method the strategy decided — round-trip
/// fidelity over the entry model. Success is owed whenever the tasks
/// are buildable: each accepted and no name used twice. In particular
/// an empty task list yields a valid, empty archive, never an error.
pub fn build_archive(tasks: &Vec<CompressionTask>, level: i64, detail: bool) -> (r: Result<
    (Vec<u8>, u64),
    ZipError,
>)
    ensures
        r matches Ok(p) ==> archive_entries(p.0@) == task_read_entries(level, tasks@) && p.1
            == accumulated_total(detail, 0, tasks@),
        tasks_buildable(level, tasks@) ==> r is Ok,
{
    let strategy = CompressionStrategy::new(level);
    let mut w = ArchiveWriter::new(strategy, detail);
    match w.write_tasks(tasks) {
        Ok(()) => (),
        Err(e) => {
            return Err(e);
        },
    }
    proof {
        assert(w.entries() =~= task_entries(level, tasks@));
        if tasks_buildable(level, tasks@) {
            if tasks@.len() > 0 {
                assert(w.entries().last() == task_entry(level, tasks@[tasks@.len() - 1]));
                assert(task_accepted(level, tasks@[tasks@.len() - 1]));
                assert(w.ready());
            } else {
                assert(w.ready());
            }
        }
    }
    w.finish()
}

} // verus!
