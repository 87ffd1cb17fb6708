//! The deletion scheduler.
//!
//! The broker owns the dependency state of one deletion: a
//! remaining-children counter per directory, the per-directory file
//! lists, and a pending-batches counter for directories whose large
//! file lists were split. It emits work items in an order that never
//! asks a worker to remove a non-empty directory: a directory is
//! emitted only once every child directory has reported completion and
//! every batch of its own files has finished. Workers report back
//! through [`Broker::mark_complete`] and [`Broker::mark_batch_complete`];
//! when every directory is accounted for, one shutdown item per worker
//! is emitted.
//!
//! A ghost history records every item ever emitted, so the scheduling
//! guarantees — children before parent, one `ProcessDir` per directory,
//! batches that partition the original file list — are stated and
//! proved over it.

use crate::tree::{children_distinct, ids_in_range, parent_consistent, DirectoryTree};
use vstd::prelude::*;

verus! {

broadcast use vstd::std_specs::vec::axiom_spec_len;

/// Number of immediate files above which a directory's file list is
/// split into batches before the directory's own removal is scheduled.
pub const BATCH_THRESHOLD: usize = 1024;

/// Number of files per batch when a large file list is split.
pub const BATCH_SIZE: usize = 256;

/// Number of batches a file list of length `n` is split into: the
/// least number of `BATCH_SIZE` chunks that cover `n` entries.
pub open spec fn spec_batch_count(n: nat) -> nat {
    (((n as int) + (BATCH_SIZE as int) - 1) / (BATCH_SIZE as int)) as nat
}

/// Ceiling division of a file count by `BATCH_SIZE`.
pub fn batch_count(n: usize) -> (r: usize)
    ensures
        r == spec_batch_count(n as nat),
{
    if n == 0 {
        0
    } else {
        (n - 1) / BATCH_SIZE + 1
    }
}

/// Work dispatched to the worker pool.
pub enum WorkItem {
    /// A directory whose children and file batches are all done:
    /// take and delete its remaining files, remove the directory,
    /// then call `mark_complete`.
    ProcessDir { dir: usize, path: String },
    /// A batch of files to delete; when done, call
    /// `mark_batch_complete` with the parent directory.
    DeleteFiles { files: Vec<String>, parent_dir: usize },
    /// The deletion is complete; the receiving worker exits.
    Shutdown,
}

// ---------------------------------------------------------------------
// Counting helpers.
// ---------------------------------------------------------------------

/// Number of `true` entries of a boolean sequence.
pub open spec fn count_true(s: Seq<bool>) -> nat
    decreases s.len(),
{
    if s.len() == 0 {
        0
    } else {
        count_true(s.drop_last()) + (if s.last() {
            1nat
        } else {
            0nat
        })
    }
}

/// Number of ids in `cs` whose entry of `comp` is still `false`.
pub open spec fn count_incomplete(cs: Seq<usize>, comp: Seq<bool>) -> nat
    decreases cs.len(),
{
    if cs.len() == 0 {
        0
    } else {
        count_incomplete(cs.drop_last(), comp) + (if cs.last() < comp.len() && !comp[cs.last() as int] {
            1nat
        } else {
            0nat
        })
    }
}

pub proof fn lemma_count_true_le_len(s: Seq<bool>)
    ensures
        count_true(s) <= s.len(),
    decreases s.len(),
{
    if s.len() > 0 {
        lemma_count_true_le_len(s.drop_last());
    }
}

/// An all-false sequence has a zero count.
pub proof fn lemma_count_true_zero(s: Seq<bool>)
    requires
        forall|i: int| 0 <= i < s.len() ==> !s[i],
    ensures
        count_true(s) == 0,
    decreases s.len(),
{
    if s.len() > 0 {
        lemma_count_true_zero(s.drop_last());
    }
}

/// Completing one incomplete entry raises the completed count by one.
pub proof fn lemma_count_true_update(s: Seq<bool>, i: int)
    requires
        0 <= i < s.len(),
        !s[i],
    ensures
        count_true(s.update(i, true)) == count_true(s) + 1,
    decreases s.len(),
{
    let t = s.update(i, true);
    if i == s.len() - 1 {
        assert(t.drop_last() =~= s.drop_last());
    } else {
        assert(t.drop_last() =~= s.drop_last().update(i, true));
        lemma_count_true_update(s.drop_last(), i);
    }
}

/// A full count means every entry is `true`.
pub proof fn lemma_count_true_full(s: Seq<bool>)
    requires
        count_true(s) == s.len(),
    ensures
        forall|i: int| 0 <= i < s.len() ==> s[i],
    decreases s.len(),
{
    if s.len() > 0 {
        lemma_count_true_le_len(s.drop_last());
        lemma_count_true_full(s.drop_last());
        assert forall|i: int| 0 <= i < s.len() implies s[i] by {
            if i < s.len() - 1 {
                assert(s.drop_last()[i]);
            }
        }
    }
}

/// With every listed id incomplete, the count is the list's length.
pub proof fn lemma_count_incomplete_all(cs: Seq<usize>, comp: Seq<bool>)
    requires
        forall|i: int| 0 <= i < cs.len() ==> (#[trigger] cs[i]) < comp.len() && !comp[cs[i] as int],
    ensures
        count_incomplete(cs, comp) == cs.len(),
    decreases cs.len(),
{
    if cs.len() > 0 {
        assert(cs[cs.len() - 1] == cs.last());
        lemma_count_incomplete_all(cs.drop_last(), comp);
    }
}

/// A zero count means every listed id is complete.
pub proof fn lemma_count_incomplete_zero(cs: Seq<usize>, comp: Seq<bool>)
    requires
        count_incomplete(cs, comp) == 0,
        forall|i: int| 0 <= i < cs.len() ==> (#[trigger] cs[i]) < comp.len(),
    ensures
        forall|i: int| 0 <= i < cs.len() ==> comp[#[trigger] cs[i] as int],
    decreases cs.len(),
{
    if cs.len() > 0 {
        lemma_count_incomplete_zero(cs.drop_last(), comp);
        assert forall|i: int| 0 <= i < cs.len() implies comp[#[trigger] cs[i] as int] by {
            if i < cs.len() - 1 {
                assert(cs.drop_last()[i] == cs[i]);
            } else {
                assert(cs[i] == cs.last());
            }
        }
    }
}

/// Marking an id complete lowers the count of a duplicate-free list by
/// one if the list holds the id, else leaves it unchanged.
pub proof fn lemma_count_incomplete_update(cs: Seq<usize>, comp: Seq<bool>, c: int)
    requires
        0 <= c <= usize::MAX,
        c < comp.len(),
        !comp[c],
        forall|i: int, j: int| 0 <= i < j < cs.len() ==> #[trigger] cs[i] != #[trigger] cs[j],
    ensures
        count_incomplete(cs, comp.update(c, true)) == count_incomplete(cs, comp) - (
        if cs.contains(c as usize) {
            1int
        } else {
            0int
        }),
    decreases cs.len(),
{
    let comp2 = comp.update(c, true);
    if cs.len() == 0 {
        assert(!cs.contains(c as usize));
    } else {
        let dl = cs.drop_last();
        assert(forall|i: int, j: int|
            0 <= i < j < dl.len() ==> #[trigger] dl[i] != #[trigger] dl[j]);
        lemma_count_incomplete_update(dl, comp, c);
        assert(count_incomplete(cs, comp2) == count_incomplete(dl, comp2) + (
        if cs.last() < comp2.len() && !comp2[cs.last() as int] {
            1nat
        } else {
            0nat
        }));
        assert(count_incomplete(cs, comp) == count_incomplete(dl, comp) + (
        if cs.last() < comp.len() && !comp[cs.last() as int] {
            1nat
        } else {
            0nat
        }));
        if cs.last() == c as usize {
            assert(cs.contains(c as usize)) by {
                assert(cs[cs.len() - 1] == c as usize);
            }
            assert((c as usize) as int == c);
            // The last element just flipped to complete: it counted
            // under `comp` and no longer counts under `comp2`.
            assert(comp2[cs.last() as int]);
            assert(cs.last() < comp.len() && !comp[cs.last() as int]);
            assert(!dl.contains(c as usize)) by {
                if dl.contains(c as usize) {
                    let i = choose|i: int| 0 <= i < dl.len() && dl[i] == c as usize;
                    assert(cs[i] == cs[cs.len() - 1]);
                }
            }
        } else {
            if cs.contains(c as usize) {
                let i = choose|i: int| 0 <= i < cs.len() && cs[i] == c as usize;
                assert(i < cs.len() - 1);
                assert(dl[i] == c as usize);
                assert(dl.contains(c as usize));
            } else {
                assert(!dl.contains(c as usize)) by {
                    if dl.contains(c as usize) {
                        let i = choose|i: int| 0 <= i < dl.len() && dl[i] == c as usize;
                        assert(cs[i] == c as usize);
                    }
                }
            }
        }
    }
}

// ---------------------------------------------------------------------
// The emission history.
// ---------------------------------------------------------------------

/// How many `ProcessDir` items for directory `d` a history holds.
pub open spec fn count_process_dir(h: Seq<WorkItem>, d: int) -> nat
    decreases h.len(),
{
    if h.len() == 0 {
        0
    } else {
        count_process_dir(h.drop_last(), d) + (if h.last() is ProcessDir && h.last()->dir == d {
            1nat
        } else {
            0nat
        })
    }
}

/// The file lists of the `DeleteFiles` items for directory `d`, in
/// emission order.
pub open spec fn batch_files_for(h: Seq<WorkItem>, d: int) -> Seq<Seq<String>>
    decreases h.len(),
{
    if h.len() == 0 {
        Seq::empty()
    } else if h.last() is DeleteFiles && h.last()->parent_dir == d {
        batch_files_for(h.drop_last(), d).push(h.last()->files@)
    } else {
        batch_files_for(h.drop_last(), d)
    }
}

/// Concatenation of a sequence of file lists.
pub open spec fn concat_batches(bs: Seq<Seq<String>>) -> Seq<String>
    decreases bs.len(),
{
    if bs.len() == 0 {
        Seq::empty()
    } else {
        concat_batches(bs.drop_last()) + bs.last()
    }
}

/// How many `Shutdown` items a history holds.
pub open spec fn count_shutdown(h: Seq<WorkItem>) -> nat
    decreases h.len(),
{
    if h.len() == 0 {
        0
    } else {
        count_shutdown(h.drop_last()) + (if h.last() is Shutdown {
            1nat
        } else {
            0nat
        })
    }
}

/// Appending one item to the history changes the per-directory counts
/// and batch lists in the evident way.
pub proof fn lemma_history_push(h: Seq<WorkItem>, it: WorkItem)
    ensures
        forall|dd: int|
            count_process_dir(#[trigger] h.push(it), dd) == count_process_dir(h, dd) + (
            if it is ProcessDir && it->dir == dd {
                1nat
            } else {
                0nat
            }),
        forall|dd: int|
            batch_files_for(#[trigger] h.push(it), dd) == (if it is DeleteFiles && it->parent_dir
                == dd {
                batch_files_for(h, dd).push(it->files@)
            } else {
                batch_files_for(h, dd)
            }),
        count_shutdown(h.push(it)) == count_shutdown(h) + (if it is Shutdown {
            1nat
        } else {
            0nat
        }),
{
    assert(h.push(it).drop_last() =~= h);
    assert(h.push(it).last() == it);
}

/// Appending a run of `DeleteFiles` items for directory `d` leaves all
/// `ProcessDir` counts alone and extends `d`'s batch list by exactly
/// the appended file lists.
pub proof fn lemma_history_append_batches(
    h: Seq<WorkItem>,
    items: Seq<WorkItem>,
    bfs: Seq<Seq<String>>,
    d: usize,
)
    requires
        bfs.len() == items.len(),
        forall|i: int|
            0 <= i < items.len() ==> (#[trigger] items[i]) is DeleteFiles && items[i]->parent_dir
                == d,
        forall|i: int| 0 <= i < items.len() ==> #[trigger] bfs[i] == items[i]->files@,
    ensures
        forall|dd: int|
            count_process_dir(#[trigger] (h + items), dd) == count_process_dir(h, dd),
        batch_files_for(h + items, d as int) == batch_files_for(h, d as int) + bfs,
        forall|dd: int|
            dd != d as int ==> batch_files_for(#[trigger] (h + items), dd) == batch_files_for(
                h,
                dd,
            ),
        count_shutdown(h + items) == count_shutdown(h),
    decreases items.len(),
{
    if items.len() == 0 {
        assert(h + items =~= h);
        assert(batch_files_for(h, d as int) + bfs =~= batch_files_for(h, d as int));
    } else {
        let il = items.drop_last();
        let bl = bfs.drop_last();
        lemma_history_append_batches(h, il, bl, d);
        let it = items.last();
        assert(h + items =~= (h + il).push(it));
        lemma_history_push(h + il, it);
        assert(batch_files_for(h + items, d as int) =~= batch_files_for(h, d as int) + bfs);
    }
}

/// The bounds of the batch count: `⌈n / BATCH_SIZE⌉` chunks cover `n`
/// entries and the last chunk is non-empty.
pub proof fn lemma_batch_count_bounds(n: int)
    requires
        n >= 1,
    ensures
        spec_batch_count(n as nat) >= 1,
        (spec_batch_count(n as nat) - 1) * (BATCH_SIZE as int) < n,
        n <= spec_batch_count(n as nat) * (BATCH_SIZE as int),
{
    let b = BATCH_SIZE as int;
    let k = (n + b - 1) / b;
    assert(k * b == (n + b - 1) - ((n + b - 1) % b)) by (nonlinear_arith)
        requires
            b > 0,
            k == (n + b - 1) / b,
    ;
    assert(0 <= (n + b - 1) % b < b) by (nonlinear_arith)
        requires
            b > 0,
    ;
}

/// One chunk of a file list: entries `j*BATCH_SIZE` up to the next
/// boundary or the end.
pub open spec fn batch_chunk_ok(it: WorkItem, files: Seq<String>, d: usize, j: int) -> bool {
    let lo = j * (BATCH_SIZE as int);
    let hi = if lo + BATCH_SIZE <= files.len() {
        lo + (BATCH_SIZE as int)
    } else {
        files.len() as int
    };
    &&& it is DeleteFiles
    &&& it->parent_dir == d
    &&& it->files@ == files.subrange(lo, hi)
}

// ---------------------------------------------------------------------
// The broker.
// ---------------------------------------------------------------------

/// Scheduling state of one deletion. Constructed from a
/// [`DirectoryTree`]; its invariant [`Broker::wf`] carries the
/// children-before-parent and batching guarantees.
pub struct Broker {
    /// Path per directory id, moved in from the tree.
    pub dirs: Vec<String>,
    /// Child ids per directory, moved in from the tree.
    pub children: Vec<Vec<usize>>,
    /// Parent id per directory; entry 0 points to itself.
    pub parent: Vec<usize>,
    /// Remaining not-yet-completed children per directory.
    pub child_counts: Vec<usize>,
    /// File list per directory; taken exactly once, either by a worker
    /// through `take_files` or by the broker when splitting into batches.
    pub dir_files: Vec<Option<Vec<String>>>,
    /// Outstanding file batches per split directory (0 = not split or done).
    pub pending_batches: Vec<usize>,
    /// Whether `ProcessDir` has been emitted for each directory.
    pub issued: Vec<bool>,
    /// Whether `mark_complete` has been accepted for each directory.
    pub completed: Vec<bool>,
    /// Number of completed directories.
    pub completed_count: usize,
    /// Total number of directories.
    pub total_dirs: usize,
    /// Number of shutdown items to emit at termination.
    pub worker_count: usize,
    /// Set once `completed_count` reaches `total_dirs`.
    pub done: bool,
    /// Emitted work not yet taken by a worker, in emission order.
    pub queue: Vec<WorkItem>,
    /// Every item ever emitted, in order.
    pub history: Ghost<Seq<WorkItem>>,
    /// The file list of each directory at construction time.
    pub orig_files: Ghost<Seq<Seq<String>>>,
}

impl Broker {
    /// Number of directories.
    pub open spec fn n(self) -> int {
        self.total_dirs as int
    }

    /// The scheduling invariant. Beyond array-length agreement and the
    /// forest shape inherited from the tree, it ties the counters to
    /// the completion flags and states the ordering guarantees:
    /// a directory is issued only when all its children are complete
    /// and none of its batches is outstanding; `ProcessDir` is emitted
    /// at most once per directory; and the batches emitted for a
    /// directory partition its original file list.
    pub open spec fn wf(self) -> bool {
        let n = self.n();
        &&& self.dirs@.len() == n
        &&& self.children@.len() == n
        &&& self.parent@.len() == n
        &&& self.child_counts@.len() == n
        &&& self.dir_files@.len() == n
        &&& self.pending_batches@.len() == n
        &&& self.issued@.len() == n
        &&& self.completed@.len() == n
        &&& self.orig_files@.len() == n
        &&& ids_in_range(self.children@, n)
        &&& parent_consistent(self.parent@, self.children@)
        &&& children_distinct(self.children@)
        &&& self.completed_count == count_true(self.completed@)
        &&& forall|d: int|
            0 <= d < n ==> #[trigger] self.child_counts@[d] == count_incomplete(
                self.children@[d]@,
                self.completed@,
            )
        &&& forall|d: int| 0 <= d < n && #[trigger] self.completed@[d] ==> self.issued@[d]
        &&& forall|d: int| 0 <= d < n && #[trigger] self.issued@[d] ==> self.child_counts@[d] == 0
        &&& forall|d: int|
            0 <= d < n && #[trigger] self.issued@[d] ==> self.pending_batches@[d] == 0
        &&& forall|d: int|
            0 <= d < n && #[trigger] self.pending_batches@[d] > 0 ==> !self.issued@[d]
                && self.child_counts@[d] == 0 && self.dir_files@[d] is None
        &&& self.done ==> self.completed_count == self.total_dirs
        &&& !self.done ==> count_shutdown(self.history@) == 0
        &&& forall|i: int|
            0 <= i < self.queue@.len() ==> queue_item_wf(#[trigger] self.queue@[i], self)
        &&& forall|d: int|
            0 <= d < n ==> count_process_dir(self.history@, d) == (
            if #[trigger] self.issued@[d] {
                1nat
            } else {
                0nat
            })
        &&& forall|d: int| 0 <= d < n ==> batch_history_ok(self, d)
        &&& forall|d: int|
            0 <= d < n ==> ((#[trigger] self.dir_files@[d]) matches Some(f) ==> f@
                == self.orig_files@[d])
    }

    /// Directory `d`'s original file list.
    pub open spec fn files_of(self, d: int) -> Seq<String> {
        self.orig_files@[d]
    }
}

/// An emitted item refers to a real directory; a `ProcessDir` item
/// carries the directory's own path and is recorded as issued.
pub open spec fn queue_item_wf(it: WorkItem, b: Broker) -> bool {
    match it {
        WorkItem::ProcessDir { dir, path } => {
            &&& (dir as int) < b.n()
            &&& b.issued@[dir as int]
            &&& path@ == b.dirs@[dir as int]@
        },
        WorkItem::DeleteFiles { files: _, parent_dir } => (parent_dir as int) < b.n(),
        WorkItem::Shutdown => true,
    }
}

/// Either no batch has been emitted for `d`, or — when `d`'s file list
/// was split — the emitted batches number `⌈N / BATCH_SIZE⌉` and
/// concatenate, in order, to the original file list of `d`.
pub open spec fn batch_history_ok(b: Broker, d: int) -> bool {
    let bs = batch_files_for(b.history@, d);
    ||| bs.len() == 0
    ||| {
        &&& b.files_of(d).len() > BATCH_THRESHOLD
        &&& bs.len() == spec_batch_count(b.files_of(d).len())
        &&& concat_batches(bs) == b.files_of(d)
        &&& b.dir_files@[d] is None
    }
}

/// The effect of scheduling a ready directory `d` (all children
/// complete, nothing issued or batched yet). With at most
/// `BATCH_THRESHOLD` files, one `ProcessDir` item is emitted and `d`
/// is marked issued. With more, the file list leaves `dir_files`, the
/// pending-batches counter becomes `⌈N/BATCH_SIZE⌉`, and one
/// `DeleteFiles` item per chunk is emitted, in order — `ProcessDir`
/// is deferred until every batch reports complete.
pub open spec fn scheduled_effect(pre: Broker, post: Broker, d: int) -> bool {
    &&& broker_core_unchanged(pre, post)
    &&& post.child_counts@ == pre.child_counts@
    &&& post.completed@ == pre.completed@
    &&& post.completed_count == pre.completed_count
    &&& post.done == pre.done
    &&& sched_emit(pre, post, d)
}

/// What scheduling a ready directory `d` emits, in terms of the
/// issued flags, file lists, batch counters, queue and history alone.
pub open spec fn sched_emit(pre: Broker, post: Broker, d: int) -> bool {
    if pre.dir_files@[d] is Some && pre.files_of(d).len() > BATCH_THRESHOLD {
        let len = pre.files_of(d).len() as int;
        let k = spec_batch_count(len as nat) as int;
        &&& post.issued@ == pre.issued@
        &&& post.dir_files@ == pre.dir_files@.update(d, None)
        &&& post.pending_batches@ == pre.pending_batches@.update(d, k as usize)
        &&& post.queue@.len() == pre.queue@.len() + k
        &&& (forall|i: int| 0 <= i < pre.queue@.len() ==> post.queue@[i] == pre.queue@[i])
        &&& (forall|j: int|
            0 <= j < k ==> batch_chunk_ok(
                #[trigger] post.queue@[pre.queue@.len() + j],
                pre.files_of(d),
                d as usize,
                j,
            ))
        &&& post.history@ == pre.history@ + post.queue@.subrange(
            pre.queue@.len() as int,
            post.queue@.len() as int,
        )
        &&& batch_files_for(post.history@, d).len() == k
        &&& concat_batches(batch_files_for(post.history@, d)) == pre.files_of(d)
        &&& (forall|dd: int|
            dd != d ==> batch_files_for(post.history@, dd) == batch_files_for(pre.history@, dd))
        &&& count_shutdown(post.history@) == count_shutdown(pre.history@)
    } else {
        &&& post.issued@ == pre.issued@.update(d, true)
        &&& post.dir_files@ == pre.dir_files@
        &&& post.pending_batches@ == pre.pending_batches@
        &&& post.queue@.len() == pre.queue@.len() + 1
        &&& (forall|i: int| 0 <= i < pre.queue@.len() ==> post.queue@[i] == pre.queue@[i])
        &&& post.queue@.last() is ProcessDir
        &&& post.queue@.last()->dir == d
        &&& post.history@ == pre.history@.push(post.queue@.last())
        &&& (forall|dd: int|
            batch_files_for(post.history@, dd) == batch_files_for(pre.history@, dd))
        &&& count_shutdown(post.history@) == count_shutdown(pre.history@)
    }
}

/// Field-by-field equality of two broker states, at the level of views.
pub open spec fn broker_unchanged(a: Broker, b: Broker) -> bool {
    &&& broker_core_unchanged(a, b)
    &&& a.child_counts@ == b.child_counts@
    &&& a.dir_files@ == b.dir_files@
    &&& a.pending_batches@ == b.pending_batches@
    &&& a.issued@ == b.issued@
    &&& a.completed@ == b.completed@
    &&& a.completed_count == b.completed_count
    &&& a.done == b.done
    &&& a.queue@ == b.queue@
    &&& a.history@ == b.history@
}

/// The parts of the broker no operation after construction changes.
pub open spec fn broker_core_unchanged(a: Broker, b: Broker) -> bool {
    &&& a.dirs@ == b.dirs@
    &&& a.children@ == b.children@
    &&& a.parent@ == b.parent@
    &&& a.total_dirs == b.total_dirs
    &&& a.worker_count == b.worker_count
    &&& a.orig_files@ == b.orig_files@
}

impl Broker {
    /// Number of directories that have completed so far.
    pub fn completed_count(&self) -> (r: usize)
        ensures
            r == self.completed_count,
    {
        self.completed_count
    }

    /// Total number of directories this deletion covers.
    pub fn total_dirs(&self) -> (r: usize)
        ensures
            r == self.total_dirs,
    {
        self.total_dirs
    }

    /// Hands a worker the not-yet-taken file list of `dir`, if any.
    /// The list leaves the broker exactly once.
    pub fn take_files(&mut self, dir: usize) -> (r: Option<Vec<String>>)
        requires
            old(self).wf(),
            dir < old(self).total_dirs,
        ensures
            final(self).wf(),
            broker_core_unchanged(*old(self), *final(self)),
            final(self).child_counts@ == old(self).child_counts@,
            final(self).pending_batches@ == old(self).pending_batches@,
            final(self).issued@ == old(self).issued@,
            final(self).completed@ == old(self).completed@,
            final(self).completed_count == old(self).completed_count,
            final(self).done == old(self).done,
            final(self).queue@ == old(self).queue@,
            final(self).history@ == old(self).history@,
            final(self).dir_files@ == old(self).dir_files@.update(dir as int, None),
            r == old(self).dir_files@[dir as int],
    {
        let r = self.dir_files[dir].take();
        proof {
            assert forall|d: int| 0 <= d < self.n() implies batch_history_ok(*self, d) by {
                assert(batch_history_ok(*old(self), d));
            }
        }
        r
    }

    /// Pops the oldest emitted work item, if any.
    pub fn next_work(&mut self) -> (r: Option<WorkItem>)
        requires
            old(self).wf(),
        ensures
            final(self).wf(),
            broker_core_unchanged(*old(self), *final(self)),
            final(self).child_counts@ == old(self).child_counts@,
            final(self).dir_files@ == old(self).dir_files@,
            final(self).pending_batches@ == old(self).pending_batches@,
            final(self).issued@ == old(self).issued@,
            final(self).completed@ == old(self).completed@,
            final(self).completed_count == old(self).completed_count,
            final(self).done == old(self).done,
            final(self).history@ == old(self).history@,
            old(self).queue@.len() == 0 ==> r is None && final(self).queue@ == old(self).queue@,
            old(self).queue@.len() > 0 ==> r == Some(old(self).queue@[0]) && final(self).queue@
                == old(self).queue@.drop_first(),
    {
        if self.queue.len() == 0 {
            None
        } else {
            let it = self.queue.remove(0);
            proof {
                assert(self.queue@ =~= old(self).queue@.drop_first());
                assert forall|d: int| 0 <= d < self.n() implies batch_history_ok(*self, d) by {
                    assert(batch_history_ok(*old(self), d));
                }
                assert forall|i: int|
                    0 <= i < self.queue@.len() implies queue_item_wf(
                    #[trigger] self.queue@[i],
                    *self,
                ) by {
                    assert(queue_item_wf(old(self).queue@[i + 1], *old(self)));
                }
            }
            Some(it)
        }
    }

    /// Builds the initial scheduling state from the tree's pieces and
    /// schedules every leaf. `dir_files` entries must carry the views
    /// recorded in `orig`; `new_dirs_only` passes `None` entries so no
    /// batching ever happens.
    fn start(
        dirs: Vec<String>,
        children: Vec<Vec<usize>>,
        parent: Vec<usize>,
        dir_files: Vec<Option<Vec<String>>>,
        orig: Ghost<Seq<Seq<String>>>,
        worker_count: usize,
    ) -> (b: Broker)
        requires
            children@.len() == dirs@.len(),
            parent@.len() == dirs@.len(),
            dir_files@.len() == dirs@.len(),
            orig@.len() == dirs@.len(),
            ids_in_range(children@, dirs@.len() as int),
            parent_consistent(parent@, children@),
            children_distinct(children@),
            forall|d: int|
                0 <= d < dirs@.len() ==> ((#[trigger] dir_files@[d]) matches Some(f) ==> f@
                    == orig@[d]),
            forall|d: int| 0 <= d < dirs@.len() ==> (#[trigger] orig@[d]).len() <= usize::MAX,
        ensures
            b.wf(),
            b.total_dirs == dirs@.len(),
            b.worker_count == worker_count,
            b.dirs@ == dirs@,
            b.children@ == children@,
            b.parent@ == parent@,
            b.orig_files@ == orig@,
            b.completed_count == 0,
            !b.done,
            forall|d: int| 0 <= d < b.n() ==> !(#[trigger] b.completed@[d]),
            forall|d: int|
                0 <= d < b.n() ==> ((#[trigger] b.issued@[d]) <==> (children@[d]@.len() == 0 && !(
                dir_files@[d] is Some && orig@[d].len() > BATCH_THRESHOLD))),
            forall|d: int|
                0 <= d < b.n() ==> (#[trigger] b.pending_batches@[d]) as int == (
                if children@[d]@.len() == 0 && dir_files@[d] is Some && orig@[d].len()
                    > BATCH_THRESHOLD {
                    spec_batch_count(orig@[d].len()) as int
                } else {
                    0int
                }),
            forall|d: int|
                0 <= d < b.n() ==> #[trigger] b.dir_files@[d] == (if children@[d]@.len() == 0
                    && dir_files@[d] is Some && orig@[d].len() > BATCH_THRESHOLD {
                    None
                } else {
                    dir_files@[d]
                }),
            b.history@ == b.queue@,
            count_shutdown(b.history@) == 0,
            forall|d: int|
                0 <= d < b.n() && children@[d]@.len() == 0 && dir_files@[d] is Some
                    && orig@[d].len() > BATCH_THRESHOLD ==> (#[trigger] batch_files_for(
                    b.history@,
                    d,
                )).len() == spec_batch_count(orig@[d].len()) && concat_batches(
                    batch_files_for(b.history@, d),
                ) == orig@[d],
            forall|d: int|
                0 <= d < b.n() && !(children@[d]@.len() == 0 && dir_files@[d] is Some
                    && orig@[d].len() > BATCH_THRESHOLD) ==> (#[trigger] batch_files_for(
                    b.history@,
                    d,
                )).len() == 0,
    {
        let n = dirs.len();
        let mut child_counts: Vec<usize> = Vec::new();
        let mut i: usize = 0;
        while i < n
            invariant
                n == children@.len(),
                i <= n,
                child_counts@.len() == i,
                forall|d: int|
                    0 <= d < i ==> #[trigger] child_counts@[d] == children@[d]@.len(),
            decreases n - i,
        {
            child_counts.push(children[i].len());
            i += 1;
        }
        let mut issued: Vec<bool> = Vec::new();
        let mut completed: Vec<bool> = Vec::new();
        let mut pending_batches: Vec<usize> = Vec::new();
        let mut i: usize = 0;
        while i < n
            invariant
                i <= n,
                issued@.len() == i,
                completed@.len() == i,
                pending_batches@.len() == i,
                forall|d: int| 0 <= d < i ==> !(#[trigger] issued@[d]),
                forall|d: int| 0 <= d < i ==> !(#[trigger] completed@[d]),
                forall|d: int| 0 <= d < i ==> #[trigger] pending_batches@[d] == 0,
            decreases n - i,
        {
            issued.push(false);
            completed.push(false);
            pending_batches.push(0);
            i += 1;
        }
        let mut b = Broker {
            dirs,
            children,
            parent,
            child_counts,
            dir_files,
            pending_batches,
            issued,
            completed,
            completed_count: 0,
            total_dirs: n,
            worker_count,
            done: false,
            queue: Vec::new(),
            history: Ghost(Seq::empty()),
            orig_files: orig,
        };
        proof {
            lemma_count_true_zero(b.completed@);
            assert forall|d: int|
                0 <= d < b.n() implies #[trigger] b.child_counts@[d] == count_incomplete(
                b.children@[d]@,
                b.completed@,
            ) by {
                lemma_count_incomplete_all(b.children@[d]@, b.completed@);
            }
            assert forall|d: int|
                0 <= d < b.n() implies count_process_dir(b.history@, d) == (
            if #[trigger] b.issued@[d] {
                1nat
            } else {
                0nat
            }) by {
                assert(count_process_dir(b.history@, d) == 0);
            }
            assert forall|d: int| 0 <= d < b.n() implies batch_history_ok(b, d) by {
                assert(batch_files_for(b.history@, d).len() == 0);
            }
            assert(b.history@ =~= b.queue@);
            assert forall|d: int|
                0 <= d < b.n() implies (#[trigger] batch_files_for(b.history@, d)).len() == 0 by {
                assert(batch_files_for(b.history@, d) =~= Seq::<Seq<String>>::empty());
            }
        }
        let ghost df0 = dir_files@;
        let mut d: usize = 0;
        while d < n
            invariant
                b.wf(),
                d <= n,
                b.total_dirs == n,
                b.worker_count == worker_count,
                b.dirs@ == dirs@,
                b.children@ == children@,
                b.parent@ == parent@,
                b.orig_files@ == orig@,
                b.completed_count == 0,
                !b.done,
                n == dirs@.len(),
                forall|dd: int| 0 <= dd < n ==> (#[trigger] orig@[dd]).len() <= usize::MAX,
                forall|dd: int| 0 <= dd < n ==> !(#[trigger] b.completed@[dd]),
                forall|dd: int|
                    d <= dd < n ==> !(#[trigger] b.issued@[dd]) && b.pending_batches@[dd] == 0
                        && b.dir_files@[dd] == df0[dd],
                forall|dd: int|
                    0 <= dd < d ==> ((#[trigger] b.issued@[dd]) <==> (children@[dd]@.len() == 0
                        && !(df0[dd] is Some && orig@[dd].len() > BATCH_THRESHOLD))),
                forall|dd: int|
                    0 <= dd < d ==> (#[trigger] b.pending_batches@[dd]) as int == (
                    if children@[dd]@.len() == 0 && df0[dd] is Some && orig@[dd].len()
                        > BATCH_THRESHOLD {
                        spec_batch_count(orig@[dd].len()) as int
                    } else {
                        0int
                    }),
                forall|dd: int|
                    0 <= dd < d ==> #[trigger] b.dir_files@[dd] == (if children@[dd]@.len() == 0
                        && df0[dd] is Some && orig@[dd].len() > BATCH_THRESHOLD {
                        None
                    } else {
                        df0[dd]
                    }),
                b.history@ == b.queue@,
                forall|dd: int|
                    0 <= dd < d && children@[dd]@.len() == 0 && df0[dd] is Some && orig@[dd].len()
                        > BATCH_THRESHOLD ==> (#[trigger] batch_files_for(b.history@, dd)).len()
                        == spec_batch_count(orig@[dd].len()) && concat_batches(
                        batch_files_for(b.history@, dd),
                    ) == orig@[dd],
                forall|dd: int|
                    0 <= dd < n && !(dd < d && children@[dd]@.len() == 0 && df0[dd] is Some
                        && orig@[dd].len() > BATCH_THRESHOLD) ==> (#[trigger] batch_files_for(
                        b.history@,
                        dd,
                    )).len() == 0,
            decreases n - d,
        {
            let ghost bpre = b;
            if b.children[d].len() == 0 {
                b.schedule_directory(d);
                proof {
                    assert(sched_emit(bpre, b, d as int));
                    if df0[d as int] is Some && orig@[d as int].len() > BATCH_THRESHOLD {
                        assert(b.issued@ == bpre.issued@);
                        assert(b.dir_files@ == bpre.dir_files@.update(d as int, None));
                        let len = orig@[d as int].len() as int;
                        assert(spec_batch_count(orig@[d as int].len()) as int == (len + 255) / 256);
                        assert((len + 255) / 256 <= usize::MAX) by (nonlinear_arith)
                            requires
                                1 <= len <= usize::MAX,
                        ;
                        assert(b.pending_batches@[d as int] as int == spec_batch_count(
                            orig@[d as int].len(),
                        ) as int);
                    } else {
                        assert(b.issued@ == bpre.issued@.update(d as int, true));
                        assert(b.dir_files@ == bpre.dir_files@);
                        assert(b.pending_batches@ == bpre.pending_batches@);
                    }
                    assert forall|dd: int|
                        d + 1 <= dd < n implies !(#[trigger] b.issued@[dd])
                        && b.pending_batches@[dd] == 0 && b.dir_files@[dd] == df0[dd] by {
                        assert(!bpre.issued@[dd]);
                        assert(bpre.pending_batches@[dd] == 0);
                        assert(bpre.dir_files@[dd] == df0[dd]);
                    }
                    // The queue and the history grow by the same items.
                    if df0[d as int] is Some && orig@[d as int].len() > BATCH_THRESHOLD {
                        assert(b.queue@ =~= bpre.queue@ + b.queue@.subrange(
                            bpre.queue@.len() as int,
                            b.queue@.len() as int,
                        ));
                    } else {
                        assert(b.queue@ =~= bpre.queue@.push(b.queue@.last()));
                    }
                    assert(b.history@ =~= b.queue@);
                    assert forall|dd: int|
                        0 <= dd < d + 1 && children@[dd]@.len() == 0 && df0[dd] is Some
                        && orig@[dd].len() > BATCH_THRESHOLD implies (#[trigger] batch_files_for(
                        b.history@,
                        dd,
                    )).len() == spec_batch_count(orig@[dd].len()) && concat_batches(
                        batch_files_for(b.history@, dd),
                    ) == orig@[dd] by {
                        if dd < d {
                            assert(batch_files_for(b.history@, dd) == batch_files_for(
                                bpre.history@,
                                dd,
                            ));
                        }
                    }
                    assert forall|dd: int|
                        0 <= dd < n && !(dd < d + 1 && children@[dd]@.len() == 0 && df0[dd] is Some
                        && orig@[dd].len() > BATCH_THRESHOLD) implies (#[trigger] batch_files_for(
                        b.history@,
                        dd,
                    )).len() == 0 by {
                        assert(batch_files_for(b.history@, dd) == batch_files_for(
                            bpre.history@,
                            dd,
                        ));
                        assert(batch_files_for(bpre.history@, dd).len() == 0);
                    }
                }
            }
            d += 1;
        }
        b
    }

    /// Consumes a discovered tree and starts the scheduling: the
    /// children counters are seeded from the tree, the file lists move
    /// in, and every leaf directory is dispatched (large ones as file
    /// batches).
    pub fn new(tree: DirectoryTree, worker_count: usize) -> (b: Broker)
        requires
            tree.wf(),
        ensures
            b.wf(),
            b.total_dirs == tree.dirs@.len(),
            b.worker_count == worker_count,
            b.dirs@ == tree.dirs@,
            b.children@ == tree.children@,
            b.parent@ == tree.parent@,
            b.completed_count == 0,
            !b.done,
            forall|d: int| 0 <= d < b.n() ==> !(#[trigger] b.completed@[d]),
            forall|d: int| 0 <= d < b.n() ==> #[trigger] b.files_of(d) == tree.dir_files@[d]@,
            forall|d: int|
                0 <= d < b.n() ==> ((#[trigger] b.issued@[d]) <==> (tree.children@[d]@.len() == 0
                    && tree.dir_files@[d]@.len() <= BATCH_THRESHOLD)),
            forall|d: int|
                0 <= d < b.n() ==> (#[trigger] b.pending_batches@[d]) as int == (
                if tree.children@[d]@.len() == 0 && tree.dir_files@[d]@.len() > BATCH_THRESHOLD {
                    spec_batch_count(tree.dir_files@[d]@.len()) as int
                } else {
                    0int
                }),
            // Construction emits exactly the items of scheduling each
            // leaf: the queue still holds all of them, in order.
            b.history@ == b.queue@,
            count_shutdown(b.history@) == 0,
            forall|d: int|
                0 <= d < b.n() && tree.children@[d]@.len() == 0 && tree.dir_files@[d]@.len()
                    > BATCH_THRESHOLD ==> (#[trigger] batch_files_for(b.history@, d)).len()
                    == spec_batch_count(tree.dir_files@[d]@.len()) && concat_batches(
                    batch_files_for(b.history@, d),
                ) == tree.dir_files@[d]@,
            forall|d: int|
                0 <= d < b.n() && !(tree.children@[d]@.len() == 0 && tree.dir_files@[d]@.len()
                    > BATCH_THRESHOLD) ==> (#[trigger] batch_files_for(b.history@, d)).len() == 0,
    {
        let ghost tchildren = tree.children@;
        let ghost tdir_files = tree.dir_files@;
        let DirectoryTree { dirs, parent, children, dir_files, leaves: _, file_count: _, total_bytes: _ } =
            tree;
        let n = dirs.len();
        let mut df: Vec<Option<Vec<String>>> = Vec::new();
        let ghost mut of: Seq<Seq<String>> = Seq::empty();
        let mut rest = dir_files;
        let mut i: usize = 0;
        while i < n
            invariant
                i <= n,
                n == tdir_files.len(),
                rest@ =~= tdir_files.subrange(i as int, n as int),
                df@.len() == i,
                of.len() == i,
                forall|d: int|
                    0 <= d < i ==> ((#[trigger] df@[d]) matches Some(f) && f@ == tdir_files[d]@),
                forall|d: int| 0 <= d < i ==> #[trigger] of[d] == tdir_files[d]@,
                forall|d: int| 0 <= d < i ==> (#[trigger] of[d]).len() <= usize::MAX,
            decreases n - i,
        {
            let f = rest.remove(0);
            proof {
                assert(vstd::std_specs::vec::spec_vec_len(&f) == f@.len());
                of = of.push(f@);
            }
            df.push(Some(f));
            proof {
                assert(rest@ =~= tdir_files.subrange(i as int + 1, n as int));
            }
            i += 1;
        }
        Broker::start(dirs, children, parent, df, Ghost(of), worker_count)
    }

    /// Starts a scheduling pass that covers only the directories: no
    /// file list moves in and no batching ever happens, so every leaf
    /// is dispatched as a single `ProcessDir`. Used when files are
    /// deleted separately.
    pub fn new_dirs_only(tree: DirectoryTree, worker_count: usize) -> (b: Broker)
        requires
            tree.wf(),
        ensures
            b.wf(),
            b.total_dirs == tree.dirs@.len(),
            b.worker_count == worker_count,
            b.dirs@ == tree.dirs@,
            b.children@ == tree.children@,
            b.parent@ == tree.parent@,
            b.completed_count == 0,
            !b.done,
            forall|d: int| 0 <= d < b.n() ==> !(#[trigger] b.completed@[d]),
            forall|d: int|
                0 <= d < b.n() ==> ((#[trigger] b.issued@[d]) <==> tree.children@[d]@.len() == 0),
            forall|d: int| 0 <= d < b.n() ==> #[trigger] b.pending_batches@[d] == 0,
            forall|d: int| 0 <= d < b.n() ==> #[trigger] b.dir_files@[d] is None,
            // No file list is recorded, so no batching can ever
            // happen: the queue holds the leaves' items and nothing
            // else, now or later.
            forall|d: int| 0 <= d < b.n() ==> #[trigger] b.files_of(d).len() == 0,
            b.history@ == b.queue@,
            count_shutdown(b.history@) == 0,
            forall|d: int|
                0 <= d < b.n() ==> (#[trigger] batch_files_for(b.history@, d)).len() == 0,
    {
        let DirectoryTree { dirs, parent, children, dir_files: _, leaves: _, file_count: _, total_bytes: _ } =
            tree;
        let n = dirs.len();
        let mut df: Vec<Option<Vec<String>>> = Vec::new();
        let ghost mut of: Seq<Seq<String>> = Seq::empty();
        let mut i: usize = 0;
        while i < n
            invariant
                i <= n,
                df@.len() == i,
                of.len() == i,
                forall|d: int| 0 <= d < i ==> (#[trigger] df@[d]) is None,
                forall|d: int| 0 <= d < i ==> #[trigger] of[d] == Seq::<String>::empty(),
            decreases n - i,
        {
            df.push(None);
            proof {
                of = of.push(Seq::empty());
            }
            i += 1;
        }
        Broker::start(dirs, children, parent, df, Ghost(of), worker_count)
    }

    /// A worker reports one finished `DeleteFiles` batch of `dir`.
    /// The last batch to report triggers the deferred `ProcessDir`
    /// emission for `dir`. With no batch outstanding, the call has no
    /// effect.
    pub fn mark_batch_complete(&mut self, dir: usize)
        requires
            old(self).wf(),
            dir < old(self).total_dirs,
        ensures
            final(self).wf(),
            broker_core_unchanged(*old(self), *final(self)),
            final(self).completed@ == old(self).completed@,
            final(self).completed_count == old(self).completed_count,
            final(self).child_counts@ == old(self).child_counts@,
            final(self).dir_files@ == old(self).dir_files@,
            final(self).done == old(self).done,
            old(self).pending_batches@[dir as int] == 0 ==> {
                &&& final(self).pending_batches@ == old(self).pending_batches@
                &&& final(self).issued@ == old(self).issued@
                &&& final(self).queue@ == old(self).queue@
                &&& final(self).history@ == old(self).history@
            },
            old(self).pending_batches@[dir as int] > 1 ==> {
                &&& final(self).pending_batches@ == old(self).pending_batches@.update(
                    dir as int,
                    (old(self).pending_batches@[dir as int] - 1) as usize,
                )
                &&& final(self).issued@ == old(self).issued@
                &&& final(self).queue@ == old(self).queue@
                &&& final(self).history@ == old(self).history@
            },
            old(self).pending_batches@[dir as int] == 1 ==> {
                &&& final(self).pending_batches@ == old(self).pending_batches@.update(
                    dir as int,
                    0usize,
                )
                &&& final(self).issued@ == old(self).issued@.update(dir as int, true)
                &&& final(self).queue@.len() == old(self).queue@.len() + 1
                &&& (forall|i: int|
                    0 <= i < old(self).queue@.len() ==> final(self).queue@[i] == old(
                        self,
                    ).queue@[i])
                &&& final(self).queue@.last() is ProcessDir
                &&& final(self).queue@.last()->dir == dir
                &&& final(self).history@ == old(self).history@.push(final(self).queue@.last())
            },
    {
        let ghost pre = *old(self);
        let pb = self.pending_batches[dir];
        if pb == 0 {
            return ;
        }
        self.pending_batches[dir] = pb - 1;
        if pb == 1 {
            let path = self.dirs[dir].clone();
            let item = WorkItem::ProcessDir { dir, path };
            let ghost gitem = item;
            self.queue.push(item);
            self.issued[dir] = true;
            proof {
                self.history@ = self.history@.push(gitem);
            }
            proof {
                lemma_history_push(pre.history@, gitem);
                assert forall|i: int|
                    0 <= i < self.queue@.len() implies queue_item_wf(
                    #[trigger] self.queue@[i],
                    *self,
                ) by {
                    if i < self.queue@.len() - 1 {
                        assert(queue_item_wf(pre.queue@[i], pre));
                    }
                }
                assert forall|d: int| 0 <= d < self.n() implies batch_history_ok(*self, d) by {
                    assert(batch_history_ok(pre, d));
                }
            }
        } else {
            proof {
                assert forall|i: int|
                    0 <= i < self.queue@.len() implies queue_item_wf(
                    #[trigger] self.queue@[i],
                    *self,
                ) by {
                    assert(queue_item_wf(pre.queue@[i], pre));
                }
                assert forall|d: int| 0 <= d < self.n() implies batch_history_ok(*self, d) by {
                    assert(batch_history_ok(pre, d));
                }
            }
        }
    }

    /// A worker reports directory `dir` as processed (its removal
    /// attempted, successfully or not). The completed count rises by
    /// one; the parent's remaining-children counter falls, and a parent
    /// left with no incomplete child is scheduled. When every directory
    /// is accounted for, `done` is set and one `Shutdown` per worker is
    /// emitted. A report for a directory that was never issued, or that
    /// already completed, has no effect.
    #[verifier::rlimit(30)]
    pub fn mark_complete(&mut self, dir: usize)
        requires
            old(self).wf(),
            dir < old(self).total_dirs,
        ensures
            final(self).wf(),
            broker_core_unchanged(*old(self), *final(self)),
            final(self).completed_count >= old(self).completed_count,
            !(old(self).issued@[dir as int] && !old(self).completed@[dir as int]) ==> broker_unchanged(
                *old(self),
                *final(self),
            ),
            old(self).issued@[dir as int] && !old(self).completed@[dir as int] ==> {
                &&& final(self).completed@ == old(self).completed@.update(dir as int, true)
                &&& final(self).completed_count == old(self).completed_count + 1
                &&& if old(self).completed_count + 1 == old(self).total_dirs {
                    // Termination: only the shutdown sentinels are emitted.
                    &&& final(self).done
                    &&& final(self).child_counts@ == old(self).child_counts@
                    &&& final(self).dir_files@ == old(self).dir_files@
                    &&& final(self).pending_batches@ == old(self).pending_batches@
                    &&& final(self).issued@ == old(self).issued@
                    &&& final(self).queue@.len() == old(self).queue@.len() + old(self).worker_count
                    &&& (forall|i: int|
                        0 <= i < old(self).queue@.len() ==> final(self).queue@[i] == old(
                            self,
                        ).queue@[i])
                    &&& (forall|i: int|
                        old(self).queue@.len() <= i < final(self).queue@.len()
                            ==> final(self).queue@[i] is Shutdown)
                    &&& final(self).history@ == old(self).history@ + final(self).queue@.subrange(
                        old(self).queue@.len() as int,
                        final(self).queue@.len() as int,
                    )
                } else if dir == 0 {
                    // The root completed early: nothing further to drive.
                    &&& final(self).done == old(self).done
                    &&& final(self).child_counts@ == old(self).child_counts@
                    &&& final(self).dir_files@ == old(self).dir_files@
                    &&& final(self).pending_batches@ == old(self).pending_batches@
                    &&& final(self).issued@ == old(self).issued@
                    &&& final(self).queue@ == old(self).queue@
                    &&& final(self).history@ == old(self).history@
                } else {
                    let p = old(self).parent@[dir as int] as int;
                    &&& final(self).done == old(self).done
                    &&& old(self).child_counts@[p] >= 1
                    &&& final(self).child_counts@ == old(self).child_counts@.update(
                        p,
                        (old(self).child_counts@[p] - 1) as usize,
                    )
                    &&& if old(self).child_counts@[p] == 1 {
                        sched_emit(*old(self), *final(self), p)
                    } else {
                        &&& final(self).dir_files@ == old(self).dir_files@
                        &&& final(self).pending_batches@ == old(self).pending_batches@
                        &&& final(self).issued@ == old(self).issued@
                        &&& final(self).queue@ == old(self).queue@
                        &&& final(self).history@ == old(self).history@
                    }
                }
            },
    {
        let ghost pre = *old(self);
        if !self.issued[dir] || self.completed[dir] {
            return ;
        }
        proof {
            lemma_count_true_le_len(pre.completed@);
            if pre.completed_count == pre.total_dirs {
                lemma_count_true_full(pre.completed@);
            }
            assert(pre.completed_count < pre.total_dirs);
        }
        self.completed[dir] = true;
        self.completed_count = self.completed_count + 1;
        proof {
            lemma_count_true_update(pre.completed@, dir as int);
        }
        let ghost postc = *self;
        if self.completed_count == self.total_dirs {
            self.done = true;
            proof {
                // The root is always the last directory to complete: an
                // incomplete non-root directory keeps its parent
                // incomplete, because a completed parent has no
                // incomplete children.
                if dir != 0 {
                    let p = pre.parent@[dir as int] as int;
                    lemma_count_true_full(self.completed@);
                    assert(self.completed@[p]);
                    assert(pre.completed@[p]);
                    assert(pre.issued@[p]);
                    assert(pre.child_counts@[p] == 0);
                    lemma_count_incomplete_zero(pre.children@[p]@, pre.completed@);
                    assert(pre.children@[p]@.contains(dir));
                    let i = choose|i: int|
                        0 <= i < pre.children@[p]@.len() && pre.children@[p]@[i] == dir;
                    assert(pre.completed@[pre.children@[p]@[i] as int]);
                    assert(false);
                }
                assert forall|d: int|
                    0 <= d < self.n() implies #[trigger] self.child_counts@[d]
                    == count_incomplete(self.children@[d]@, self.completed@) by {
                    lemma_count_incomplete_update(self.children@[d]@, pre.completed@, dir as int);
                    if self.children@[d]@.contains(dir) {
                        let i = choose|i: int|
                            0 <= i < self.children@[d]@.len() && self.children@[d]@[i] == dir;
                        assert(self.children@[d]@[i] > d);
                        assert(false);
                    }
                }
                assert forall|i: int|
                    0 <= i < self.queue@.len() implies queue_item_wf(
                    #[trigger] self.queue@[i],
                    *self,
                ) by {
                    assert(queue_item_wf(pre.queue@[i], pre));
                }
                assert forall|d: int| 0 <= d < self.n() implies batch_history_ok(*self, d) by {
                    assert(batch_history_ok(pre, d));
                }
            }
            let wc = self.worker_count;
            let ghost mid = *self;
            let mut w: usize = 0;
            while w < wc
                invariant
                    mid.wf(),
                    self.wf(),
                    self.done,
                    w <= wc,
                    broker_core_unchanged(mid, *self),
                    self.child_counts@ == mid.child_counts@,
                    self.dir_files@ == mid.dir_files@,
                    self.pending_batches@ == mid.pending_batches@,
                    self.issued@ == mid.issued@,
                    self.completed@ == mid.completed@,
                    self.completed_count == mid.completed_count,
                    self.done == mid.done,
                    self.queue@.len() == mid.queue@.len() + w,
                    forall|i: int| 0 <= i < mid.queue@.len() ==> self.queue@[i] == mid.queue@[i],
                    forall|i: int|
                        mid.queue@.len() <= i < self.queue@.len() ==> self.queue@[i] is Shutdown,
                    self.history@ == mid.history@ + self.queue@.subrange(
                        mid.queue@.len() as int,
                        self.queue@.len() as int,
                    ),
                decreases wc - w,
            {
                let ghost prew = *self;
                self.queue.push(WorkItem::Shutdown);
                proof {
                    self.history@ = self.history@.push(WorkItem::Shutdown);
                }
                w += 1;
                proof {
                    lemma_history_push(prew.history@, WorkItem::Shutdown);
                    assert forall|i: int|
                        0 <= i < self.queue@.len() implies queue_item_wf(
                        #[trigger] self.queue@[i],
                        *self,
                    ) by {
                        if i < self.queue@.len() - 1 {
                            assert(queue_item_wf(prew.queue@[i], prew));
                        }
                    }
                    assert forall|d: int| 0 <= d < self.n() implies batch_history_ok(*self, d) by {
                        assert(batch_history_ok(prew, d));
                    }
                    assert forall|d: int|
                        0 <= d < self.n() implies count_process_dir(self.history@, d) == (
                    if #[trigger] self.issued@[d] {
                        1nat
                    } else {
                        0nat
                    }) by {
                        assert(count_process_dir(prew.history@, d) == (if prew.issued@[d] {
                            1nat
                        } else {
                            0nat
                        }));
                    }
                    assert(self.queue@.subrange(mid.queue@.len() as int, self.queue@.len() as int)
                        =~= prew.queue@.subrange(mid.queue@.len() as int, prew.queue@.len() as int)
                        + seq![WorkItem::Shutdown]);
                    assert(self.history@ =~= mid.history@ + self.queue@.subrange(
                        mid.queue@.len() as int,
                        self.queue@.len() as int,
                    ));
                }
            }
        } else {
            if dir == 0 {
                proof {
                    assert forall|d: int|
                        0 <= d < self.n() implies #[trigger] self.child_counts@[d]
                        == count_incomplete(self.children@[d]@, self.completed@) by {
                        lemma_count_incomplete_update(
                            self.children@[d]@,
                            pre.completed@,
                            dir as int,
                        );
                        if self.children@[d]@.contains(dir) {
                            let i = choose|i: int|
                                0 <= i < self.children@[d]@.len() && self.children@[d]@[i] == dir;
                            assert(self.children@[d]@[i] > d);
                            assert(false);
                        }
                    }
                    assert forall|i: int|
                        0 <= i < self.queue@.len() implies queue_item_wf(
                        #[trigger] self.queue@[i],
                        *self,
                    ) by {
                        assert(queue_item_wf(pre.queue@[i], pre));
                    }
                    assert forall|d: int|
                        0 <= d < self.n() implies batch_history_ok(*self, d) by {
                        assert(batch_history_ok(pre, d));
                    }
                }
            } else {
                let p = self.parent[dir];
                proof {
                    assert(pre.children@[p as int]@.contains(dir));
                    lemma_count_incomplete_update(pre.children@[p as int]@, pre.completed@, dir as int);
                }
                let pc = self.child_counts[p];
                self.child_counts[p] = pc - 1;
                proof {
                    assert forall|d: int|
                        0 <= d < self.n() implies #[trigger] self.child_counts@[d]
                        == count_incomplete(self.children@[d]@, self.completed@) by {
                        lemma_count_incomplete_update(
                            self.children@[d]@,
                            pre.completed@,
                            dir as int,
                        );
                        if d != p as int && self.children@[d]@.contains(dir) {
                            assert(pre.parent@[dir as int] == d);
                            assert(false);
                        }
                    }
                    assert forall|i: int|
                        0 <= i < self.queue@.len() implies queue_item_wf(
                        #[trigger] self.queue@[i],
                        *self,
                    ) by {
                        assert(queue_item_wf(pre.queue@[i], pre));
                    }
                    assert forall|d: int|
                        0 <= d < self.n() implies batch_history_ok(*self, d) by {
                        assert(batch_history_ok(pre, d));
                    }
                }
                if pc == 1 {
                    proof {
                        assert(!self.issued@[p as int]) by {
                            if pre.issued@[p as int] {
                                assert(pre.child_counts@[p as int] == 0);
                            }
                        }
                        assert(self.pending_batches@[p as int] == 0) by {
                            if pre.pending_batches@[p as int] > 0 {
                                assert(pre.child_counts@[p as int] == 0);
                            }
                        }
                    }
                    self.schedule_directory(p);
                }
            }
        }
    }

    /// Dispatches a directory whose children are all complete: a small
    /// file list yields a single `ProcessDir`; a large one is split
    /// into `DeleteFiles` batches and `ProcessDir` is deferred.
    fn schedule_directory(&mut self, dir: usize)
        requires
            old(self).wf(),
            dir < old(self).total_dirs,
            !old(self).issued@[dir as int],
            old(self).pending_batches@[dir as int] == 0,
            old(self).child_counts@[dir as int] == 0,
        ensures
            final(self).wf(),
            scheduled_effect(*old(self), *final(self), dir as int),
    {
        let ghost pre = *old(self);
        let file_count = match &self.dir_files[dir] {
            Some(f) => f.len(),
            None => 0,
        };
        if file_count > BATCH_THRESHOLD {
            let files = self.dir_files[dir].take().unwrap();
            let total = files.len();
            let k = batch_count(total);
            self.pending_batches[dir] = k;
            proof {
                lemma_batch_count_bounds(total as int);
            }
            let mut items: Vec<WorkItem> = Vec::new();
            let ghost mut bfs: Seq<Seq<String>> = Seq::empty();
            let mut start: usize = 0;
            let mut j: usize = 0;
            while j < k
                invariant
                    total == files@.len(),
                    total > BATCH_THRESHOLD,
                    k == spec_batch_count(total as nat),
                    (k - 1) * (BATCH_SIZE as int) < total as int <= (k as int) * (
                    BATCH_SIZE as int),
                    j <= k,
                    start as int == (if (j as int) * (BATCH_SIZE as int) <= total as int {
                        (j as int) * (BATCH_SIZE as int)
                    } else {
                        total as int
                    }),
                    items@.len() == j,
                    bfs.len() == j,
                    forall|jj: int|
                        0 <= jj < j ==> batch_chunk_ok(#[trigger] items@[jj], files@, dir, jj),
                    forall|jj: int| 0 <= jj < j ==> #[trigger] bfs[jj] == items@[jj]->files@,
                    concat_batches(bfs) == files@.subrange(0, start as int),
                decreases k - j,
            {
                proof {
                    assert((j as int) * (BATCH_SIZE as int) <= (k - 1) * (BATCH_SIZE as int)) by (nonlinear_arith)
                        requires
                            j as int <= k as int - 1,
                            BATCH_SIZE as int > 0,
                    ;
                    assert(((j + 1) as int) * (BATCH_SIZE as int) == (j as int) * (
                    BATCH_SIZE as int) + BATCH_SIZE as int);
                }
                let end = if total - start > BATCH_SIZE {
                    start + BATCH_SIZE
                } else {
                    total
                };
                let mut chunk: Vec<String> = Vec::new();
                let mut t = start;
                while t < end
                    invariant
                        start <= t <= end,
                        end <= total,
                        total == files@.len(),
                        chunk@ == files@.subrange(start as int, t as int),
                    decreases end - t,
                {
                    chunk.push(files[t].clone());
                    t += 1;
                    proof {
                        assert(chunk@ =~= files@.subrange(start as int, t as int));
                    }
                }
                let ghost chunkv = chunk@;
                items.push(WorkItem::DeleteFiles { files: chunk, parent_dir: dir });
                proof {
                    let bfs0 = bfs;
                    bfs = bfs.push(chunkv);
                    assert(items@.last()->files@ == chunkv);
                    assert(bfs.drop_last() =~= bfs0);
                    assert(concat_batches(bfs) == concat_batches(bfs0) + chunkv);
                    assert(files@.subrange(0, start as int) + files@.subrange(
                        start as int,
                        end as int,
                    ) =~= files@.subrange(0, end as int));
                    assert(concat_batches(bfs) =~= files@.subrange(0, end as int));
                }
                start = end;
                j += 1;
            }
            let ghost pre_qlen = self.queue@.len() as int;
            let ghost items_g = items@;
            self.queue.append(&mut items);
            proof {
                self.history@ = self.history@ + items_g;
            }
            proof {
                assert(start == total);
                assert(files@.subrange(0, total as int) =~= files@);
                lemma_history_append_batches(pre.history@, items_g, bfs, dir);
                assert(batch_files_for(pre.history@, dir as int) =~= Seq::<Seq<String>>::empty())
                    by {
                    if batch_files_for(pre.history@, dir as int).len() != 0 {
                        assert(batch_history_ok(pre, dir as int));
                    }
                }
                assert(batch_files_for(self.history@, dir as int) =~= bfs);
                assert(self.queue@.subrange(pre_qlen, self.queue@.len() as int) =~= items_g);
                assert forall|i: int|
                    0 <= i < self.queue@.len() implies queue_item_wf(
                    #[trigger] self.queue@[i],
                    *self,
                ) by {
                    if i < pre_qlen {
                        assert(queue_item_wf(pre.queue@[i], pre));
                    } else {
                        assert(batch_chunk_ok(items_g[i - pre_qlen], files@, dir, i - pre_qlen));
                    }
                }
                assert forall|d: int| 0 <= d < self.n() implies batch_history_ok(*self, d) by {
                    assert(batch_history_ok(pre, d));
                }
            }
        } else {
            let path = self.dirs[dir].clone();
            let item = WorkItem::ProcessDir { dir, path };
            let ghost gitem = item;
            self.queue.push(item);
            self.issued[dir] = true;
            proof {
                self.history@ = self.history@.push(gitem);
            }
            proof {
                lemma_history_push(pre.history@, gitem);
                assert forall|i: int|
                    0 <= i < self.queue@.len() implies queue_item_wf(
                    #[trigger] self.queue@[i],
                    *self,
                ) by {
                    if i < self.queue@.len() - 1 {
                        assert(queue_item_wf(pre.queue@[i], pre));
                    }
                }
                assert forall|d: int| 0 <= d < self.n() implies batch_history_ok(*self, d) by {
                    assert(batch_history_ok(pre, d));
                }
            }
        }
    }
}

// ---------------------------------------------------------------------
// The scheduling guarantees.
// ---------------------------------------------------------------------

/// Children complete before their parent: a directory the broker has
/// issued for removal — and a fortiori one already completed — has
/// every child directory completed. A worker therefore never receives
/// a `ProcessDir` for a directory with a live child.
pub proof fn lemma_children_complete_first(b: Broker, d: int)
    requires
        b.wf(),
        0 <= d < b.n(),
        b.issued@[d] || b.completed@[d],
    ensures
        forall|i: int|
            0 <= i < b.children@[d]@.len() ==> b.completed@[#[trigger] b.children@[d]@[i] as int],
{
    lemma_count_incomplete_zero(b.children@[d]@, b.completed@);
}

/// At termination every directory is accounted for: once `done` is
/// set, the completed count equals the total and every directory has
/// been issued and completed. Since a worker attempts the removal of
/// every directory it receives before reporting it complete, a run
/// whose removals all succeed leaves nothing under the root.
pub proof fn lemma_done_all_complete(b: Broker)
    requires
        b.wf(),
        b.done,
    ensures
        b.completed_count == b.total_dirs,
        forall|d: int| 0 <= d < b.n() ==> #[trigger] b.completed@[d] && b.issued@[d],
{
    lemma_count_true_full(b.completed@);
    assert forall|d: int| 0 <= d < b.n() implies #[trigger] b.completed@[d] && b.issued@[d] by {
        assert(b.completed@[d]);
    }
}

/// `ProcessDir` is emitted at most once per directory: exactly once
/// for an issued directory, never before.
pub proof fn lemma_process_dir_once(b: Broker, d: int)
    requires
        b.wf(),
        0 <= d < b.n(),
    ensures
        count_process_dir(b.history@, d) <= 1,
        count_process_dir(b.history@, d) == 1 <==> b.issued@[d],
{
}

/// A history whose shutdown count is zero holds no `Shutdown` item.
/// With `wf`, no `Shutdown` is ever emitted before `done` is set.
pub proof fn lemma_no_shutdown_items(h: Seq<WorkItem>)
    requires
        count_shutdown(h) == 0,
    ensures
        forall|i: int| 0 <= i < h.len() ==> !((#[trigger] h[i]) is Shutdown),
    decreases h.len(),
{
    if h.len() > 0 {
        lemma_no_shutdown_items(h.drop_last());
        assert forall|i: int| 0 <= i < h.len() implies !((#[trigger] h[i]) is Shutdown) by {
            if i < h.len() - 1 {
                assert(h.drop_last()[i] == h[i]);
            } else {
                assert(h[i] == h.last());
            }
        }
    }
}

/// A directory with an empty batch list has no `DeleteFiles` item in
/// the history, and one whose `ProcessDir` count is zero has no
/// `ProcessDir` item: the counting specifications pin the items
/// themselves.
pub proof fn lemma_no_items_for_dir(h: Seq<WorkItem>, d: int)
    ensures
        batch_files_for(h, d).len() == 0 ==> forall|i: int|
            0 <= i < h.len() ==> !((#[trigger] h[i]) is DeleteFiles && h[i]->parent_dir == d),
        count_process_dir(h, d) == 0 ==> forall|i: int|
            0 <= i < h.len() ==> !((#[trigger] h[i]) is ProcessDir && h[i]->dir == d),
    decreases h.len(),
{
    if h.len() > 0 {
        lemma_no_items_for_dir(h.drop_last(), d);
        if batch_files_for(h, d).len() == 0 {
            assert forall|i: int|
                0 <= i < h.len() implies !((#[trigger] h[i]) is DeleteFiles && h[i]->parent_dir
                == d) by {
                if i < h.len() - 1 {
                    assert(h.drop_last()[i] == h[i]);
                } else {
                    assert(h[i] == h.last());
                }
            }
        }
        if count_process_dir(h, d) == 0 {
            assert forall|i: int|
                0 <= i < h.len() implies !((#[trigger] h[i]) is ProcessDir && h[i]->dir == d) by {
                if i < h.len() - 1 {
                    assert(h.drop_last()[i] == h[i]);
                } else {
                    assert(h[i] == h.last());
                }
            }
        }
    }
}

/// A split directory's batches partition its file list: when any
/// `DeleteFiles` batch has been emitted for `d`, the file list was
/// longer than `BATCH_THRESHOLD`, the batches number
/// `⌈N / BATCH_SIZE⌉`, their concatenation is exactly the original
/// file list, and `d`'s own `ProcessDir` appears only after every
/// batch has reported complete.
pub proof fn lemma_batches_partition_files(b: Broker, d: int)
    requires
        b.wf(),
        0 <= d < b.n(),
        batch_files_for(b.history@, d).len() > 0,
    ensures
        b.files_of(d).len() > BATCH_THRESHOLD,
        batch_files_for(b.history@, d).len() == spec_batch_count(b.files_of(d).len()),
        concat_batches(batch_files_for(b.history@, d)) == b.files_of(d),
        b.issued@[d] ==> b.pending_batches@[d] == 0,
{
    assert(batch_history_ok(b, d));
}

} // verus!
