//! Discovery of the directory tree to delete.
//!
//! Directories are identified by integer ids: the id of a directory is
//! its index in `dirs`, assigned in discovery order, so a child's id is
//! always greater than its parent's. The [`Scanner`] is a state machine
//! fed by the embedding application: the application asks for a pending
//! directory, enumerates it on disk, and hands the entries back; the
//! scanner classifies them, extends the tree, and queues the
//! subdirectories that must themselves be enumerated. Symlink (junction)
//! directories are recorded as children of their parent but are never
//! queued: they are removed as links, so their targets are preserved.

use vstd::prelude::*;

verus! {

broadcast use vstd::std_specs::vec::axiom_spec_len;

/// One entry of a directory enumeration, as the application reads it
/// from the platform: full path, kind flags, and byte size (zero for
/// directories).
#[derive(Debug, Clone)]
pub struct FileEntry {
    pub path: String,
    pub is_dir: bool,
    pub is_symlink: bool,
    pub size: u64,
}

// ---------------------------------------------------------------------
// Classification of enumeration entries.
//
// An entry is a subdirectory iff `is_dir`; it is recursed into iff it
// is a subdirectory and not a symlink. Every non-directory entry
// (symlink files included) is a file to delete; bytes are accounted
// only for regular, non-symlink files.
// ---------------------------------------------------------------------

/// The subdirectory entries of an enumeration, in order.
pub open spec fn dir_entries(es: Seq<FileEntry>) -> Seq<FileEntry>
    decreases es.len(),
{
    if es.len() == 0 {
        Seq::empty()
    } else if es.last().is_dir {
        dir_entries(es.drop_last()).push(es.last())
    } else {
        dir_entries(es.drop_last())
    }
}

/// The paths of the file entries of an enumeration, in order.
pub open spec fn file_entry_paths(es: Seq<FileEntry>) -> Seq<String>
    decreases es.len(),
{
    if es.len() == 0 {
        Seq::empty()
    } else if !es.last().is_dir {
        file_entry_paths(es.drop_last()).push(es.last().path)
    } else {
        file_entry_paths(es.drop_last())
    }
}

/// The paths of the subdirectory entries of an enumeration, in order.
pub open spec fn dir_entry_paths(es: Seq<FileEntry>) -> Seq<String>
    decreases es.len(),
{
    if es.len() == 0 {
        Seq::empty()
    } else if es.last().is_dir {
        dir_entry_paths(es.drop_last()).push(es.last().path)
    } else {
        dir_entry_paths(es.drop_last())
    }
}

/// Number of file entries (regular and symlink files) in an enumeration.
pub open spec fn num_files(es: Seq<FileEntry>) -> nat {
    file_entry_paths(es).len()
}

/// Total size of the regular (non-symlink) file entries.
pub open spec fn reg_file_bytes(es: Seq<FileEntry>) -> int
    decreases es.len(),
{
    if es.len() == 0 {
        0
    } else if !es.last().is_dir && !es.last().is_symlink {
        reg_file_bytes(es.drop_last()) + es.last().size
    } else {
        reg_file_bytes(es.drop_last())
    }
}

/// Ids assigned to the subdirectory entries of an enumeration, when the
/// next free id is `base`: consecutive ids in entry order.
pub open spec fn new_child_ids(es: Seq<FileEntry>, base: int) -> Seq<usize> {
    Seq::new(dir_entries(es).len(), |j: int| (base + j) as usize)
}

/// Ids of the non-symlink subdirectory entries, in order: the
/// directories that still await their own enumeration.
pub open spec fn new_pending_ids(es: Seq<FileEntry>, base: int) -> Seq<usize>
    decreases es.len(),
{
    if es.len() == 0 {
        Seq::empty()
    } else if es.last().is_dir {
        let id = (base + dir_entries(es).len() - 1) as usize;
        if es.last().is_symlink {
            new_pending_ids(es.drop_last(), base)
        } else {
            new_pending_ids(es.drop_last(), base).push(id)
        }
    } else {
        new_pending_ids(es.drop_last(), base)
    }
}

// ---------------------------------------------------------------------
// Shape of the id-indexed tree.
// ---------------------------------------------------------------------

/// Every child id lies strictly between its parent's id and `n`:
/// ids are assigned in discovery order, so the relation is acyclic.
pub open spec fn ids_in_range(children: Seq<Vec<usize>>, n: int) -> bool {
    forall|d: int, i: int|
        0 <= d < children.len() && 0 <= i < children[d]@.len() ==> d < #[trigger] children[d]@[i]
            < n
}

/// The parent array and the child lists describe the same edges, and
/// id 0 is the root (its `parent` entry points to itself).
pub open spec fn parent_consistent(parent: Seq<usize>, children: Seq<Vec<usize>>) -> bool {
    &&& parent.len() == children.len()
    &&& (parent.len() > 0 ==> parent[0] == 0)
    &&& forall|c: int|
        1 <= c < parent.len() ==> (#[trigger] parent[c]) < c && children[parent[c] as int]@.contains(
            c as usize,
        )
    &&& forall|d: int, i: int|
        0 <= d < children.len() && 0 <= i < children[d]@.len() ==> parent[#[trigger] children[d]@[i] as int] == d
}

/// No child appears twice in one child list.
pub open spec fn children_distinct(children: Seq<Vec<usize>>) -> bool {
    forall|d: int, i: int, j: int|
        0 <= d < children.len() && 0 <= i < j < children[d]@.len() ==> #[trigger] children[d]@[i]
            != #[trigger] children[d]@[j]
}

/// A strictly increasing sequence of ids.
pub open spec fn strictly_increasing(s: Seq<usize>) -> bool {
    forall|i: int, j: int| 0 <= i < j < s.len() ==> #[trigger] s[i] < #[trigger] s[j]
}

// ---------------------------------------------------------------------
// The discovered tree.
// ---------------------------------------------------------------------

/// The dependency structure of one deletion target, produced by a
/// completed scan and consumed by the broker.
pub struct DirectoryTree {
    /// Absolute path of every discovered directory; the index is the id.
    pub dirs: Vec<String>,
    /// Parent id per directory; entry 0 points to itself.
    pub parent: Vec<usize>,
    /// Immediate child-directory ids per directory (symlink directories
    /// included). An empty list marks a leaf.
    pub children: Vec<Vec<usize>>,
    /// Immediate file paths per directory.
    pub dir_files: Vec<Vec<String>>,
    /// Ids of the leaf directories, in increasing order.
    pub leaves: Vec<usize>,
    /// Number of files discovered (saturating).
    pub file_count: usize,
    /// Total bytes of regular files discovered (saturating).
    pub total_bytes: u64,
}

impl DirectoryTree {
    /// Number of directories.
    pub open spec fn n(self) -> int {
        self.dirs@.len() as int
    }

    /// Well-formedness: all id-indexed arrays agree in length, the
    /// edges form a forest rooted at id 0, and `leaves` lists exactly
    /// the directories without children.
    pub open spec fn wf(self) -> bool {
        &&& self.parent@.len() == self.n()
        &&& self.children@.len() == self.n()
        &&& self.dir_files@.len() == self.n()
        &&& ids_in_range(self.children@, self.n())
        &&& parent_consistent(self.parent@, self.children@)
        &&& children_distinct(self.children@)
        &&& strictly_increasing(self.leaves@)
        &&& forall|i: int|
            0 <= i < self.leaves@.len() ==> (#[trigger] self.leaves@[i]) < self.n()
                && self.children@[self.leaves@[i] as int]@.len() == 0
        &&& forall|d: int|
            0 <= d < self.n() && self.children@[d]@.len() == 0 ==> self.leaves@.contains(d as usize)
    }

    /// An empty tree: no directories, no files.
    pub fn new() -> (t: DirectoryTree)
        ensures
            t.wf(),
            t.n() == 0,
            t.file_count == 0,
            t.total_bytes == 0,
            t.leaves@.len() == 0,
    {
        DirectoryTree {
            dirs: Vec::new(),
            parent: Vec::new(),
            children: Vec::new(),
            dir_files: Vec::new(),
            leaves: Vec::new(),
            file_count: 0,
            total_bytes: 0,
        }
    }
}

/// The lengths of the per-kind projections of an enumeration agree.
pub proof fn lemma_entry_counts(es: Seq<FileEntry>)
    ensures
        dir_entry_paths(es).len() == dir_entries(es).len(),
        new_pending_ids(es, 0).len() <= dir_entries(es).len(),
        dir_entries(es).len() + num_files(es) == es.len(),
        reg_file_bytes(es) >= 0,
    decreases es.len(),
{
    if es.len() > 0 {
        lemma_entry_counts(es.drop_last());
    }
}

// ---------------------------------------------------------------------
// The scanner state machine.
// ---------------------------------------------------------------------

/// Scan state of a directory: waiting in the pending stack.
pub const SCAN_QUEUED: u8 = 0;

/// Scan state of a directory: handed to the application for enumeration.
pub const SCAN_ACTIVE: u8 = 1;

/// Scan state of a directory: enumerated (or skipped on error), or a
/// symlink directory that is never enumerated.
pub const SCAN_DONE: u8 = 2;

/// Saturating addition, at the specification level.
pub open spec fn sat_add_usize(a: int, b: int) -> usize {
    if a + b <= usize::MAX {
        (a + b) as usize
    } else {
        usize::MAX
    }
}

/// Saturating addition on byte totals, at the specification level.
pub open spec fn sat_add_u64(a: int, b: int) -> u64 {
    if a + b <= u64::MAX {
        (a + b) as u64
    } else {
        u64::MAX
    }
}

/// Field-by-field equality of two scanner states, at the level of views.
pub open spec fn scanner_unchanged(a: Scanner, b: Scanner) -> bool {
    &&& a.dirs@ == b.dirs@
    &&& a.parent@ == b.parent@
    &&& a.children@ == b.children@
    &&& a.dir_files@ == b.dir_files@
    &&& a.state@ == b.state@
    &&& a.pending@ == b.pending@
    &&& a.file_count == b.file_count
    &&& a.total_bytes == b.total_bytes
}

/// How one recorded enumeration `es` of directory `dir` extends the
/// scanner state `pre` into `post`: the subdirectory entries become
/// fresh consecutive child ids of `dir` (queued unless symlinks), the
/// file entries become `dir`'s file list, and the totals grow by the
/// file count and the regular-file bytes, saturating.
pub open spec fn scan_extended(pre: Scanner, post: Scanner, dir: int, es: Seq<FileEntry>) -> bool {
    let n0 = pre.n();
    let k = dir_entries(es).len() as int;
    &&& post.dirs@ == pre.dirs@ + dir_entry_paths(es)
    &&& post.parent@ == pre.parent@ + Seq::new(k as nat, |j: int| dir as usize)
    &&& post.children@.len() == n0 + k
    &&& post.children@[dir]@ == pre.children@[dir]@ + new_child_ids(es, n0)
    &&& forall|d: int| 0 <= d < n0 && d != dir ==> post.children@[d]@ == pre.children@[d]@
    &&& forall|j: int| 0 <= j < k ==> (#[trigger] post.children@[n0 + j])@.len() == 0
    &&& post.dir_files@.len() == n0 + k
    &&& post.dir_files@[dir]@ == pre.dir_files@[dir]@ + file_entry_paths(es)
    &&& forall|d: int| 0 <= d < n0 && d != dir ==> post.dir_files@[d]@ == pre.dir_files@[d]@
    &&& forall|j: int| 0 <= j < k ==> (#[trigger] post.dir_files@[n0 + j])@.len() == 0
    &&& post.state@.len() == n0 + k
    &&& forall|d: int| 0 <= d < n0 && d != dir ==> post.state@[d] == pre.state@[d]
    &&& forall|j: int|
        0 <= j < k ==> post.state@[n0 + j] == (if dir_entries(es)[j].is_symlink {
            SCAN_DONE
        } else {
            SCAN_QUEUED
        })
    &&& post.pending@ == pre.pending@ + new_pending_ids(es, n0)
    &&& post.file_count == sat_add_usize(pre.file_count as int, num_files(es) as int)
    &&& post.total_bytes == sat_add_u64(pre.total_bytes as int, reg_file_bytes(es))
}

/// The in-progress discovery of a directory tree. The embedding
/// application repeatedly takes a pending directory, enumerates it on
/// disk, and records the entries (or an enumeration error); when
/// nothing is pending, [`Scanner::finish`] yields the tree.
pub struct Scanner {
    pub dirs: Vec<String>,
    pub parent: Vec<usize>,
    pub children: Vec<Vec<usize>>,
    pub dir_files: Vec<Vec<String>>,
    /// Per-directory scan state: `SCAN_QUEUED`, `SCAN_ACTIVE` or `SCAN_DONE`.
    pub state: Vec<u8>,
    /// Ids waiting to be enumerated, in increasing order.
    pub pending: Vec<usize>,
    pub file_count: usize,
    pub total_bytes: u64,
}

impl Scanner {
    /// Number of directories discovered so far.
    pub open spec fn n(self) -> int {
        self.dirs@.len() as int
    }

    /// Well-formedness: the id-indexed arrays agree, the edges form a
    /// forest in discovery order, and `pending` holds exactly the
    /// queued directories.
    pub open spec fn wf(self) -> bool {
        &&& self.parent@.len() == self.n()
        &&& self.children@.len() == self.n()
        &&& self.dir_files@.len() == self.n()
        &&& self.state@.len() == self.n()
        &&& ids_in_range(self.children@, self.n())
        &&& parent_consistent(self.parent@, self.children@)
        &&& children_distinct(self.children@)
        &&& forall|d: int| 0 <= d < self.n() ==> #[trigger] self.state@[d] <= 2
        &&& forall|i: int|
            0 <= i < self.pending@.len() ==> (#[trigger] self.pending@[i]) < self.n()
                && self.state@[self.pending@[i] as int] == SCAN_QUEUED
        &&& forall|d: int|
            0 <= d < self.n() && #[trigger] self.state@[d] == SCAN_QUEUED
                ==> self.pending@.contains(d as usize)
        &&& strictly_increasing(self.pending@)
    }

    /// Starts a scan at `root`: one discovered directory, queued.
    pub fn new(root: String) -> (s: Scanner)
        ensures
            s.wf(),
            s.n() == 1,
            s.dirs@[0] == root,
            s.state@ =~= seq![SCAN_QUEUED],
            s.pending@ =~= seq![0usize],
            s.children@[0]@.len() == 0,
            s.dir_files@[0]@.len() == 0,
            s.file_count == 0,
            s.total_bytes == 0,
    {
        let mut dirs: Vec<String> = Vec::new();
        dirs.push(root);
        let mut parent: Vec<usize> = Vec::new();
        parent.push(0);
        let mut children: Vec<Vec<usize>> = Vec::new();
        children.push(Vec::new());
        let mut dir_files: Vec<Vec<String>> = Vec::new();
        dir_files.push(Vec::new());
        let mut state: Vec<u8> = Vec::new();
        state.push(SCAN_QUEUED);
        let mut pending: Vec<usize> = Vec::new();
        pending.push(0);
        proof {
            assert(pending@ =~= seq![0usize]);
            assert(state@ =~= seq![SCAN_QUEUED]);
            assert(pending@[0] == 0usize);
            assert(pending@.contains(0usize));
        }
        Scanner { dirs, parent, children, dir_files, state, pending, file_count: 0, total_bytes: 0 }
    }

    /// Hands out one queued directory for enumeration, marking it
    /// active, or returns `None` when nothing is pending.
    pub fn next_pending(&mut self) -> (r: Option<(usize, String)>)
        requires
            old(self).wf(),
        ensures
            final(self).wf(),
            old(self).pending@.len() == 0 ==> r is None && scanner_unchanged(
                *old(self),
                *final(self),
            ),
            old(self).pending@.len() > 0 ==> {
                let d = old(self).pending@.last() as int;
                &&& r matches Some(p) && p.0 == old(self).pending@.last() && p.1@
                    == old(self).dirs@[d]@
                &&& final(self).pending@ == old(self).pending@.drop_last()
                &&& final(self).state@ == old(self).state@.update(d, SCAN_ACTIVE)
                &&& final(self).dirs@ == old(self).dirs@
                &&& final(self).parent@ == old(self).parent@
                &&& final(self).children@ == old(self).children@
                &&& final(self).dir_files@ == old(self).dir_files@
                &&& final(self).file_count == old(self).file_count
                &&& final(self).total_bytes == old(self).total_bytes
            },
    {
        match self.pending.pop() {
            None => None,
            Some(d) => {
                self.state[d] = SCAN_ACTIVE;
                let path = self.dirs[d].clone();
                proof {
                    let pre = *old(self);
                    assert(d == pre.pending@[pre.pending@.len() - 1]);
                    assert(self.state@ == pre.state@.update(d as int, SCAN_ACTIVE));
                    assert(self.state@[d as int] == SCAN_ACTIVE);
                    assert forall|dd: int|
                        0 <= dd < self.n() && #[trigger] self.state@[dd] == SCAN_QUEUED implies self
                        .pending@.contains(dd as usize) by {
                        assert(dd != d as int);
                        assert(vstd::std_specs::vec::spec_vec_len(&self.dirs) == self.dirs@.len());
                        assert((dd as usize) as int == dd);
                        assert(pre.state@[dd] == SCAN_QUEUED);
                        assert(pre.pending@.contains(dd as usize));
                        let i = choose|i: int|
                            0 <= i < pre.pending@.len() && pre.pending@[i] == dd as usize;
                        assert(pre.pending@[i] != d);
                        assert(i < pre.pending@.len() - 1);
                        assert(self.pending@[i] == dd as usize);
                    }
                }
                Some((d, path))
            },
        }
    }

    /// Extends the tree by one enumeration entry of directory `dir`:
    /// a subdirectory entry becomes a fresh child id (queued unless it
    /// is a symlink), a file entry joins `dir`'s file list and the
    /// saturating totals.
    fn record_one(&mut self, dir: usize, e: FileEntry)
        requires
            old(self).wf(),
            dir < old(self).dirs@.len(),
        ensures
            final(self).wf(),
            e.is_dir ==> {
                let n0 = old(self).n();
                &&& final(self).dirs@ == old(self).dirs@.push(e.path)
                &&& final(self).parent@ == old(self).parent@.push(dir)
                &&& final(self).children@.len() == n0 + 1
                &&& final(self).children@[n0]@.len() == 0
                &&& final(self).children@[dir as int]@ == old(self).children@[dir as int]@.push(
                    n0 as usize,
                )
                &&& forall|d: int|
                    0 <= d < n0 && d != dir ==> final(self).children@[d]@ == old(
                        self,
                    ).children@[d]@
                &&& final(self).dir_files@.len() == n0 + 1
                &&& final(self).dir_files@[n0]@.len() == 0
                &&& forall|d: int|
                    0 <= d < n0 ==> final(self).dir_files@[d]@ == old(self).dir_files@[d]@
                &&& final(self).state@ == old(self).state@.push(
                    if e.is_symlink {
                        SCAN_DONE
                    } else {
                        SCAN_QUEUED
                    },
                )
                &&& final(self).pending@ == (if e.is_symlink {
                    old(self).pending@
                } else {
                    old(self).pending@.push(n0 as usize)
                })
                &&& final(self).file_count == old(self).file_count
                &&& final(self).total_bytes == old(self).total_bytes
            },
            !e.is_dir ==> {
                &&& final(self).dirs@ == old(self).dirs@
                &&& final(self).parent@ == old(self).parent@
                &&& final(self).children@ == old(self).children@
                &&& final(self).state@ == old(self).state@
                &&& final(self).pending@ == old(self).pending@
                &&& final(self).dir_files@.len() == old(self).n()
                &&& final(self).dir_files@[dir as int]@ == old(self).dir_files@[dir as int]@.push(
                    e.path,
                )
                &&& forall|d: int|
                    0 <= d < old(self).n() && d != dir ==> final(self).dir_files@[d]@ == old(
                        self,
                    ).dir_files@[d]@
                &&& final(self).file_count == sat_add_usize(old(self).file_count as int, 1)
                &&& final(self).total_bytes == (if e.is_symlink {
                    old(self).total_bytes
                } else {
                    sat_add_u64(old(self).total_bytes as int, e.size as int)
                })
            },
    {
        if e.is_dir {
            let nid: usize = self.dirs.len();
            self.dirs.push(e.path);
            self.parent.push(dir);
            self.children.push(Vec::new());
            self.dir_files.push(Vec::new());
            if e.is_symlink {
                self.state.push(SCAN_DONE);
            } else {
                self.state.push(SCAN_QUEUED);
                self.pending.push(nid);
            }
            self.children[dir].push(nid);
            proof {
                let pre = *old(self);
                let n0 = pre.n();
                let post = *self;
                assert(post.children@[dir as int]@ == pre.children@[dir as int]@.push(
                    nid,
                ));
                // Edges stay a forest: the fresh id exceeds every old id.
                assert forall|c: int|
                    1 <= c < post.parent@.len() implies (#[trigger] post.parent@[c]) < c
                    && post.children@[post.parent@[c] as int]@.contains(c as usize) by {
                    if c < n0 {
                        assert(pre.parent@[c] < c);
                        assert(pre.children@[pre.parent@[c] as int]@.contains(c as usize));
                        let i = choose|i: int|
                            0 <= i < pre.children@[pre.parent@[c] as int]@.len()
                                && pre.children@[pre.parent@[c] as int]@[i] == c as usize;
                        assert(post.children@[post.parent@[c] as int]@[i] == c as usize);
                    } else {
                        assert(post.parent@[c] == dir);
                        assert(post.children@[dir as int]@.last() == nid);
                    }
                }
                assert forall|dd: int|
                    0 <= dd < post.n() && #[trigger] post.state@[dd] == SCAN_QUEUED implies post
                    .pending@.contains(dd as usize) by {
                    assert(vstd::std_specs::vec::spec_vec_len(&self.dirs) == self.dirs@.len());
                    if dd < n0 {
                        assert(pre.state@[dd] == SCAN_QUEUED);
                        let i = choose|i: int|
                            0 <= i < pre.pending@.len() && pre.pending@[i] == dd as usize;
                        assert(post.pending@[i] == dd as usize);
                    } else {
                        assert(dd == n0);
                        if !e.is_symlink {
                            assert(post.pending@.last() == nid);
                        }
                    }
                }
            }
        } else {
            self.dir_files[dir].push(e.path);
            self.file_count = if self.file_count < usize::MAX {
                self.file_count + 1
            } else {
                self.file_count
            };
            if !e.is_symlink {
                self.total_bytes = if self.total_bytes <= u64::MAX - e.size {
                    self.total_bytes + e.size
                } else {
                    u64::MAX
                };
            }
        }
    }

    /// Records the full enumeration of an active directory `dir`: every
    /// subdirectory entry becomes a child of `dir` (symlink directories
    /// as never-queued leaves), every other entry joins `dir`'s file
    /// list, and the totals grow by the file count and regular-file
    /// bytes. A directory in any other state is left untouched.
    pub fn record_enumeration(&mut self, dir: usize, entries: Vec<FileEntry>)
        requires
            old(self).wf(),
            dir < old(self).dirs@.len(),
        ensures
            final(self).wf(),
            old(self).state@[dir as int] != SCAN_ACTIVE ==> *final(self) == *old(self),
            old(self).state@[dir as int] == SCAN_ACTIVE ==> scan_extended(
                *old(self),
                *final(self),
                dir as int,
                entries@,
            ) && final(self).state@[dir as int] == SCAN_DONE,
    {
        if self.state[dir] != SCAN_ACTIVE {
            return ;
        }
        let ghost pre = *self;
        let ghost n0 = pre.n();
        let mut i: usize = 0;
        proof {
            assert(entries@.take(0) =~= Seq::<FileEntry>::empty());
            assert(pre.dirs@ =~= pre.dirs@ + dir_entry_paths(entries@.take(0)));
            assert(pre.parent@ =~= pre.parent@ + Seq::new(0, |j: int| dir as usize));
            assert(pre.children@[dir as int]@ =~= pre.children@[dir as int]@ + new_child_ids(
                entries@.take(0),
                n0,
            ));
            assert(pre.dir_files@[dir as int]@ =~= pre.dir_files@[dir as int]@ + file_entry_paths(
                entries@.take(0),
            ));
            assert(pre.pending@ =~= pre.pending@ + new_pending_ids(entries@.take(0), n0));
            assert(scan_extended(pre, *self, dir as int, entries@.take(0)));
        }
        while i < entries.len()
            invariant
                pre.wf(),
                self.wf(),
                dir < n0,
                n0 == pre.n(),
                i <= entries@.len(),
                pre.state@[dir as int] == SCAN_ACTIVE,
                self.state@[dir as int] == SCAN_ACTIVE,
                scan_extended(pre, *self, dir as int, entries@.take(i as int)),
            decreases entries@.len() - i,
        {
            let e = FileEntry {
                path: entries[i].path.clone(),
                is_dir: entries[i].is_dir,
                is_symlink: entries[i].is_symlink,
                size: entries[i].size,
            };
            proof {
                assert(e == entries@[i as int]);
            }
            let ghost mid = *self;
            self.record_one(dir, e);
            proof {
                let esi = entries@.take(i as int);
                let esi1 = entries@.take(i as int + 1);
                assert(esi1.drop_last() =~= esi);
                assert(esi1.last() == e);
                lemma_entry_counts(esi);
                lemma_entry_counts(esi1);
                let k0 = dir_entries(esi).len() as int;
                assert(mid.n() == n0 + k0);
                if e.is_dir {
                    assert(dir_entries(esi1) == dir_entries(esi).push(e));
                    assert(self.dirs@ =~= pre.dirs@ + dir_entry_paths(esi1));
                    assert(self.parent@ =~= pre.parent@ + Seq::new(
                        (k0 + 1) as nat,
                        |j: int| dir as usize,
                    ));
                    assert(new_child_ids(esi1, n0) =~= new_child_ids(esi, n0).push(
                        (n0 + k0) as usize,
                    ));
                    assert(self.children@[dir as int]@ =~= pre.children@[dir as int]@
                        + new_child_ids(esi1, n0));
                    if e.is_symlink {
                        assert(new_pending_ids(esi1, n0) =~= new_pending_ids(esi, n0));
                    } else {
                        assert(new_pending_ids(esi1, n0) =~= new_pending_ids(esi, n0).push(
                            (n0 + k0) as usize,
                        ));
                    }
                    assert(self.pending@ =~= pre.pending@ + new_pending_ids(esi1, n0));
                    assert(file_entry_paths(esi1) == file_entry_paths(esi));
                    assert(reg_file_bytes(esi1) == reg_file_bytes(esi));
                } else {
                    assert(dir_entries(esi1) == dir_entries(esi));
                    assert(dir_entry_paths(esi1) == dir_entry_paths(esi));
                    assert(new_pending_ids(esi1, n0) == new_pending_ids(esi, n0));
                    assert(file_entry_paths(esi1) == file_entry_paths(esi).push(e.path));
                    if e.is_symlink {
                        assert(reg_file_bytes(esi1) == reg_file_bytes(esi));
                    } else {
                        assert(reg_file_bytes(esi1) == reg_file_bytes(esi) + e.size);
                    }
                    assert(self.dir_files@[dir as int]@ =~= pre.dir_files@[dir as int]@
                        + file_entry_paths(esi1));
                    assert(self.file_count == sat_add_usize(
                        pre.file_count as int,
                        num_files(esi1) as int,
                    ));
                    assert(self.total_bytes == sat_add_u64(
                        pre.total_bytes as int,
                        reg_file_bytes(esi1),
                    ));
                }
                assert(scan_extended(pre, *self, dir as int, esi1));
            }
            i += 1;
        }
        self.state[dir] = SCAN_DONE;
        proof {
            assert(entries@.take(entries@.len() as int) =~= entries@);
            let post = *self;
            assert forall|dd: int|
                0 <= dd < post.n() && #[trigger] post.state@[dd] == SCAN_QUEUED implies post
                .pending@.contains(dd as usize) by {
                assert(dd != dir as int);
            }
        }
    }

    /// Marks an active directory as skipped after an enumeration error:
    /// it stays in the tree as a childless directory. A directory in
    /// any other state is left untouched.
    pub fn record_error(&mut self, dir: usize)
        requires
            old(self).wf(),
            dir < old(self).dirs@.len(),
        ensures
            final(self).wf(),
            old(self).state@[dir as int] != SCAN_ACTIVE ==> *final(self) == *old(self),
            old(self).state@[dir as int] == SCAN_ACTIVE ==> {
                &&& final(self).state@ == old(self).state@.update(dir as int, SCAN_DONE)
                &&& final(self).dirs@ == old(self).dirs@
                &&& final(self).parent@ == old(self).parent@
                &&& final(self).children@ == old(self).children@
                &&& final(self).dir_files@ == old(self).dir_files@
                &&& final(self).pending@ == old(self).pending@
                &&& final(self).file_count == old(self).file_count
                &&& final(self).total_bytes == old(self).total_bytes
            },
    {
        if self.state[dir] == SCAN_ACTIVE {
            self.state[dir] = SCAN_DONE;
        }
    }

    /// Turns the completed scan into the finished tree, computing the
    /// leaf set: exactly the directories without children, in
    /// increasing id order.
    pub fn finish(self) -> (t: DirectoryTree)
        requires
            self.wf(),
        ensures
            t.wf(),
            t.dirs@ == self.dirs@,
            t.parent@ == self.parent@,
            t.children@ == self.children@,
            t.dir_files@ == self.dir_files@,
            t.file_count == self.file_count,
            t.total_bytes == self.total_bytes,
    {
        let mut leaves: Vec<usize> = Vec::new();
        let n = self.children.len();
        let mut d: usize = 0;
        while d < n
            invariant
                n == self.children@.len(),
                d <= n,
                forall|i: int| 0 <= i < leaves@.len() ==> (#[trigger] leaves@[i]) < d,
                strictly_increasing(leaves@),
                forall|i: int|
                    0 <= i < leaves@.len() ==> self.children@[#[trigger] leaves@[i] as int]@.len()
                        == 0,
                forall|dd: int|
                    0 <= dd < d && self.children@[dd]@.len() == 0 ==> leaves@.contains(dd as usize),
            decreases n - d,
        {
            if self.children[d].len() == 0 {
                let ghost oldleaves = leaves@;
                leaves.push(d);
                proof {
                    assert forall|dd: int|
                        0 <= dd < d + 1 && self.children@[dd]@.len() == 0 implies leaves@.contains(
                        dd as usize,
                    ) by {
                        if dd < d {
                            let i = choose|i: int|
                                0 <= i < oldleaves.len() && oldleaves[i] == dd as usize;
                            assert(leaves@[i] == dd as usize);
                        } else {
                            assert(leaves@.last() == d);
                        }
                    }
                }
            } else {
                proof {
                    assert forall|dd: int|
                        0 <= dd < d + 1 && self.children@[dd]@.len() == 0 implies leaves@.contains(
                        dd as usize,
                    ) by {
                        assert(dd != d);
                    }
                }
            }
            d += 1;
        }
        DirectoryTree {
            dirs: self.dirs,
            parent: self.parent,
            children: self.children,
            dir_files: self.dir_files,
            leaves,
            file_count: self.file_count,
            total_bytes: self.total_bytes,
        }
    }
}

/// After a scan in which nothing is pending and no enumeration is
/// outstanding, every discovered directory has reached its final
/// state: enumerated, skipped on error, or a symlink leaf. Together
/// with the contract of `record_enumeration` — every subdirectory
/// entry of an enumerated directory is itself added to the tree —
/// this says the scan visits every directory its traversal rules
/// reach, symlink directories included but never recursed into.
pub proof fn lemma_scan_complete(s: Scanner)
    requires
        s.wf(),
        s.pending@.len() == 0,
        forall|d: int| 0 <= d < s.n() ==> #[trigger] s.state@[d] != SCAN_ACTIVE,
    ensures
        forall|d: int| 0 <= d < s.n() ==> #[trigger] s.state@[d] == SCAN_DONE,
{
    assert forall|d: int| 0 <= d < s.n() implies #[trigger] s.state@[d] == SCAN_DONE by {
        if s.state@[d] == SCAN_QUEUED {
            assert(s.pending@.contains(d as usize));
        }
    }
}

/// What the scan does with a failed directory enumeration.
#[derive(Debug)]
pub enum EnumerationAction {
    /// The directory was raced away, or is a broken reparse point:
    /// treat the enumeration as empty and go on.
    TreatEmpty,
    /// Any other error: skip this subtree and report the error.
    Propagate,
}

/// An error that says the directory itself is missing: file not
/// found, path not found, or the generic "not found" kind. This is
/// narrower than [`crate::error::spec_is_not_found_error`]: an
/// invalid-name or bad-pathname error is *not* a missing directory.
pub open spec fn spec_is_missing_dir_error(e: crate::error::OsError) -> bool {
    e.code == Some(2i32) || e.code == Some(3i32) || e.not_found_kind
}

/// Classifies an enumeration error: only a missing directory (it
/// raced away, or a reparse point is broken) reads as an empty
/// result; everything else — permission problems, invalid names —
/// propagates, so no file is silently lost.
pub fn enumeration_error_action(error: &crate::error::OsError) -> (a: EnumerationAction)
    ensures
        spec_is_missing_dir_error(*error) ==> a is TreatEmpty,
        !spec_is_missing_dir_error(*error) ==> a is Propagate,
{
    let missing = match error.code {
        Some(c) => c == 2 || c == 3,
        None => false,
    };
    if missing || error.not_found_kind {
        EnumerationAction::TreatEmpty
    } else {
        EnumerationAction::Propagate
    }
}

/// All discovered file paths, in directory-id order.
pub open spec fn all_file_paths(dir_files: Seq<Vec<String>>) -> Seq<String>
    decreases dir_files.len(),
{
    if dir_files.len() == 0 {
        Seq::empty()
    } else {
        all_file_paths(dir_files.drop_last()) + dir_files.last()@
    }
}

/// Every path an unlock pass inspects: each discovered file, then
/// each discovered directory, then the root's own spelling as the
/// caller gave it.
pub fn unlock_targets(tree: &DirectoryTree, root: &str) -> (r: Vec<String>)
    ensures
        r@.len() == all_file_paths(tree.dir_files@).len() + tree.dirs@.len() + 1,
        r@.take(r@.len() - 1) == all_file_paths(tree.dir_files@) + tree.dirs@,
        r@.last()@ == root@,
{
    let mut out: Vec<String> = Vec::new();
    let nd = tree.dir_files.len();
    let mut d: usize = 0;
    while d < nd
        invariant
            nd == tree.dir_files@.len(),
            d <= nd,
            out@ == all_file_paths(tree.dir_files@.take(d as int)),
        decreases nd - d,
    {
        let m = tree.dir_files[d].len();
        let mut j: usize = 0;
        while j < m
            invariant
                nd == tree.dir_files@.len(),
                d < nd,
                m == tree.dir_files@[d as int]@.len(),
                j <= m,
                out@ == all_file_paths(tree.dir_files@.take(d as int)) + tree.dir_files@[d as int]@.take(j as int),
            decreases m - j,
        {
            out.push(tree.dir_files[d][j].clone());
            proof {
                assert(out@ =~= all_file_paths(tree.dir_files@.take(d as int))
                    + tree.dir_files@[d as int]@.take(j as int + 1));
            }
            j += 1;
        }
        proof {
            assert(tree.dir_files@.take(d as int + 1).drop_last() =~= tree.dir_files@.take(
                d as int,
            ));
            assert(tree.dir_files@[d as int]@.take(m as int) =~= tree.dir_files@[d as int]@);
            assert(out@ =~= all_file_paths(tree.dir_files@.take(d as int + 1)));
        }
        d += 1;
    }
    proof {
        assert(tree.dir_files@.take(nd as int) =~= tree.dir_files@);
    }
    let n = tree.dirs.len();
    let mut i: usize = 0;
    while i < n
        invariant
            n == tree.dirs@.len(),
            i <= n,
            out@ == all_file_paths(tree.dir_files@) + tree.dirs@.take(i as int),
        decreases n - i,
    {
        out.push(tree.dirs[i].clone());
        proof {
            assert(out@ =~= all_file_paths(tree.dir_files@) + tree.dirs@.take(i as int + 1));
        }
        i += 1;
    }
    proof {
        assert(tree.dirs@.take(n as int) =~= tree.dirs@);
    }
    out.push(root.to_owned());
    proof {
        assert(out@.take(out@.len() - 1) =~= all_file_paths(tree.dir_files@) + tree.dirs@);
    }
    out
}

/// Child count at or above which a scan recurses into the children in
/// parallel rather than sequentially; lower on machines with many cores.
pub fn scan_parallel_threshold(cpus: usize) -> (t: usize)
    ensures
        t == (if cpus >= 8 { 2int } else { 3int }),
{
    if cpus >= 8 {
        2
    } else {
        3
    }
}

} // verus!
