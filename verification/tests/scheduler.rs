//! End-to-end scheduling scenarios: a simulated worker pumps the
//! broker's queue exactly as the worker protocol prescribes and the
//! observable order and totals are checked.

use rmx::broker::{Broker, WorkItem, BATCH_SIZE, BATCH_THRESHOLD};
use rmx::tree::{DirectoryTree, FileEntry, Scanner};

fn sim_entry(path: &str, is_dir: bool, is_symlink: bool, size: u64) -> FileEntry {
    FileEntry {
        path: path.to_string(),
        is_dir,
        is_symlink,
        size,
    }
}

/// Drives a scan to completion, answering each enumeration request
/// from the given lookup.
fn sim_scan(root: &str, lookup: &dyn Fn(&str) -> Vec<FileEntry>) -> DirectoryTree {
    let mut sc = Scanner::new(root.to_string());
    while let Some((id, path)) = sc.next_pending() {
        let entries = lookup(&path);
        sc.record_enumeration(id, entries);
    }
    sc.finish()
}

struct SimRun {
    completed_order: Vec<usize>,
    removed_dirs: Vec<String>,
    deleted_files: Vec<String>,
    delete_batches: usize,
    batch_sizes: Vec<usize>,
    shutdowns: usize,
}

/// Pumps the queue like a single worker: delete batch files and
/// report, or take a directory's files, remove it and report.
fn sim_run(broker: &mut Broker) -> SimRun {
    let mut run = SimRun {
        completed_order: Vec::new(),
        removed_dirs: Vec::new(),
        deleted_files: Vec::new(),
        delete_batches: 0,
        batch_sizes: Vec::new(),
        shutdowns: 0,
    };
    while let Some(item) = broker.next_work() {
        match item {
            WorkItem::DeleteFiles { files, parent_dir } => {
                run.delete_batches += 1;
                run.batch_sizes.push(files.len());
                run.deleted_files.extend(files);
                broker.mark_batch_complete(parent_dir);
            }
            WorkItem::ProcessDir { dir, path } => {
                if let Some(files) = broker.take_files(dir) {
                    run.deleted_files.extend(files);
                }
                run.removed_dirs.push(path);
                run.completed_order.push(dir);
                broker.mark_complete(dir);
            }
            WorkItem::Shutdown => {
                run.shutdowns += 1;
            }
        }
    }
    run
}

/// Flat tree: one directory with 100 files of 10 bytes each.
#[test]
fn flat_tree_totals_and_full_deletion() {
    let tree = sim_scan("root", &|path| {
        if path == "root" {
            (0..100)
                .map(|i| sim_entry(&format!("root/f{}", i), false, false, 10))
                .collect()
        } else {
            Vec::new()
        }
    });
    assert_eq!(tree.dirs.len(), 1);
    assert_eq!(tree.file_count, 100);
    assert_eq!(tree.total_bytes, 1000);

    let mut broker = Broker::new(tree, 4);
    assert_eq!(broker.total_dirs(), 1);
    let run = sim_run(&mut broker);
    assert_eq!(run.deleted_files.len(), 100);
    assert_eq!(run.removed_dirs, vec!["root".to_string()]);
    assert_eq!(run.delete_batches, 0);
    assert_eq!(run.shutdowns, 4);
    assert_eq!(broker.completed_count(), broker.total_dirs());
}

/// Large single directory: 5000 files split into ⌈5000/256⌉ = 20
/// batches, with exactly one ProcessDir emitted after all batches.
#[test]
fn large_directory_batches() {
    assert!(5000 > BATCH_THRESHOLD);
    let tree = sim_scan("root", &|path| {
        if path == "root" {
            (0..5000)
                .map(|i| sim_entry(&format!("root/file{}.txt", i), false, false, 1))
                .collect()
        } else {
            Vec::new()
        }
    });
    assert_eq!(tree.file_count, 5000);

    let mut broker = Broker::new(tree, 2);
    let run = sim_run(&mut broker);
    assert_eq!(run.delete_batches, (5000 + BATCH_SIZE - 1) / BATCH_SIZE);
    assert_eq!(run.delete_batches, 20);
    assert_eq!(run.deleted_files.len(), 5000);
    for (i, sz) in run.batch_sizes.iter().enumerate() {
        if i < 19 {
            assert_eq!(*sz, 256);
        } else {
            assert_eq!(*sz, 5000 - 19 * 256);
        }
    }
    // The directory itself is processed exactly once, after the batches.
    assert_eq!(run.removed_dirs, vec!["root".to_string()]);
    assert_eq!(broker.completed_count(), 1);
    assert_eq!(run.shutdowns, 2);
}

/// At construction the queue of a large single-leaf tree holds
/// exactly the 20 batches and nothing else; the directory's own
/// `ProcessDir` appears only once the last batch reports complete.
#[test]
fn process_dir_deferred_until_batches_report() {
    let tree = sim_scan("root", &|path| {
        if path == "root" {
            (0..5000)
                .map(|i| sim_entry(&format!("root/f{}", i), false, false, 1))
                .collect()
        } else {
            Vec::new()
        }
    });
    let mut broker = Broker::new(tree, 1);
    let mut batches: Vec<usize> = Vec::new();
    while let Some(item) = broker.next_work() {
        match item {
            WorkItem::DeleteFiles { files, parent_dir } => {
                batches.push(files.len());
                assert_eq!(parent_dir, 0);
            }
            WorkItem::ProcessDir { .. } => panic!("ProcessDir before any batch reported"),
            WorkItem::Shutdown => panic!("Shutdown before completion"),
        }
    }
    assert_eq!(batches.len(), 20);
    for _ in 0..19 {
        broker.mark_batch_complete(0);
        assert!(broker.next_work().is_none());
    }
    broker.mark_batch_complete(0);
    match broker.next_work() {
        Some(WorkItem::ProcessDir { dir, path }) => {
            assert_eq!(dir, 0);
            assert_eq!(path, "root");
        }
        _ => panic!("the last batch report must release ProcessDir"),
    }
    assert!(broker.next_work().is_none());
}

/// The batches, concatenated in emission order, are exactly the
/// original file list.
#[test]
fn batches_preserve_file_order() {
    let tree = sim_scan("root", &|path| {
        if path == "root" {
            (0..1500)
                .map(|i| sim_entry(&format!("root/f{:04}", i), false, false, 0))
                .collect()
        } else {
            Vec::new()
        }
    });
    let mut broker = Broker::new(tree, 1);
    let run = sim_run(&mut broker);
    let expect: Vec<String> = (0..1500).map(|i| format!("root/f{:04}", i)).collect();
    assert_eq!(run.deleted_files, expect);
}

/// Dependency ordering: root/a/b/c and root/a/d, one file per
/// directory. The initial leaves are c and d; completion order is
/// {c, d} in some order, then b, then a, then root.
#[test]
fn dependency_ordering() {
    let tree = sim_scan("root", &|path| match path {
        "root" => vec![
            sim_entry("root/a", true, false, 0),
            sim_entry("root/r.txt", false, false, 1),
        ],
        "root/a" => vec![
            sim_entry("root/a/b", true, false, 0),
            sim_entry("root/a/d", true, false, 0),
            sim_entry("root/a/a.txt", false, false, 1),
        ],
        "root/a/b" => vec![
            sim_entry("root/a/b/c", true, false, 0),
            sim_entry("root/a/b/b.txt", false, false, 1),
        ],
        "root/a/b/c" => vec![sim_entry("root/a/b/c/c.txt", false, false, 1)],
        "root/a/d" => vec![sim_entry("root/a/d/d.txt", false, false, 1)],
        _ => Vec::new(),
    });
    assert_eq!(tree.dirs.len(), 5);
    assert_eq!(tree.file_count, 5);
    assert_eq!(tree.leaves.len(), 2);

    let mut broker = Broker::new(tree, 1);
    let run = sim_run(&mut broker);
    let pos = |name: &str| {
        run.removed_dirs
            .iter()
            .position(|p| p == name)
            .expect("directory missing from removal order")
    };
    let c = pos("root/a/b/c");
    let d = pos("root/a/d");
    let b = pos("root/a/b");
    let a = pos("root/a");
    let root = pos("root");
    assert!(c < b);
    assert!(d < a);
    assert!(b < a);
    assert!(a < root);
    assert_eq!(run.removed_dirs.len(), 5);
    assert_eq!(run.deleted_files.len(), 5);
}

/// Empty directory as input: one directory, nothing else.
#[test]
fn empty_directory() {
    let tree = sim_scan("empty", &|_| Vec::new());
    assert_eq!(tree.dirs.len(), 1);
    assert_eq!(tree.file_count, 0);
    assert_eq!(tree.total_bytes, 0);
    let mut broker = Broker::new(tree, 1);
    let run = sim_run(&mut broker);
    assert_eq!(run.removed_dirs, vec!["empty".to_string()]);
    assert_eq!(run.shutdowns, 1);
}

/// A chain of 200 empty nested directories is removed bottom-up.
#[test]
fn deep_nesting_chain() {
    let tree = sim_scan("level-0", &|path| {
        let depth: usize = path
            .rsplit('-')
            .next()
            .and_then(|s| s.parse().ok())
            .unwrap();
        if depth < 199 {
            vec![sim_entry(&format!("level-{}", depth + 1), true, false, 0)]
        } else {
            Vec::new()
        }
    });
    assert_eq!(tree.dirs.len(), 200);
    let mut broker = Broker::new(tree, 1);
    let run = sim_run(&mut broker);
    assert_eq!(run.removed_dirs.len(), 200);
    // Bottom-up: the deepest level first, the root last.
    assert_eq!(run.removed_dirs[0], "level-199");
    assert_eq!(run.removed_dirs[199], "level-0");
    assert_eq!(broker.completed_count(), 200);
}

/// After a successful simulated run, every discovered entry was
/// deleted exactly once and nothing is outstanding.
#[test]
fn nothing_left_after_completion() {
    let tree = sim_scan("top", &|path| match path {
        "top" => vec![
            sim_entry("top/sub1", true, false, 0),
            sim_entry("top/sub2", true, false, 0),
            sim_entry("top/x.txt", false, false, 3),
        ],
        "top/sub1" => vec![sim_entry("top/sub1/y.txt", false, false, 4)],
        "top/sub2" => Vec::new(),
        _ => Vec::new(),
    });
    let all_dirs = tree.dirs.clone();
    let mut broker = Broker::new(tree, 3);
    let run = sim_run(&mut broker);
    // Every directory removed once.
    let mut removed = run.removed_dirs.clone();
    removed.sort();
    let mut expected = all_dirs;
    expected.sort();
    assert_eq!(removed, expected);
    // Every file deleted once.
    let mut files = run.deleted_files.clone();
    files.sort();
    assert_eq!(files, vec!["top/sub1/y.txt".to_string(), "top/x.txt".to_string()]);
    assert_eq!(broker.completed_count(), broker.total_dirs());
    assert_eq!(run.shutdowns, 3);
}

/// A junction inside the tree is scheduled as a leaf: it is removed
/// as a link (never enumerated), and its target — outside the tree —
/// is untouched.
#[test]
fn junction_preserved_as_leaf() {
    let mut enumerated: Vec<String> = Vec::new();
    let mut sc = Scanner::new("root/target_with_link".to_string());
    while let Some((id, path)) = sc.next_pending() {
        enumerated.push(path.clone());
        let entries = if path == "root/target_with_link" {
            vec![
                sim_entry("root/target_with_link/normal_file.txt", false, false, 6),
                sim_entry("root/target_with_link/junction_to_real", true, true, 0),
            ]
        } else {
            Vec::new()
        };
        sc.record_enumeration(id, entries);
    }
    // The junction was never handed out for enumeration.
    assert_eq!(enumerated, vec!["root/target_with_link".to_string()]);
    let tree = sc.finish();
    assert_eq!(tree.dirs.len(), 2);
    assert!(tree
        .dirs
        .contains(&"root/target_with_link/junction_to_real".to_string()));

    let mut broker = Broker::new(tree, 1);
    let run = sim_run(&mut broker);
    // The junction is removed before its parent, as a directory entry
    // of its own; nothing under the junction target was ever listed.
    assert_eq!(
        run.removed_dirs,
        vec![
            "root/target_with_link/junction_to_real".to_string(),
            "root/target_with_link".to_string(),
        ]
    );
    assert_eq!(run.deleted_files, vec!["root/target_with_link/normal_file.txt".to_string()]);
}

/// Unicode and punctuation-heavy names flow through scan and
/// scheduling unchanged.
#[test]
fn special_character_names() {
    let names = vec![
        "file with spaces.txt",
        "file\twith\ttabs.txt",
        "中文文件名.txt",
        "日本語ファイル.txt",
        "emoji_🎉_file.txt",
        "file'with'quotes.txt",
        "[brackets].txt",
        "{braces}.txt",
        "file&ampersand.txt",
    ];
    let owned: Vec<String> = names.iter().map(|n| format!("root/{}", n)).collect();
    let entries: Vec<FileEntry> = owned
        .iter()
        .map(|p| FileEntry {
            path: p.clone(),
            is_dir: false,
            is_symlink: false,
            size: 7,
        })
        .collect();
    let tree = sim_scan("root", &|path| {
        if path == "root" {
            entries
                .iter()
                .map(|e| FileEntry {
                    path: e.path.clone(),
                    is_dir: false,
                    is_symlink: false,
                    size: e.size,
                })
                .collect()
        } else {
            Vec::new()
        }
    });
    assert_eq!(tree.file_count, names.len());
    let mut broker = Broker::new(tree, 1);
    let run = sim_run(&mut broker);
    assert_eq!(run.deleted_files, owned);
}

/// A dirs-only broker never batches: one ProcessDir per directory and
/// no DeleteFiles items, even with files recorded in the tree.
#[test]
fn dirs_only_never_batches() {
    let tree = sim_scan("root", &|path| {
        if path == "root" {
            let mut v: Vec<FileEntry> = (0..2000)
                .map(|i| sim_entry(&format!("root/f{}", i), false, false, 1))
                .collect();
            v.push(sim_entry("root/sub", true, false, 0));
            v
        } else {
            Vec::new()
        }
    });
    let mut broker = Broker::new_dirs_only(tree, 2);
    let run = sim_run(&mut broker);
    assert_eq!(run.delete_batches, 0);
    assert_eq!(run.deleted_files.len(), 0);
    assert_eq!(run.removed_dirs.len(), 2);
    assert_eq!(run.shutdowns, 2);
}

/// A report for a directory that was never issued, or a duplicate
/// report, leaves the broker's progress untouched.
#[test]
fn spurious_reports_ignored() {
    let tree = sim_scan("root", &|path| {
        if path == "root" {
            vec![sim_entry("root/sub", true, false, 0)]
        } else {
            Vec::new()
        }
    });
    let mut broker = Broker::new(tree, 1);
    // "root" (id 0) is not a leaf: not yet issued.
    broker.mark_complete(0);
    assert_eq!(broker.completed_count(), 0);
    // No batches outstanding anywhere.
    broker.mark_batch_complete(0);
    broker.mark_batch_complete(1);
    assert_eq!(broker.completed_count(), 0);
    let run = sim_run(&mut broker);
    assert_eq!(run.removed_dirs.len(), 2);
    // A duplicate completion after the run changes nothing.
    broker.mark_complete(0);
    assert_eq!(broker.completed_count(), 2);
}

/// completed_count rises by one per accepted report and ends equal to
/// total_dirs.
#[test]
fn completion_count_monotone() {
    let tree = sim_scan("root", &|path| match path {
        "root" => vec![
            sim_entry("root/a", true, false, 0),
            sim_entry("root/b", true, false, 0),
        ],
        _ => Vec::new(),
    });
    let mut broker = Broker::new(tree, 1);
    let mut last = broker.completed_count();
    assert_eq!(last, 0);
    while let Some(item) = broker.next_work() {
        match item {
            WorkItem::ProcessDir { dir, .. } => {
                broker.take_files(dir);
                broker.mark_complete(dir);
                let now = broker.completed_count();
                assert_eq!(now, last + 1);
                last = now;
            }
            WorkItem::DeleteFiles { parent_dir, .. } => {
                broker.mark_batch_complete(parent_dir);
            }
            WorkItem::Shutdown => {}
        }
    }
    assert_eq!(broker.completed_count(), broker.total_dirs());
    assert_eq!(broker.completed_count(), 3);
}
