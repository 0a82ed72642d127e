use twoway::action::{ActionKind, Prio, SyncAction};
use twoway::datatypes::{ChangeType, DiffItem, DiffSet, DirIndex, FileType, PathData};
use twoway::diff::compare_dirs;
use twoway::index::{is_indexed, ScanEntry};
use twoway::path::FsPath;
use twoway::pathmap::PathMap;
use twoway::plan::{append_base_path, plan_actions, sync_diffs};
use twoway::resolve::{resolve_pair, solve_conflicts};
use twoway::run::{DestState, RunAction, StepKind};
use twoway::schedule::schedule;
use twoway::sync_loop::{next_step, plan_bootstrap, plan_cycle, Command, LoopEvent, LoopStep, Start};

fn p(s: &str) -> FsPath {
    FsPath::from_parts(s.split('/').filter(|c| !c.is_empty()).map(|c| c.to_string()).collect())
}

fn file(mtime: i64) -> PathData {
    PathData { mtime, perms: 0o644, size: 10, ftype: FileType::File }
}

fn dir(mtime: i64) -> PathData {
    PathData { mtime, perms: 0o755, size: 4096, ftype: FileType::Dir }
}

fn index(root: &str, items: &[(&str, PathData)]) -> DirIndex {
    let mut idx = DirIndex::new(1000, p(root));
    for (k, v) in items {
        idx.contents.insert(p(k), *v);
    }
    idx
}

fn diffset(items: &[(&str, ChangeType, i64)]) -> DiffSet {
    let mut d: DiffSet = PathMap::new();
    for (k, c, m) in items {
        d.insert(p(k), DiffItem::new(*c, FileType::File, *m));
    }
    d
}

fn kind_of(d: &DiffSet, k: &str) -> Option<ChangeType> {
    d.get(&p(k)).map(|i| i.diff)
}

fn summary(actions: &[SyncAction]) -> Vec<(ActionKind, Option<FsPath>, FsPath)> {
    actions
        .iter()
        .map(|a| (a.kind(), a.source().map(|s| s.duplicate()), a.destination().duplicate()))
        .collect()
}

#[test]
fn path_join_and_equality() {
    let j = append_base_path(&p("docs/readme.txt"), &p("home/a"));
    assert!(j == p("home/a/docs/readme.txt"));
    assert_eq!(j.depth(), 4);
    assert!(j != p("home/a/docs"));
    assert!(FsPath::empty().depth() == 0);
}

#[test]
fn path_map_insert_get_remove() {
    let mut m: PathMap<i64> = PathMap::new();
    assert!(m.is_empty());
    m.insert(p("a"), 1);
    m.insert(p("b/c"), 2);
    m.insert(p("a"), 3);
    assert_eq!(m.len(), 2);
    assert_eq!(m.get(&p("a")), Some(&3));
    assert_eq!(m.get(&p("b/c")), Some(&2));
    assert_eq!(m.get(&p("b")), None);
    m.remove(&p("a"));
    assert_eq!(m.len(), 1);
    assert_eq!(m.get(&p("a")), None);
    m.remove(&p("zzz"));
    assert_eq!(m.len(), 1);
}

#[test]
fn diff_item_new_keeps_fields() {
    let d = DiffItem::new(ChangeType::Older, FileType::Link, -5);
    assert_eq!(d.diff, ChangeType::Older);
    assert_eq!(d.ftype, FileType::Link);
    assert_eq!(d.mtime, -5);
}

#[test]
fn labels() {
    assert_eq!(ChangeType::Newer.label(), "Newer");
    assert_eq!(ChangeType::Older.label(), "Older");
    assert_eq!(ChangeType::NewOnly.label(), "Added");
    assert_eq!(ChangeType::RefOnly.label(), "Removed");
    assert_eq!(ChangeType::Modified.label(), "Modified");
    assert_eq!(FileType::File.label(), "File");
    assert_eq!(FileType::Dir.label(), "Dir");
    assert_eq!(FileType::Link.label(), "Link");
    assert_eq!(ActionKind::CopyMeta.label(), "CopyMeta");
    assert_eq!(ActionKind::DeleteDir.label(), "DeleteDir");
}

#[test]
fn classify_file_types() {
    assert_eq!(FileType::classify(true, false), FileType::Dir);
    assert_eq!(FileType::classify(true, true), FileType::Dir);
    assert_eq!(FileType::classify(false, true), FileType::Link);
    assert_eq!(FileType::classify(false, false), FileType::File);
}

#[test]
fn scan_skips_root_and_state_file() {
    let entries = vec![
        ScanEntry { path: p(""), is_dir: true, is_symlink: false, mtime: 1, perms: 0o755, size: 0 },
        ScanEntry { path: p(".twoway.json"), is_dir: false, is_symlink: false, mtime: 2, perms: 0o644, size: 3 },
        ScanEntry { path: p("docs"), is_dir: true, is_symlink: false, mtime: 100, perms: 0o755, size: 4096 },
        ScanEntry { path: p("docs/.twoway.json"), is_dir: false, is_symlink: false, mtime: 5, perms: 0o644, size: 1 },
        ScanEntry { path: p("ln"), is_dir: false, is_symlink: true, mtime: 7, perms: 0o777, size: 4 },
        ScanEntry { path: p("docs"), is_dir: true, is_symlink: false, mtime: 150, perms: 0o700, size: 4096 },
    ];
    let idx = DirIndex::from_scan(42, p("home/a"), &entries);
    assert_eq!(idx.scantime, 42);
    assert!(idx.root == p("home/a"));
    assert_eq!(idx.contents.len(), 3);
    assert_eq!(idx.contents.get(&p(".twoway.json")), None);
    assert_eq!(idx.contents.get(&p("")), None);
    assert_eq!(idx.contents.get(&p("docs")), Some(&PathData { mtime: 150, perms: 0o700, size: 4096, ftype: FileType::Dir }));
    assert_eq!(idx.contents.get(&p("docs/.twoway.json")).map(|d| d.size), Some(1));
    assert_eq!(idx.contents.get(&p("ln")).map(|d| d.ftype), Some(FileType::Link));
    assert!(!is_indexed(&p(".twoway.json")));
    assert!(is_indexed(&p("x/.twoway.json")));
}

#[test]
fn compare_classifies_every_change() {
    let mut same_time_other_perms = file(50);
    same_time_other_perms.perms = 0o600;
    let reference = index("r", &[("same", file(10)), ("newer", file(10)), ("older", file(30)), ("perm", file(50)), ("gone", dir(7))]);
    let current = index("r", &[("same", file(10)), ("newer", file(20)), ("older", file(25)), ("perm", same_time_other_perms), ("added", file(99))]);
    let d = compare_dirs(&current, &reference);
    assert_eq!(d.len(), 5);
    assert_eq!(kind_of(&d, "same"), None);
    assert_eq!(kind_of(&d, "newer"), Some(ChangeType::Newer));
    assert_eq!(d.get(&p("newer")).unwrap().mtime, 20);
    assert_eq!(kind_of(&d, "older"), Some(ChangeType::Older));
    assert_eq!(d.get(&p("older")).unwrap().mtime, 25);
    assert_eq!(kind_of(&d, "perm"), Some(ChangeType::Modified));
    assert_eq!(kind_of(&d, "added"), Some(ChangeType::NewOnly));
    assert_eq!(kind_of(&d, "gone"), Some(ChangeType::RefOnly));
    let gone = d.get(&p("gone")).unwrap();
    assert_eq!((gone.ftype, gone.mtime), (FileType::Dir, 7));
}

#[test]
fn compare_with_itself_is_empty() {
    let a = index("r", &[("a", file(1)), ("b", dir(2)), ("b/c", file(3))]);
    assert!(compare_dirs(&a, &a).is_empty());
    let empty = index("r", &[]);
    assert!(compare_dirs(&empty, &empty).is_empty());
}

#[test]
fn compare_both_ways_swaps_added_and_removed() {
    let a = index("r", &[("only_a", file(1)), ("both", file(2))]);
    let b = index("r", &[("only_b", file(1)), ("both", file(3))]);
    let ab = compare_dirs(&a, &b);
    let ba = compare_dirs(&b, &a);
    assert_eq!(kind_of(&ab, "only_a"), Some(ChangeType::NewOnly));
    assert_eq!(kind_of(&ba, "only_a"), Some(ChangeType::RefOnly));
    assert_eq!(kind_of(&ab, "only_b"), Some(ChangeType::RefOnly));
    assert_eq!(kind_of(&ba, "only_b"), Some(ChangeType::NewOnly));
    assert_eq!(kind_of(&ab, "both"), Some(ChangeType::Older));
    assert_eq!(kind_of(&ba, "both"), Some(ChangeType::Newer));
}

#[test]
fn resolve_pair_table() {
    let it = |c, m| DiffItem::new(c, FileType::File, m);
    assert_eq!(resolve_pair(&it(ChangeType::Newer, 5), &it(ChangeType::Older, 4)), (true, false));
    assert_eq!(resolve_pair(&it(ChangeType::Newer, 5), &it(ChangeType::Newer, 5)), (true, false));
    assert_eq!(resolve_pair(&it(ChangeType::Older, 3), &it(ChangeType::Newer, 4)), (false, true));
    assert_eq!(resolve_pair(&it(ChangeType::NewOnly, 1), &it(ChangeType::NewOnly, 2)), (false, true));
    assert_eq!(resolve_pair(&it(ChangeType::RefOnly, 1), &it(ChangeType::RefOnly, 2)), (false, false));
    assert_eq!(resolve_pair(&it(ChangeType::Modified, 1), &it(ChangeType::Modified, 9)), (true, false));
    assert_eq!(resolve_pair(&it(ChangeType::Newer, 1), &it(ChangeType::RefOnly, 9)), (true, false));
    assert_eq!(resolve_pair(&it(ChangeType::Newer, 1), &it(ChangeType::Modified, 9)), (true, false));
    assert_eq!(resolve_pair(&it(ChangeType::RefOnly, 9), &it(ChangeType::Newer, 1)), (false, true));
    assert_eq!(resolve_pair(&it(ChangeType::Modified, 9), &it(ChangeType::Newer, 1)), (false, true));
    assert_eq!(resolve_pair(&it(ChangeType::RefOnly, 1), &it(ChangeType::Modified, 2)), (true, true));
    assert_eq!(resolve_pair(&it(ChangeType::Older, 1), &it(ChangeType::RefOnly, 2)), (true, true));
    assert_eq!(resolve_pair(&it(ChangeType::NewOnly, 1), &it(ChangeType::Older, 2)), (true, true));
}

#[test]
fn solve_conflicts_per_path() {
    let mut m = diffset(&[("both_newer", ChangeType::Newer, 10), ("deleted", ChangeType::RefOnly, 1), ("mod", ChangeType::Modified, 1), ("only_m", ChangeType::NewOnly, 3), ("keep", ChangeType::Older, 4)]);
    let mut c = diffset(&[("both_newer", ChangeType::Newer, 20), ("deleted", ChangeType::RefOnly, 1), ("mod", ChangeType::Modified, 2), ("only_c", ChangeType::Older, 3), ("keep", ChangeType::RefOnly, 5)]);
    solve_conflicts(&mut m, &mut c);
    assert_eq!(kind_of(&m, "both_newer"), None);
    assert_eq!(kind_of(&c, "both_newer"), Some(ChangeType::Newer));
    assert_eq!(kind_of(&m, "deleted"), None);
    assert_eq!(kind_of(&c, "deleted"), None);
    assert_eq!(kind_of(&m, "mod"), Some(ChangeType::Modified));
    assert_eq!(kind_of(&c, "mod"), None);
    assert_eq!(kind_of(&m, "only_m"), Some(ChangeType::NewOnly));
    assert_eq!(kind_of(&c, "only_c"), Some(ChangeType::Older));
    assert_eq!(kind_of(&m, "keep"), Some(ChangeType::Older));
    assert_eq!(kind_of(&c, "keep"), Some(ChangeType::RefOnly));
    assert_eq!((m.len(), c.len()), (3, 3));
}

#[test]
fn solve_conflicts_twice_is_once() {
    let mut m = diffset(&[("a", ChangeType::Newer, 10), ("b", ChangeType::NewOnly, 5), ("c", ChangeType::RefOnly, 1), ("d", ChangeType::Older, 2), ("e", ChangeType::Modified, 1)]);
    let mut c = diffset(&[("a", ChangeType::Older, 3), ("b", ChangeType::NewOnly, 5), ("c", ChangeType::Newer, 4), ("d", ChangeType::RefOnly, 2), ("f", ChangeType::NewOnly, 1)]);
    solve_conflicts(&mut m, &mut c);
    let once: Vec<Option<ChangeType>> = ["a", "b", "c", "d", "e", "f"].iter().flat_map(|k| [kind_of(&m, k), kind_of(&c, k)]).collect();
    solve_conflicts(&mut m, &mut c);
    let twice: Vec<Option<ChangeType>> = ["a", "b", "c", "d", "e", "f"].iter().flat_map(|k| [kind_of(&m, k), kind_of(&c, k)]).collect();
    assert_eq!(once, twice);
    assert_eq!((m.len(), c.len()), (4, 3));
}

#[test]
fn plan_each_change_kind() {
    let s = p("src");
    let d = p("dst");
    let one = |c: ChangeType, t: FileType, keep_all: bool| {
        let mut ds: DiffSet = PathMap::new();
        ds.insert(p("x"), DiffItem::new(c, t, 1));
        summary(&plan_actions(&ds, &s, &d, keep_all))
    };
    let fwd = (Some(p("src/x")), p("dst/x"));
    let back = (Some(p("dst/x")), p("src/x"));
    assert_eq!(one(ChangeType::Newer, FileType::File, false), vec![(ActionKind::CopyFile, fwd.0.as_ref().map(|x| x.duplicate()), fwd.1.duplicate()), (ActionKind::CopyMeta, fwd.0.as_ref().map(|x| x.duplicate()), fwd.1.duplicate())]);
    assert_eq!(one(ChangeType::NewOnly, FileType::Dir, false)[0].0, ActionKind::CopyDir);
    assert_eq!(one(ChangeType::Modified, FileType::Link, false)[0].0, ActionKind::CopyLink);
    assert_eq!(one(ChangeType::RefOnly, FileType::Dir, false), vec![(ActionKind::DeleteDir, None, p("dst/x"))]);
    assert_eq!(one(ChangeType::RefOnly, FileType::File, false), vec![(ActionKind::DeleteFile, None, p("dst/x"))]);
    assert_eq!(one(ChangeType::RefOnly, FileType::Link, false), vec![(ActionKind::DeleteFile, None, p("dst/x"))]);
    assert_eq!(one(ChangeType::RefOnly, FileType::File, true), vec![(ActionKind::CopyFile, back.0.as_ref().map(|x| x.duplicate()), back.1.duplicate()), (ActionKind::CopyMeta, back.0.as_ref().map(|x| x.duplicate()), back.1.duplicate())]);
    assert_eq!(one(ChangeType::Older, FileType::Dir, false), vec![(ActionKind::CopyDir, back.0.as_ref().map(|x| x.duplicate()), back.1.duplicate()), (ActionKind::CopyMeta, back.0.as_ref().map(|x| x.duplicate()), back.1.duplicate())]);
    assert!(one(ChangeType::Newer, FileType::File, true) == one(ChangeType::Newer, FileType::File, false));
}

#[test]
fn prio_of_each_variant() {
    let a = |k: ActionKind| match k {
        ActionKind::CopyFile => SyncAction::CopyFile { src: p("a"), dest: p("b") },
        ActionKind::CopyDir => SyncAction::CopyDir { src: p("a"), dest: p("b") },
        ActionKind::CopyLink => SyncAction::CopyLink { src: p("a"), dest: p("b") },
        ActionKind::CopyMeta => SyncAction::CopyMeta { src: p("a"), dest: p("b") },
        ActionKind::DeleteFile => SyncAction::DeleteFile { dest: p("b") },
        ActionKind::DeleteDir => SyncAction::DeleteDir { dest: p("b") },
    };
    assert_eq!(a(ActionKind::CopyDir).prio(), 1);
    assert_eq!(a(ActionKind::CopyFile).prio(), 2);
    assert_eq!(a(ActionKind::CopyLink).prio(), 4);
    assert_eq!(a(ActionKind::DeleteFile).prio(), 5);
    assert_eq!(a(ActionKind::DeleteDir).prio(), 6);
    assert_eq!(a(ActionKind::CopyMeta).prio(), 7);
    assert!(a(ActionKind::CopyDir) == a(ActionKind::CopyDir));
    assert!(a(ActionKind::CopyDir) != a(ActionKind::CopyFile));
    assert!(SyncAction::DeleteDir { dest: p("b") } != SyncAction::DeleteDir { dest: p("c") });
    assert_eq!(a(ActionKind::CopyDir).schedule_cmp(&a(ActionKind::CopyFile)), std::cmp::Ordering::Less);
    assert_eq!(a(ActionKind::CopyMeta).schedule_cmp(&a(ActionKind::DeleteDir)), std::cmp::Ordering::Greater);
}

#[test]
fn schedule_orders_by_priority_then_depth() {
    let batch = vec![
        SyncAction::CopyMeta { src: p("s/a"), dest: p("d/a") },
        SyncAction::DeleteDir { dest: p("d/old") },
        SyncAction::DeleteFile { dest: p("d/old/f") },
        SyncAction::CopyFile { src: p("s/a/b/f"), dest: p("d/a/b/f") },
        SyncAction::CopyDir { src: p("s/a/b"), dest: p("d/a/b") },
        SyncAction::CopyMeta { src: p("s/a/b/f"), dest: p("d/a/b/f") },
        SyncAction::CopyLink { src: p("s/l"), dest: p("d/l") },
        SyncAction::CopyDir { src: p("s/a"), dest: p("d/a") },
        SyncAction::DeleteDir { dest: p("d/old/sub") },
        SyncAction::CopyFile { src: p("s/g"), dest: p("d/g") },
    ];
    let got: Vec<(ActionKind, FsPath)> = schedule(batch).iter().map(|a| (a.kind(), a.destination().duplicate())).collect();
    let want = vec![
        (ActionKind::CopyDir, p("d/a")),
        (ActionKind::CopyDir, p("d/a/b")),
        (ActionKind::CopyFile, p("d/g")),
        (ActionKind::CopyFile, p("d/a/b/f")),
        (ActionKind::CopyLink, p("d/l")),
        (ActionKind::DeleteFile, p("d/old/f")),
        (ActionKind::DeleteDir, p("d/old/sub")),
        (ActionKind::DeleteDir, p("d/old")),
        (ActionKind::CopyMeta, p("d/a/b/f")),
        (ActionKind::CopyMeta, p("d/a")),
    ];
    assert!(got == want);
    assert!(schedule(Vec::new()).is_empty());
}

#[test]
fn scheduled_plan_creates_parents_first() {
    let mut ds: DiffSet = PathMap::new();
    ds.insert(p("a/b/c/f"), DiffItem::new(ChangeType::NewOnly, FileType::File, 1));
    ds.insert(p("a/b/c"), DiffItem::new(ChangeType::NewOnly, FileType::Dir, 1));
    ds.insert(p("a"), DiffItem::new(ChangeType::NewOnly, FileType::Dir, 1));
    ds.insert(p("a/b"), DiffItem::new(ChangeType::Older, FileType::Dir, 1));
    let out = sync_diffs(&ds, &p("x/src"), &p("y/z/dst"), false);
    let dirs: Vec<FsPath> = out.iter().filter(|a| a.kind() == ActionKind::CopyDir).map(|a| a.destination().duplicate()).collect();
    assert_eq!(dirs.len(), 3);
    assert!(dirs[0] == p("y/z/dst/a"));
    assert!(dirs.contains(&p("x/src/a/b")) && dirs.contains(&p("y/z/dst/a/b/c")));
    assert_eq!(out[3].kind(), ActionKind::CopyFile);
    assert!(out[3].destination() == &p("y/z/dst/a/b/c/f"));
    assert_eq!(out.len(), 8);
}

#[test]
fn bootstrap_copies_dir_then_file_then_metadata() {
    let a = index("ra", &[("docs", dir(100)), ("docs/readme.txt", file(100))]);
    let b = index("rb", &[]);
    let boot = plan_bootstrap(&p("ra"), &p("rb"), &a, &b);
    assert_eq!(boot.diffs.len(), 2);
    let got = summary(&boot.actions);
    let want = vec![
        (ActionKind::CopyDir, Some(p("ra/docs")), p("rb/docs")),
        (ActionKind::CopyFile, Some(p("ra/docs/readme.txt")), p("rb/docs/readme.txt")),
        (ActionKind::CopyMeta, Some(p("ra/docs/readme.txt")), p("rb/docs/readme.txt")),
        (ActionKind::CopyMeta, Some(p("ra/docs")), p("rb/docs")),
    ];
    assert!(got == want);
    assert!(boot.actions.iter().all(|x| !matches!(x, SyncAction::DeleteFile { .. } | SyncAction::DeleteDir { .. })));
}

#[test]
fn bootstrap_merges_both_ways() {
    let a = index("ra", &[("only_a", file(1)), ("both", file(5))]);
    let b = index("rb", &[("only_b", file(2)), ("both", file(9))]);
    let boot = plan_bootstrap(&p("ra"), &p("rb"), &a, &b);
    let got = summary(&boot.actions);
    assert_eq!(got.len(), 6);
    assert!(got.contains(&(ActionKind::CopyFile, Some(p("ra/only_a")), p("rb/only_a"))));
    assert!(got.contains(&(ActionKind::CopyFile, Some(p("rb/only_b")), p("ra/only_b"))));
    assert!(got.contains(&(ActionKind::CopyFile, Some(p("rb/both")), p("ra/both"))));
}

#[test]
fn cycle_propagates_newer_file() {
    let last = index("ra", &[("x.txt", file(100))]);
    let last_b = index("rb", &[("x.txt", file(100))]);
    let now_a = index("ra", &[("x.txt", file(200))]);
    let now_b = index("rb", &[("x.txt", file(100))]);
    let plan = plan_cycle(&p("ra"), &p("rb"), &last, &last_b, &now_a, &now_b).unwrap();
    assert_eq!(plan.diff_a.len(), 1);
    assert_eq!(kind_of(&plan.diff_a, "x.txt"), Some(ChangeType::Newer));
    assert!(plan.diff_b.is_empty());
    let got = summary(&plan.onto_b);
    assert!(got == vec![(ActionKind::CopyFile, Some(p("ra/x.txt")), p("rb/x.txt")), (ActionKind::CopyMeta, Some(p("ra/x.txt")), p("rb/x.txt"))]);
    assert!(plan.onto_a.is_empty());
}

#[test]
fn cycle_drops_path_deleted_on_both_sides() {
    let last = index("ra", &[("x.txt", file(100)), ("y", file(1))]);
    let last_b = index("rb", &[("x.txt", file(100)), ("y", file(1))]);
    let now_a = index("ra", &[("y", file(1))]);
    let now_b = index("rb", &[("y", file(1))]);
    assert_eq!(kind_of(&compare_dirs(&now_a, &last), "x.txt"), Some(ChangeType::RefOnly));
    assert_eq!(kind_of(&compare_dirs(&now_b, &last_b), "x.txt"), Some(ChangeType::RefOnly));
    let plan = plan_cycle(&p("ra"), &p("rb"), &last, &last_b, &now_a, &now_b).unwrap();
    assert!(plan.diff_a.is_empty() && plan.diff_b.is_empty());
    assert!(plan.onto_a.is_empty() && plan.onto_b.is_empty());
}

#[test]
fn cycle_newer_on_both_sides_later_wins() {
    let last = index("ra", &[("x.txt", file(100))]);
    let last_b = index("rb", &[("x.txt", file(100))]);
    let now_a = index("ra", &[("x.txt", file(200))]);
    let now_b = index("rb", &[("x.txt", file(300))]);
    let plan = plan_cycle(&p("ra"), &p("rb"), &last, &last_b, &now_a, &now_b).unwrap();
    assert!(plan.diff_a.is_empty());
    assert_eq!(plan.diff_b.get(&p("x.txt")).map(|i| (i.diff, i.mtime)), Some((ChangeType::Newer, 300)));
    assert!(plan.onto_b.is_empty());
    let got = summary(&plan.onto_a);
    assert!(got == vec![(ActionKind::CopyFile, Some(p("rb/x.txt")), p("ra/x.txt")), (ActionKind::CopyMeta, Some(p("rb/x.txt")), p("ra/x.txt"))]);
}

#[test]
fn cycle_without_changes_does_nothing() {
    let a = index("ra", &[("x", file(1))]);
    let b = index("rb", &[("x", file(1))]);
    assert!(plan_cycle(&p("ra"), &p("rb"), &a, &b, &a, &b).is_none());
}

#[test]
fn loop_steps_for_each_event() {
    assert_eq!(next_step(LoopEvent::Received(Command::SyncAndExit)), LoopStep::CycleThenStop);
    assert_eq!(next_step(LoopEvent::Received(Command::SyncNow)), LoopStep::CycleThenWait);
    assert_eq!(next_step(LoopEvent::Received(Command::ExitNow)), LoopStep::Stop);
    assert_eq!(next_step(LoopEvent::Timeout), LoopStep::CycleThenWait);
    assert_eq!(next_step(LoopEvent::Disconnected), LoopStep::Stop);
}

#[test]
fn start_needs_both_snapshots() {
    assert!(matches!(Start::from_loaded(Some(index("a", &[])), Some(index("b", &[]))), Start::HaveState(_, _)));
    assert!(matches!(Start::from_loaded(Some(index("a", &[])), None), Start::NoState));
    assert!(matches!(Start::from_loaded(None, Some(index("b", &[]))), Start::NoState));
    assert!(matches!(Start::from_loaded(None, None), Start::NoState));
}

#[test]
fn run_steps_clear_read_only_first() {
    let ro = DestState { exists: true, link_exists: true, readonly: true };
    let absent = DestState { exists: false, link_exists: false, readonly: false };
    let kinds = |a: SyncAction, d: DestState| a.run_steps(&d).iter().map(|s| s.kind).collect::<Vec<_>>();
    assert_eq!(kinds(SyncAction::CopyFile { src: p("s/f"), dest: p("d/f") }, ro), vec![StepKind::MakeWritable, StepKind::CopyContents]);
    assert_eq!(kinds(SyncAction::CopyFile { src: p("s/f"), dest: p("d/f") }, absent), vec![StepKind::CopyContents]);
    assert_eq!(kinds(SyncAction::CopyDir { src: p("s/d"), dest: p("d/d") }, ro), vec![]);
    assert_eq!(kinds(SyncAction::CopyDir { src: p("s/d"), dest: p("d/d") }, absent), vec![StepKind::CreateDir]);
    assert_eq!(kinds(SyncAction::CopyLink { src: p("s/l"), dest: p("d/l") }, ro), vec![StepKind::RemoveFile, StepKind::CopyLinkTarget]);
    assert_eq!(kinds(SyncAction::CopyMeta { src: p("s/f"), dest: p("d/f") }, absent), vec![StepKind::CopyPermissions, StepKind::CopyTimes]);
    assert_eq!(kinds(SyncAction::DeleteFile { dest: p("d/f") }, ro), vec![StepKind::MakeWritable, StepKind::RemoveFile]);
    assert_eq!(kinds(SyncAction::DeleteDir { dest: p("d/d") }, ro), vec![StepKind::MakeWritable, StepKind::RemoveDir]);
    let steps = SyncAction::CopyFile { src: p("s/f"), dest: p("d/f") }.run_steps(&ro);
    assert!(steps[1].src == p("s/f") && steps[1].dest == p("d/f"));
    assert!(steps[0].dest == p("d/f"));
}
