//! Looking after the files of projects.

use helix_lsps::path::FsPath;
use helix_lsps::project::SessionKey;
use helix_lsps::table::Table;
use helix_lsps::tsgo::file_watcher::{
    compare_snapshots, should_descend_into, should_watch_file, CurrentFiles, FileStamp, Found,
    FoundKind, PathChange, SnapshotWalk, WatchedFileChange, WatchedFileChangeKind, WatchedRoot,
    WatchedRoots, Watcher, WatcherCommand,
};

fn path(text: &str) -> FsPath {
    FsPath::parse(text)
}

fn stamp(len: u64) -> FileStamp {
    FileStamp { len, modified: Some(len as i128) }
}

fn snapshot(files: &[(&str, u64)]) -> Table<FsPath, FileStamp> {
    let mut table = Table::new();
    for (file, len) in files {
        table.insert(path(file), stamp(*len));
    }
    table
}

fn file(name: &str, len: u64) -> Found {
    Found { name: name.to_string(), kind: FoundKind::File(Some(stamp(len))) }
}

fn dir(name: &str) -> Found {
    Found { name: name.to_string(), kind: FoundKind::Dir }
}

fn scan(roots: &mut WatchedRoots, key: &SessionKey, files: &[(&str, u64)]) -> Vec<WatchedFileChange> {
    roots.scan(vec![CurrentFiles { session_key: key.clone(), snapshot: snapshot(files) }])
}

#[test]
fn reports_created_changed_and_deleted_files() {
    let key = SessionKey::Project(path("/t"));
    let mut roots = WatchedRoots::new();

    roots.watch_root(key.clone(), WatchedRoot { root: path("/t"), snapshot: snapshot(&[]) });
    assert!(scan(&mut roots, &key, &[]).is_empty());

    let changes = scan(&mut roots, &key, &[("/t/src/created.ts", 24)]);
    assert_eq!(changes.len(), 1);
    assert_eq!(changes[0].session_key, key);
    assert_eq!(changes[0].kind, WatchedFileChangeKind::Created);
    assert_eq!(changes[0].uri, "file:///t/src/created.ts");

    let changes = scan(&mut roots, &key, &[("/t/src/created.ts", 26)]);
    assert_eq!(changes.len(), 1);
    assert_eq!(changes[0].kind, WatchedFileChangeKind::Changed);

    let changes = scan(&mut roots, &key, &[]);
    assert_eq!(changes.len(), 1);
    assert_eq!(changes[0].kind, WatchedFileChangeKind::Deleted);
}

#[test]
fn ignores_dependency_directories() {
    let mut walk = SnapshotWalk::new(path("/t"));
    while let Some(visited) = walk.next_dir() {
        match visited.to_text().as_str() {
            "/t" => walk.visit(&visited, &vec![dir("node_modules"), dir("src"), file("a.ts", 1)]),
            "/t/src" => walk.visit(&visited, &vec![file("b.ts", 2), file("notes.txt", 3)]),
            other => panic!("{other}"),
        }
    }
    assert_eq!(walk.snapshot.len(), 2);
    assert_eq!(walk.snapshot.get(&path("/t/a.ts")), Some(&stamp(1)));
    assert_eq!(walk.snapshot.get(&path("/t/src/b.ts")), Some(&stamp(2)));
}

#[test]
fn a_finished_walk_has_every_file_and_no_other() {
    let link = Found { name: "linked".to_string(), kind: FoundKind::Other };
    let unstamped = Found { name: "gone.ts".to_string(), kind: FoundKind::File(None) };
    let mut walk = SnapshotWalk::new(path("/dist/"));
    let mut visits = Vec::new();
    while let Some(visited) = walk.next_dir() {
        visits.push(visited.to_text());
        match visited.to_text().as_str() {
            "/dist/" => walk.visit(
                &visited,
                &vec![dir("build"), dir("lib"), dir("src"), again(&link), file("a.json", 1)],
            ),
            "/dist/lib" => walk.visit(&visited, &vec![dir(".git"), dir("deep"), file("b", 2)]),
            "/dist/lib/deep" => walk.visit(&visited, &vec![file("c.mts", 3), file("d.md", 4)]),
            "/dist/src" => walk.visit(&visited, &vec![file("a.json", 5), again(&unstamped)]),
            other => panic!("{other}"),
        }
    }
    assert_eq!(visits, vec!["/dist/", "/dist/src", "/dist/lib", "/dist/lib/deep"]);
    assert_eq!(walk.snapshot.len(), 3);
    assert_eq!(walk.snapshot.get(&path("/dist/a.json")), Some(&stamp(1)));
    assert_eq!(walk.snapshot.get(&path("/dist/src/a.json")), Some(&stamp(5)));
    assert_eq!(walk.snapshot.get(&path("/dist/lib/deep/c.mts")), Some(&stamp(3)));
}

fn again(entry: &Found) -> Found {
    Found { name: entry.name.clone(), kind: entry.kind }
}

#[test]
fn changes_of_one_url_and_kind_keep_their_order() {
    let (first, second) = (SessionKey::Project(path("/t")), SessionKey::Global);
    let mut roots = WatchedRoots::new();
    for key in [&first, &second] {
        roots.watch_root(key.clone(), WatchedRoot { root: path("/t"), snapshot: snapshot(&[]) });
    }
    let current = [&first, &second]
        .map(|key| CurrentFiles {
            session_key: key.clone(),
            snapshot: snapshot(&[("/t/b.ts", 1), ("/t/a.ts", 1)]),
        })
        .into_iter()
        .collect();
    let told: Vec<(String, SessionKey)> =
        roots.scan(current).into_iter().map(|change| (change.uri, change.session_key)).collect();
    assert_eq!(
        told,
        vec![
            ("file:///t/a.ts".to_string(), first.clone()),
            ("file:///t/a.ts".to_string(), second.clone()),
            ("file:///t/b.ts".to_string(), first),
            ("file:///t/b.ts".to_string(), second),
        ]
    );
}

#[test]
fn change_kinds_have_their_numbers() {
    assert_eq!(WatchedFileChangeKind::Created.lsp_file_change_type(), 1);
    assert_eq!(WatchedFileChangeKind::Changed.lsp_file_change_type(), 2);
    assert_eq!(WatchedFileChangeKind::Deleted.lsp_file_change_type(), 3);
}

#[test]
fn changes_come_in_the_order_of_their_urls() {
    let key = SessionKey::Global;
    let mut roots = WatchedRoots::new();
    roots.watch_root(
        key.clone(),
        WatchedRoot { root: path("/t"), snapshot: snapshot(&[("/t/b.ts", 1)]) },
    );
    let changes = scan(&mut roots, &key, &[("/t/c.ts", 1), ("/t/a.ts", 1)]);
    let told: Vec<(&str, WatchedFileChangeKind)> =
        changes.iter().map(|change| (change.uri.as_str(), change.kind)).collect();
    assert_eq!(
        told,
        vec![
            ("file:///t/a.ts", WatchedFileChangeKind::Created),
            ("file:///t/b.ts", WatchedFileChangeKind::Deleted),
            ("file:///t/c.ts", WatchedFileChangeKind::Created),
        ]
    );
}

#[test]
fn files_that_stay_the_same_are_not_reported() {
    let before = snapshot(&[("/t/a.ts", 1), ("/t/b.ts", 1)]);
    let after = snapshot(&[("/t/b.ts", 1), ("/t/a.ts", 2)]);
    assert_eq!(compare_snapshots(&before, &before), Vec::<PathChange>::new());
    assert_eq!(
        compare_snapshots(&before, &after),
        vec![PathChange { path: path("/t/a.ts"), kind: WatchedFileChangeKind::Changed }]
    );
}

#[test]
fn a_root_that_is_looked_after_keeps_its_snapshot() {
    let key = SessionKey::Global;
    let mut roots = WatchedRoots::new();
    roots.watch_root(
        key.clone(),
        WatchedRoot { root: path("/t"), snapshot: snapshot(&[("/t/a.ts", 1)]) },
    );
    roots.watch_root(key.clone(), WatchedRoot { root: path("/t"), snapshot: snapshot(&[]) });
    assert!(scan(&mut roots, &key, &[("/t/a.ts", 1)]).is_empty());
    roots.watch_root(key.clone(), WatchedRoot { root: path("/u"), snapshot: snapshot(&[]) });
    assert_eq!(scan(&mut roots, &key, &[("/u/a.ts", 1)]).len(), 1);
    roots.unwatch(&key);
    assert!(scan(&mut roots, &key, &[("/u/b.ts", 1)]).is_empty());
}

#[test]
fn sources_and_projects_are_looked_after() {
    for name in ["a.ts", "a.tsx", "a.mts", "a.cts", "a.js", "a.jsx", "a.json"] {
        assert!(should_watch_file(&path(&format!("/t/{name}"))));
    }
    assert!(!should_watch_file(&path("/t/a.md")));
    assert!(!should_watch_file(&path("/t/ts")));
    assert!(should_descend_into(&path("/t/src")));
    for name in ["node_modules", ".git", "dist"] {
        assert!(!should_descend_into(&path(&format!("/t/{name}"))));
    }
}

#[test]
fn an_idle_watcher_has_nothing_to_do() {
    let mut watcher = Watcher::new();
    assert!(watcher.obey(WatcherCommand::Watch(
        SessionKey::Global,
        WatchedRoot { root: path("/t"), snapshot: snapshot(&[]) }
    )));
    assert_eq!(watcher.due(), Vec::new());
    assert!(watcher.obey(WatcherCommand::SetActive(true)));
    assert_eq!(watcher.due(), vec![(SessionKey::Global, path("/t"))]);
    assert!(watcher.obey(WatcherCommand::Unwatch(SessionKey::Global)));
    assert_eq!(watcher.due(), Vec::new());
    assert!(!watcher.obey(WatcherCommand::Stop));
}
