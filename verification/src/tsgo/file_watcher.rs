//! Which files of the projects have come, changed or gone.

use vstd::prelude::*;
use crate::path::{child_of, extension_of, name_of, FsPath, PathView};
use crate::project::{SessionKey, SessionKeyView};
use crate::sort::{sort, sorted, Ordered};
use crate::table::{
    find, find_by_first, find_is_first, holds, keys_differ, lookup, put, same_keys_find_the_same,
    without, Ident, Key, Table,
};
use crate::text::{
    order_texts, same_text, text_order, text_order_chains, text_order_same, text_order_turns, Order,
};
use crate::url_text::{path_url, url_of_path};
use crate::views::{each, opt};

verus! {

/// What has become of a file.
#[derive(Clone, Copy, Debug, PartialEq, Eq, Structural)]
pub enum WatchedFileChangeKind {
    Created,
    Changed,
    Deleted,
}

impl WatchedFileChangeKind {
    /// The number by which the protocol knows it.
    pub open spec fn number(self) -> u8 {
        match self {
            WatchedFileChangeKind::Created => 1,
            WatchedFileChangeKind::Changed => 2,
            WatchedFileChangeKind::Deleted => 3,
        }
    }

    /// The number by which the protocol knows it.
    pub fn lsp_file_change_type(self) -> (r: u8)
        ensures
            r == self.number(),
    {
        match self {
            WatchedFileChangeKind::Created => 1,
            WatchedFileChangeKind::Changed => 2,
            WatchedFileChangeKind::Deleted => 3,
        }
    }
}

/// A file that has come, changed or gone.
#[derive(Debug, PartialEq, Eq)]
pub struct WatchedFileChange {
    pub session_key: SessionKey,
    pub uri: String,
    pub kind: WatchedFileChangeKind,
}

/// A file that has come, changed or gone.
#[verifier::ext_equal]
pub struct ChangeView {
    pub session_key: SessionKeyView,
    pub uri: Seq<char>,
    pub kind: WatchedFileChangeKind,
}

impl View for WatchedFileChange {
    type V = ChangeView;

    open spec fn view(&self) -> ChangeView {
        ChangeView { session_key: self.session_key@, uri: self.uri@, kind: self.kind }
    }
}

/// Changes are ordered by URL, and those of one URL by kind.
impl Ordered for WatchedFileChange {
    open spec fn not_after(a: ChangeView, b: ChangeView) -> bool {
        match text_order(a.uri, b.uri) {
            Order::Before => true,
            Order::After => false,
            Order::Same => a.kind.number() <= b.kind.number(),
        }
    }

    proof fn order_is_total() {
        assert forall|a: ChangeView, b: ChangeView|
            #![auto]
            Self::not_after(a, b) || Self::not_after(b, a) by {
            text_order_turns(a.uri, b.uri);
        }
        assert forall|a: ChangeView, b: ChangeView, c: ChangeView|
            #![auto]
            Self::not_after(a, b) && Self::not_after(b, c) implies Self::not_after(a, c) by {
            text_order_same(a.uri, b.uri);
            text_order_same(b.uri, c.uri);
            if text_order(a.uri, b.uri) == Order::Before && text_order(b.uri, c.uri)
                == Order::Before {
                text_order_chains(a.uri, b.uri, c.uri);
            }
        }
    }

    fn goes_before(&self, other: &WatchedFileChange) -> (r: bool) {
        match order_texts(self.uri.as_str(), other.uri.as_str()) {
            Order::Before => true,
            Order::After => false,
            Order::Same => self.kind.lsp_file_change_type() <= other.kind.lsp_file_change_type(),
        }
    }
}

/// By what a change of a file is told: its size, and when it was last written, in nanoseconds.
#[derive(Clone, Copy, Debug, PartialEq, Eq, Structural)]
pub struct FileStamp {
    pub len: u64,
    pub modified: Option<i128>,
}

impl View for FileStamp {
    type V = FileStamp;

    open spec fn view(&self) -> FileStamp {
        *self
    }
}

/// The files below a directory.
pub type SnapshotView = Seq<(PathView, FileStamp)>;

/// A directory whose files are looked after, with its files as they were seen last.
#[derive(Debug)]
pub struct WatchedRoot {
    pub root: FsPath,
    pub snapshot: Table<FsPath, FileStamp>,
}

/// A directory whose files are looked after.
#[verifier::ext_equal]
pub struct WatchedRootView {
    pub root: PathView,
    pub snapshot: SnapshotView,
}

impl View for WatchedRoot {
    type V = WatchedRootView;

    open spec fn view(&self) -> WatchedRootView {
        WatchedRootView { root: self.root@, snapshot: self.snapshot@ }
    }
}

/// What an entry of a directory is.
#[derive(Clone, Copy, Debug, PartialEq, Eq, Structural)]
pub enum FoundKind {
    Dir,
    /// A file, with its stamp where it can be had.
    File(Option<FileStamp>),
    /// Something else, such as a symbolic link.
    Other,
}

/// An entry of a directory.
#[derive(Debug)]
pub struct Found {
    pub name: String,
    pub kind: FoundKind,
}

/// An entry of a directory.
#[verifier::ext_equal]
pub struct FoundView {
    pub name: Seq<char>,
    pub kind: FoundKind,
}

impl View for Found {
    type V = FoundView;

    open spec fn view(&self) -> FoundView {
        FoundView { name: self.name@, kind: self.kind }
    }
}

/// Whether a directory of this name is looked into.
pub open spec fn descended(name: Seq<char>) -> bool {
    &&& name != ".cache"@
    &&& name != ".git"@
    &&& name != ".hg"@
    &&& name != ".jj"@
    &&& name != ".next"@
    &&& name != ".svn"@
    &&& name != ".turbo"@
    &&& name != "build"@
    &&& name != "coverage"@
    &&& name != "dist"@
    &&& name != "node_modules"@
    &&& name != "target"@
}

/// Whether a directory is looked into.
pub open spec fn descends_into(path: PathView) -> bool {
    match name_of(path) {
        Some(name) => descended(name),
        None => true,
    }
}

/// Whether a directory is looked into.
pub fn should_descend_into(path: &FsPath) -> (r: bool)
    ensures
        r == descends_into(path@),
{
    match path.file_name() {
        Some(name) => {
            let name = name.as_str();
            !same_text(name, ".cache") && !same_text(name, ".git") && !same_text(name, ".hg")
                && !same_text(name, ".jj") && !same_text(name, ".next") && !same_text(name, ".svn")
                && !same_text(name, ".turbo") && !same_text(name, "build") && !same_text(
                name,
                "coverage",
            ) && !same_text(name, "dist") && !same_text(name, "node_modules") && !same_text(
                name,
                "target",
            )
        },
        None => true,
    }
}

/// Whether a file has one of these extensions: those of TypeScript, JavaScript and JSON files.
pub open spec fn watched(path: PathView) -> bool {
    match extension_of(path) {
        Some(extension) => {
            ||| extension == "cjs"@
            ||| extension == "cts"@
            ||| extension == "js"@
            ||| extension == "json"@
            ||| extension == "jsx"@
            ||| extension == "mjs"@
            ||| extension == "mts"@
            ||| extension == "ts"@
            ||| extension == "tsx"@
        },
        None => false,
    }
}

/// Whether a file is looked after.
pub fn should_watch_file(path: &FsPath) -> (r: bool)
    ensures
        r == watched(path@),
{
    match path.extension() {
        Some(extension) => {
            let extension = extension.as_str();
            same_text(extension, "cjs") || same_text(extension, "cts") || same_text(extension, "js")
                || same_text(extension, "json") || same_text(extension, "jsx") || same_text(
                extension,
                "mjs",
            ) || same_text(extension, "mts") || same_text(extension, "ts") || same_text(
                extension,
                "tsx",
            )
        },
        None => false,
    }
}

/// A walk through a directory: the directories that are still to be visited, and the files seen.
#[derive(Debug)]
pub struct SnapshotWalk {
    pub pending: Vec<FsPath>,
    pub snapshot: Table<FsPath, FileStamp>,
}

/// A walk through a directory.
#[verifier::ext_equal]
pub struct WalkView {
    pub pending: Seq<PathView>,
    pub snapshot: SnapshotView,
}

impl View for SnapshotWalk {
    type V = WalkView;

    open spec fn view(&self) -> WalkView {
        WalkView { pending: each(self.pending@), snapshot: self.snapshot@ }
    }
}

impl WalkView {
    /// The walk, one entry of the directory `dir` further.
    pub open spec fn with_entry(self, dir: PathView, entry: FoundView) -> WalkView {
        let path = child_of(dir, entry.name);
        match entry.kind {
            FoundKind::Dir => if descends_into(path) {
                WalkView { pending: self.pending.push(path), ..self }
            } else {
                self
            },
            FoundKind::File(Some(stamp)) => if watched(path) {
                WalkView { snapshot: put(self.snapshot, path, stamp), ..self }
            } else {
                self
            },
            _ => self,
        }
    }

    /// The walk, the entries of the directory `dir` further.
    pub open spec fn with_entries(self, dir: PathView, entries: Seq<FoundView>) -> WalkView
        decreases entries.len(),
    {
        if entries.len() == 0 {
            self
        } else {
            self.with_entries(dir, entries.drop_last()).with_entry(dir, entries.last())
        }
    }
}

impl SnapshotWalk {
    /// A walk that is to visit the root.
    pub fn new(root: FsPath) -> (r: SnapshotWalk)
        ensures
            r@ == (WalkView { pending: seq![root@], snapshot: Seq::empty() }),
    {
        let mut pending: Vec<FsPath> = Vec::new();
        pending.push(root);
        proof {
            assert(each(pending@) =~= seq![root@]);
        }
        SnapshotWalk { pending, snapshot: Table::new() }
    }

    /// Takes the next directory to visit, the last that was come upon.
    pub fn next_dir(&mut self) -> (r: Option<FsPath>)
        ensures
            opt(r) == (if old(self)@.pending.len() == 0 {
                None
            } else {
                Some(old(self)@.pending.last())
            }),
            final(self)@ == (WalkView {
                pending: if old(self)@.pending.len() == 0 {
                    old(self)@.pending
                } else {
                    old(self)@.pending.drop_last()
                },
                ..old(self)@
            }),
    {
        let ghost before = self@;
        let r = self.pending.pop();
        proof {
            if r is Some {
                assert(each(self.pending@) =~= before.pending.drop_last());
            }
        }
        r
    }

    /// Takes up the entries of a directory.
    pub fn visit(&mut self, dir: &FsPath, entries: &Vec<Found>)
        ensures
            final(self)@ == old(self)@.with_entries(dir@, each(entries@)),
    {
        let ghost all = each(entries@);
        let ghost before = self@;
        let mut i: usize = 0;
        proof {
            assert(all.take(0).len() == 0);
        }
        while i < entries.len()
            invariant
                i <= entries@.len(),
                all == each(entries@),
                self@ == before.with_entries(dir@, all.take(i as int)),
            decreases entries@.len() - i,
        {
            proof {
                assert(all.take(i + 1).drop_last() =~= all.take(i as int));
                assert(all.take(i + 1).last() == entries@[i as int]@);
            }
            let path = dir.child(entries[i].name.as_str());
            match entries[i].kind {
                FoundKind::Dir => {
                    if should_descend_into(&path) {
                        let ghost pending = each(self.pending@);
                        self.pending.push(path);
                        proof {
                            assert(each(self.pending@) =~= pending.push(path@));
                        }
                    }
                },
                FoundKind::File(Some(stamp)) => {
                    if should_watch_file(&path) {
                        self.snapshot.insert(path, stamp);
                    }
                },
                _ => {},
            }
            i += 1;
        }
        proof {
            assert(all.take(i as int) =~= all);
        }
    }
}

/// What has become of a file.
#[derive(Debug, PartialEq, Eq)]
pub struct PathChange {
    pub path: FsPath,
    pub kind: WatchedFileChangeKind,
}

/// What has become of a file.
#[verifier::ext_equal]
pub struct PathChangeView {
    pub path: PathView,
    pub kind: WatchedFileChangeKind,
}

impl View for PathChange {
    type V = PathChangeView;

    open spec fn view(&self) -> PathChangeView {
        PathChangeView { path: self.path@, kind: self.kind }
    }
}

/// What has become of a file that is there.
pub open spec fn change_of_present(previous: SnapshotView, entry: (PathView, FileStamp)) -> Seq<
    PathChangeView,
> {
    match lookup(previous, entry.0) {
        Some(stamp) => if stamp == entry.1 {
            Seq::empty()
        } else {
            seq![PathChangeView { path: entry.0, kind: WatchedFileChangeKind::Changed }]
        },
        None => seq![PathChangeView { path: entry.0, kind: WatchedFileChangeKind::Created }],
    }
}

/// What has become of the files that are there.
pub open spec fn changes_of_present(previous: SnapshotView, current: SnapshotView) -> Seq<
    PathChangeView,
>
    decreases current.len(),
{
    if current.len() == 0 {
        Seq::empty()
    } else {
        changes_of_present(previous, current.drop_last()) + change_of_present(
            previous,
            current.last(),
        )
    }
}

/// The files that are gone.
pub open spec fn changes_of_gone(previous: SnapshotView, current: SnapshotView) -> Seq<
    PathChangeView,
>
    decreases previous.len(),
{
    if previous.len() == 0 {
        Seq::empty()
    } else {
        let rest = changes_of_gone(previous.drop_last(), current);
        let path = previous.last().0;
        if holds(current, path) {
            rest
        } else {
            rest.push(PathChangeView { path, kind: WatchedFileChangeKind::Deleted })
        }
    }
}

/// What has become of the files between two looks at them.
pub open spec fn differences(previous: SnapshotView, current: SnapshotView) -> Seq<PathChangeView> {
    changes_of_present(previous, current) + changes_of_gone(previous, current)
}

/// What has become of the files between two looks at them.
pub fn compare_snapshots(
    previous: &Table<FsPath, FileStamp>,
    current: &Table<FsPath, FileStamp>,
) -> (r: Vec<PathChange>)
    ensures
        each(r@) == differences(previous@, current@),
{
    let mut changes: Vec<PathChange> = Vec::new();
    let mut i: usize = 0;
    proof {
        assert(each(changes@) =~= changes_of_present(previous@, current@.take(0)));
    }
    while i < current.len()
        invariant
            i <= current@.len(),
            each(changes@) == changes_of_present(previous@, current@.take(i as int)),
        decreases current@.len() - i,
    {
        let path = current.key_at(i);
        let stamp = current.value_at(i);
        let ghost before = each(changes@);
        proof {
            assert(current@.take(i + 1).drop_last() =~= current@.take(i as int));
            assert(current@.take(i + 1).last() == (path@, stamp@));
        }
        match previous.get(path) {
            Some(previous_stamp) => {
                if *previous_stamp != *stamp {
                    changes.push(
                        PathChange { path: path.clone(), kind: WatchedFileChangeKind::Changed },
                    );
                }
            },
            None => {
                changes.push(
                    PathChange { path: path.clone(), kind: WatchedFileChangeKind::Created },
                );
            },
        }
        proof {
            assert(each(changes@) =~= before + change_of_present(
                previous@,
                (path@, stamp@),
            ));
        }
        i += 1;
    }
    let ghost present = each(changes@);
    let mut j: usize = 0;
    proof {
        assert(current@.take(i as int) =~= current@);
        assert(present =~= present + changes_of_gone(previous@.take(0), current@));
    }
    while j < previous.len()
        invariant
            j <= previous@.len(),
            each(changes@) == present + changes_of_gone(previous@.take(j as int), current@),
        decreases previous@.len() - j,
    {
        let path = previous.key_at(j);
        let ghost before = each(changes@);
        proof {
            assert(previous@.take(j + 1).drop_last() =~= previous@.take(j as int));
            assert(previous@.take(j + 1).last().0 == path@);
        }
        if !current.contains_key(path) {
            changes.push(PathChange { path: path.clone(), kind: WatchedFileChangeKind::Deleted });
            proof {
                let gone = changes_of_gone(previous@.take(j as int), current@);
                let change = PathChangeView {
                    path: path@,
                    kind: WatchedFileChangeKind::Deleted,
                };
                assert(each(changes@) =~= before.push(change));
                assert((present + gone).push(change) =~= present + gone.push(change));
            }
        }
        j += 1;
    }
    proof {
        assert(previous@.take(j as int) =~= previous@);
    }
    changes
}

/// The changes with the URLs of the files, as far as they have one.
pub open spec fn with_urls(key: SessionKeyView, changes: Seq<PathChangeView>) -> Seq<ChangeView>
    decreases changes.len(),
{
    if changes.len() == 0 {
        Seq::empty()
    } else {
        let rest = with_urls(key, changes.drop_last());
        let last = changes.last();
        match path_url(last.path) {
            Some(uri) => rest.push(ChangeView { session_key: key, uri, kind: last.kind }),
            None => rest,
        }
    }
}

/// Adds the changes with the URLs of the files, as far as they have one.
fn push_with_urls(out: &mut Vec<WatchedFileChange>, key: &SessionKey, changes: &Vec<PathChange>)
    ensures
        each(final(out)@) == each(old(out)@) + with_urls(key@, each(changes@)),
{
    let ghost all = each(changes@);
    let ghost before = each(out@);
    let mut i: usize = 0;
    proof {
        assert(before =~= before + with_urls(key@, all.take(0)));
    }
    while i < changes.len()
        invariant
            i <= changes@.len(),
            all == each(changes@),
            each(out@) == before + with_urls(key@, all.take(i as int)),
        decreases changes@.len() - i,
    {
        let change = &changes[i];
        let ghost held = each(out@);
        proof {
            assert(all.take(i + 1).drop_last() =~= all.take(i as int));
            assert(all.take(i + 1).last() == change@);
        }
        if let Some(uri) = url_of_path(&change.path) {
            out.push(
                WatchedFileChange { session_key: key.clone(), uri, kind: change.kind },
            );
            proof {
                let view = ChangeView { session_key: key@, uri: uri@, kind: change.kind };
                let rest = with_urls(key@, all.take(i as int));
                assert(each(out@) =~= held.push(view));
                assert((before + rest).push(view) =~= before + rest.push(view));
            }
        }
        i += 1;
    }
    proof {
        assert(all.take(i as int) =~= all);
    }
}

/// The directories whose files are looked after.
#[derive(Debug)]
pub struct WatchedRoots {
    pub roots: Table<SessionKey, WatchedRoot>,
}

/// The directories whose files are looked after.
pub type RootsView = Seq<(SessionKeyView, WatchedRootView)>;

impl View for WatchedRoots {
    type V = RootsView;

    open spec fn view(&self) -> RootsView {
        self.roots@
    }
}

/// The files below a project's directory, as they are now.
#[derive(Debug)]
pub struct CurrentFiles {
    pub session_key: SessionKey,
    pub snapshot: Table<FsPath, FileStamp>,
}

/// The files below a project's directory, as they are now.
#[verifier::ext_equal]
pub struct CurrentFilesView {
    pub session_key: SessionKeyView,
    pub snapshot: SnapshotView,
}

impl View for CurrentFiles {
    type V = CurrentFilesView;

    open spec fn view(&self) -> CurrentFilesView {
        CurrentFilesView { session_key: self.session_key@, snapshot: self.snapshot@ }
    }
}

/// The directories with the files below some of them as they are now.
pub open spec fn updated(roots: RootsView, current: Seq<CurrentFilesView>) -> RootsView
    decreases current.len(),
{
    if current.len() == 0 {
        roots
    } else {
        let before = updated(roots, current.drop_last());
        let last = current.last();
        match lookup(before, last.session_key) {
            Some(root) => put(
                before,
                last.session_key,
                WatchedRootView { snapshot: last.snapshot, ..root },
            ),
            None => before,
        }
    }
}

/// What has become of the files below the directories, before it is sorted.
pub open spec fn all_changes(roots: RootsView, current: Seq<CurrentFilesView>) -> Seq<ChangeView>
    decreases current.len(),
{
    if current.len() == 0 {
        Seq::empty()
    } else {
        let before = updated(roots, current.drop_last());
        let last = current.last();
        all_changes(roots, current.drop_last()) + (match lookup(before, last.session_key) {
            Some(root) => with_urls(
                last.session_key,
                differences(root.snapshot, last.snapshot),
            ),
            None => Seq::empty(),
        })
    }
}

/// What is looked after, and one project more. One whose directory is looked after is left alone.
pub open spec fn with_root(roots: RootsView, key: SessionKeyView, root: WatchedRootView) -> RootsView {
    match lookup(roots, key) {
        Some(existing) => if existing.root.ident() == root.root.ident() {
            roots
        } else {
            put(roots, key, root)
        },
        None => put(roots, key, root),
    }
}

impl WatchedRoots {
    /// Nothing is looked after.
    pub fn new() -> (r: WatchedRoots)
        ensures
            r@ == Seq::<(SessionKeyView, WatchedRootView)>::empty(),
    {
        WatchedRoots { roots: Table::new() }
    }

    /// Looks after the files of a project. One whose directory is looked after is left alone.
    pub fn watch_root(&mut self, session_key: SessionKey, watched_root: WatchedRoot)
        ensures
            final(self)@ == with_root(old(self)@, session_key@, watched_root@),
    {
        let already_watching_root = match self.roots.get(&session_key) {
            Some(existing) => existing.root.same(&watched_root.root),
            None => false,
        };
        if already_watching_root {
            return;
        }
        self.roots.insert(session_key, watched_root);
    }

    /// Looks after the files of a project no more.
    pub fn unwatch(&mut self, session_key: &SessionKey)
        ensures
            final(self)@ == without(old(self)@, session_key@),
    {
        let _ = self.roots.remove(session_key);
    }

    /// Compares the files with those seen last: what has become of them, by URL and by kind.
    pub fn scan(&mut self, current: Vec<CurrentFiles>) -> (r: Vec<WatchedFileChange>)
        ensures
            each(r@) == sorted::<WatchedFileChange>(all_changes(old(self)@, each(current@))),
            final(self)@ == updated(old(self)@, each(current@)),
    {
        let ghost all = each(current@);
        let ghost before = self@;
        let mut changes: Vec<WatchedFileChange> = Vec::new();
        let mut current = current;
        let ghost mut done: int = 0;
        let mut reversed: Vec<CurrentFiles> = Vec::new();
        while current.len() > 0
            invariant
                each(reversed@) == all.skip(current@.len() as int).reverse(),
                each(current@) == all.take(current@.len() as int),
                current@.len() <= all.len(),
            decreases current@.len(),
        {
            let ghost size = current@.len() as int;
            let ghost held = each(reversed@);
            let files = current.pop().unwrap();
            let ghost last = files@;
            reversed.push(files);
            proof {
                assert(last == all.take(size).last());
                assert(each(reversed@) =~= held.push(last));
                assert(all.skip(size - 1).reverse() =~= held.push(all[size - 1]));
                assert(each(current@) =~= all.take(size - 1));
            }
        }
        proof {
            assert(all.skip(0) =~= all);
            assert(each(changes@) =~= all_changes(before, all.take(0)));
        }
        while reversed.len() > 0
            invariant
                0 <= done <= all.len(),
                done + reversed@.len() == all.len(),
                each(reversed@) == all.skip(done).reverse(),
                self@ == updated(before, all.take(done)),
                each(changes@) == all_changes(before, all.take(done)),
            decreases reversed@.len(),
        {
            let ghost held = each(reversed@);
            let files = reversed.pop().unwrap();
            proof {
                assert(files@ == held.last());
                assert(held.last() == all[done]);
                assert(each(reversed@) =~= held.drop_last());
                assert(held.drop_last() =~= all.skip(done + 1).reverse());
                assert(all.take(done + 1).drop_last() =~= all.take(done));
                assert(all.take(done + 1).last() == all[done]);
            }
            let CurrentFiles { session_key, snapshot } = files;
            match self.roots.get_mut(&session_key) {
                Some(root) => {
                    let found = compare_snapshots(&root.snapshot, &snapshot);
                    push_with_urls(&mut changes, &session_key, &found);
                    root.snapshot = snapshot;
                },
                None => {
                    proof {
                        assert(each(changes@) =~= each(changes@) + Seq::<ChangeView>::empty());
                    }
                },
            }
            proof {
                done = done + 1;
            }
        }
        proof {
            assert(all.take(done) =~= all);
        }
        sort(changes)
    }
}

/// What the watcher is told.
#[derive(Debug)]
pub enum WatcherCommand {
    Watch(SessionKey, WatchedRoot),
    Unwatch(SessionKey),
    SetActive(bool),
    Stop,
}

/// The watcher: what it looks after, and whether it does.
#[derive(Debug)]
pub struct Watcher {
    pub active: bool,
    pub roots: WatchedRoots,
}

impl Watcher {
    /// A watcher that looks after nothing yet.
    pub fn new() -> (r: Watcher)
        ensures
            !r.active,
            r.roots@ == Seq::<(SessionKeyView, WatchedRootView)>::empty(),
    {
        Watcher { active: false, roots: WatchedRoots::new() }
    }

    /// Does what the watcher is told. Says whether it goes on.
    pub fn obey(&mut self, command: WatcherCommand) -> (r: bool)
        ensures
            r == !(command is Stop),
            final(self).active == (match command {
                WatcherCommand::SetActive(active) => active,
                _ => old(self).active,
            }),
            final(self).roots@ == (match command {
                WatcherCommand::Watch(key, root) => with_root(old(self).roots@, key@, root@),
                WatcherCommand::Unwatch(key) => without(old(self).roots@, key@),
                _ => old(self).roots@,
            }),
    {
        match command {
            WatcherCommand::Watch(key, root) => {
                self.roots.watch_root(key, root);
                true
            },
            WatcherCommand::Unwatch(key) => {
                self.roots.unwatch(&key);
                true
            },
            WatcherCommand::SetActive(active) => {
                self.active = active;
                true
            },
            WatcherCommand::Stop => false,
        }
    }

    /// The directories to go through at a tick: none where the watcher is not active.
    pub fn due(&self) -> (r: Vec<(SessionKey, FsPath)>)
        ensures
            r@.len() == (if self.active {
                self.roots@.len()
            } else {
                0
            }),
            forall|i: int|
                0 <= i < r@.len() ==> (#[trigger] r@[i]).0@ == self.roots@[i].0 && r@[i].1@
                    == self.roots@[i].1.root,
    {
        let mut out: Vec<(SessionKey, FsPath)> = Vec::new();
        if !self.active {
            return out;
        }
        let mut i: usize = 0;
        while i < self.roots.roots.len()
            invariant
                i <= self.roots@.len(),
                out@.len() == i,
                forall|j: int|
                    0 <= j < i ==> (#[trigger] out@[j]).0@ == self.roots@[j].0 && out@[j].1@
                        == self.roots@[j].1.root,
            decreases self.roots@.len() - i,
        {
            out.push(
                (
                    self.roots.roots.key_at(i).clone(),
                    self.roots.roots.value_at(i).root.clone(),
                ),
            );
            i += 1;
        }
        out
    }
}

proof fn unchanged_present(previous: SnapshotView, current: SnapshotView)
    requires
        forall|i: int|
            0 <= i < current.len() ==> lookup(previous, (#[trigger] current[i]).0) == Some(
                current[i].1,
            ),
    ensures
        changes_of_present(previous, current) == Seq::<PathChangeView>::empty(),
    decreases current.len(),
{
    if current.len() > 0 {
        assert forall|i: int| 0 <= i < current.drop_last().len() implies lookup(
            previous,
            (#[trigger] current.drop_last()[i]).0,
        ) == Some(current.drop_last()[i].1) by {
            assert(current.drop_last()[i] == current[i]);
        }
        unchanged_present(previous, current.drop_last());
        assert(current[current.len() - 1] == current.last());
    }
}

proof fn none_gone(previous: SnapshotView, current: SnapshotView)
    requires
        forall|i: int| 0 <= i < previous.len() ==> holds(current, (#[trigger] previous[i]).0),
    ensures
        changes_of_gone(previous, current) == Seq::<PathChangeView>::empty(),
    decreases previous.len(),
{
    if previous.len() > 0 {
        assert forall|i: int| 0 <= i < previous.drop_last().len() implies holds(
            current,
            (#[trigger] previous.drop_last()[i]).0,
        ) by {
            assert(previous.drop_last()[i] == previous[i]);
        }
        none_gone(previous.drop_last(), current);
        assert(previous[previous.len() - 1] == previous.last());
    }
}

/// Where no file has come, changed or gone, nothing is reported.
pub proof fn unchanged_files_are_not_reported(files: SnapshotView)
    requires
        keys_differ(files),
    ensures
        differences(files, files) == Seq::<PathChangeView>::empty(),
{
    assert forall|i: int| 0 <= i < files.len() implies lookup(files, (#[trigger] files[i]).0)
        == Some(files[i].1) by {
        find_by_first(files, files[i].0, i);
    }
    unchanged_present(files, files);
    none_gone(files, files);
}

proof fn contained_ahead<A>(a: Seq<A>, b: Seq<A>, x: A)
    requires
        a.contains(x),
    ensures
        (a + b).contains(x),
{
    let i = choose|i: int| 0 <= i < a.len() && a[i] == x;
    assert((a + b)[i] == x);
}

proof fn contained_behind<A>(a: Seq<A>, b: Seq<A>, x: A)
    requires
        b.contains(x),
    ensures
        (a + b).contains(x),
{
    let i = choose|i: int| 0 <= i < b.len() && b[i] == x;
    assert((a + b)[a.len() + i] == x);
}

proof fn present_changes_are_exact(
    previous: SnapshotView,
    current: SnapshotView,
    change: PathChangeView,
)
    ensures
        changes_of_present(previous, current).contains(change) <==> exists|i: int|
            0 <= i < current.len() && change_of_present(previous, #[trigger] current[i]) == seq![
                change,
            ],
    decreases current.len(),
{
    if current.len() > 0 {
        let rest = changes_of_present(previous, current.drop_last());
        let last = change_of_present(previous, current.last());
        present_changes_are_exact(previous, current.drop_last(), change);
        if exists|i: int|
            0 <= i < current.len() && change_of_present(previous, #[trigger] current[i]) == seq![
                change,
            ] {
            let i = choose|i: int|
                0 <= i < current.len() && change_of_present(previous, #[trigger] current[i])
                    == seq![change];
            if i == current.len() - 1 {
                assert(last[0] == change);
                contained_behind(rest, last, change);
            } else {
                assert(current.drop_last()[i] == current[i]);
                contained_ahead(rest, last, change);
            }
        }
        if (rest + last).contains(change) {
            let at = choose|at: int| 0 <= at < (rest + last).len() && (rest + last)[at] == change;
            if at < rest.len() {
                assert(rest[at] == change);
                let i = choose|i: int|
                    0 <= i < current.drop_last().len() && change_of_present(
                        previous,
                        #[trigger] current.drop_last()[i],
                    ) == seq![change];
                assert(current[i] == current.drop_last()[i]);
            } else {
                assert(last[at - rest.len()] == change);
                assert(last =~= seq![change]);
                assert(current[current.len() - 1] == current.last());
            }
        }
    }
}

proof fn gone_changes_are_exact(
    previous: SnapshotView,
    current: SnapshotView,
    change: PathChangeView,
)
    ensures
        changes_of_gone(previous, current).contains(change) <==> change.kind
            == WatchedFileChangeKind::Deleted && !holds(current, change.path) && (exists|i: int|
            0 <= i < previous.len() && (#[trigger] previous[i]).0 == change.path),
    decreases previous.len(),
{
    if previous.len() > 0 {
        let rest = changes_of_gone(previous.drop_last(), current);
        let whole = changes_of_gone(previous, current);
        let path = previous.last().0;
        gone_changes_are_exact(previous.drop_last(), current, change);
        if change.kind == WatchedFileChangeKind::Deleted && !holds(current, change.path) && (exists|
            i: int,
        |
            0 <= i < previous.len() && (#[trigger] previous[i]).0 == change.path) {
            let i = choose|i: int|
                0 <= i < previous.len() && (#[trigger] previous[i]).0 == change.path;
            if i == previous.len() - 1 {
                assert(whole[whole.len() - 1] == change);
            } else {
                assert(previous.drop_last()[i] == previous[i]);
                let at = choose|at: int| 0 <= at < rest.len() && rest[at] == change;
                assert(whole[at] == change);
            }
        }
        if whole.contains(change) {
            let at = choose|at: int| 0 <= at < whole.len() && whole[at] == change;
            if at < rest.len() {
                assert(rest[at] == change);
                let i = choose|i: int|
                    0 <= i < previous.drop_last().len() && (
                    #[trigger] previous.drop_last()[i]).0 == change.path;
                assert(previous[i] == previous.drop_last()[i]);
            } else {
                assert(previous[previous.len() - 1].0 == change.path);
            }
        }
    }
}

/// Whether it is reported of a file, however its path is spelled, what has become of it.
pub open spec fn reported(changes: Seq<PathChangeView>, change: PathChangeView) -> bool {
    exists|i: int|
        0 <= i < changes.len() && (#[trigger] changes[i]).path.ident() == change.path.ident()
            && changes[i].kind == change.kind
}

/// What is reported is exact: a file is reported as created where it has come, as changed where its
/// size or its time has changed, as deleted where it is gone, and not otherwise.
pub proof fn reports_are_exact(
    previous: SnapshotView,
    current: SnapshotView,
    change: PathChangeView,
)
    requires
        keys_differ(previous),
        keys_differ(current),
    ensures
        reported(differences(previous, current), change) <==> (match change.kind {
            WatchedFileChangeKind::Created => holds(current, change.path) && !holds(
                previous,
                change.path,
            ),
            WatchedFileChangeKind::Changed => holds(current, change.path) && holds(
                previous,
                change.path,
            ) && lookup(current, change.path) != lookup(previous, change.path),
            WatchedFileChangeKind::Deleted => holds(previous, change.path) && !holds(
                current,
                change.path,
            ),
        }),
{
    let present = changes_of_present(previous, current);
    let gone = changes_of_gone(previous, current);
    let all = present + gone;
    if reported(all, change) {
        let at = choose|at: int|
            0 <= at < all.len() && (#[trigger] all[at]).path.ident() == change.path.ident()
                && all[at].kind == change.kind;
        let told = all[at];
        same_keys_find_the_same(current, told.path, change.path);
        same_keys_find_the_same(previous, told.path, change.path);
        if at < present.len() {
            assert(present[at] == told);
            present_changes_are_exact(previous, current, told);
            let i = choose|i: int|
                0 <= i < current.len() && change_of_present(previous, #[trigger] current[i])
                    == seq![told];
            assert(change_of_present(previous, current[i])[0] == told);
            find_by_first(current, current[i].0, i);
        } else {
            assert(gone[at - present.len()] == told);
            gone_changes_are_exact(previous, current, told);
            let i = choose|i: int|
                0 <= i < previous.len() && (#[trigger] previous[i]).0 == told.path;
            find_by_first(previous, previous[i].0, i);
        }
    }
    find_is_first(current, change.path);
    find_is_first(previous, change.path);
    if holds(current, change.path) && change.kind != WatchedFileChangeKind::Deleted && (
    change.kind == WatchedFileChangeKind::Created) == !holds(previous, change.path) && lookup(
        current,
        change.path,
    ) != lookup(previous, change.path) {
        let i = find(current, change.path)->0;
        let entry = current[i];
        let told = PathChangeView { path: entry.0, kind: change.kind };
        same_keys_find_the_same(previous, entry.0, change.path);
        assert(change_of_present(previous, entry) =~= seq![told]);
        present_changes_are_exact(previous, current, told);
        contained_ahead(present, gone, told);
    }
    if holds(previous, change.path) && !holds(current, change.path) && change.kind
        == WatchedFileChangeKind::Deleted {
        let i = find(previous, change.path)->0;
        let told = PathChangeView { path: previous[i].0, kind: change.kind };
        same_keys_find_the_same(current, told.path, change.path);
        gone_changes_are_exact(previous, current, told);
        contained_behind(present, gone, told);
    }
}

/// Each change of a file that has a URL is forwarded under it.
pub proof fn changes_keep_their_urls(key: SessionKeyView, changes: Seq<PathChangeView>, i: int)
    requires
        0 <= i < changes.len(),
        path_url(changes[i].path) is Some,
    ensures
        with_urls(key, changes).contains(
            ChangeView {
                session_key: key,
                uri: path_url(changes[i].path)->0,
                kind: changes[i].kind,
            },
        ),
    decreases changes.len(),
{
    let view = ChangeView {
        session_key: key,
        uri: path_url(changes[i].path)->0,
        kind: changes[i].kind,
    };
    let whole = with_urls(key, changes);
    if i == changes.len() - 1 {
        assert(whole[whole.len() - 1] == view);
    } else {
        changes_keep_their_urls(key, changes.drop_last(), i);
        let rest = with_urls(key, changes.drop_last());
        let at = choose|at: int| 0 <= at < rest.len() && rest[at] == view;
        assert(whole[at] == view);
    }
}

/// Directories of dependencies and of build outputs are passed over: nothing below them is seen.
pub proof fn dependency_directories_are_passed_over(
    walk: WalkView,
    dir: PathView,
    entry: FoundView,
)
    requires
        entry.kind == FoundKind::Dir,
        !descends_into(child_of(dir, entry.name)),
    ensures
        walk.with_entry(dir, entry) == walk,
{
}

} // verus!
