//! Which files are looked after, and what is reported of them.

use vstd::prelude::*;
use crate::package_laws::{extensions_follow_the_last_dot, names_without_a_dot_have_no_extension};
use crate::path::{child_of, name_of, PathView};
use crate::sort::{sorted, sorted_is_ordered};
use crate::table::{holds, keys_differ, lookup, put_lookups, Ident};
use crate::text::{text_order, Order};
use crate::tsgo::discovery::SessionKeyView;
use crate::tsgo::file_watcher::{
    all_changes, descends_into, differences, unchanged_files_are_not_reported, updated, watched,
    with_root, with_urls, ChangeView, CurrentFilesView, FileStamp, FoundKind, FoundView,
    PathChangeView, RootsView, SnapshotView, WalkView, WatchedFileChange, WatchedFileChangeKind,
    WatchedRootView,
};
use crate::url_text::path_url;

verus! {

/// Whether a file of this extension may matter to the compiler.
pub open spec fn is_source_extension(extension: Seq<char>) -> bool {
    extension == "ts"@ || extension == "tsx"@ || extension == "mts"@ || extension == "cts"@
        || extension == "js"@ || extension == "jsx"@ || extension == "mjs"@ || extension == "cjs"@
        || extension == "json"@
}

/// A file is looked after just when it is a source or a configuration of TypeScript or JavaScript by its
/// extension.
pub proof fn sources_are_looked_after(path: PathView, stem: Seq<char>, extension: Seq<char>)
    requires
        stem.len() > 0,
        name_of(path) == Some(stem.push('.') + extension),
        forall|i: int| 0 <= i < extension.len() ==> extension[i] != '.',
    ensures
        watched(path) <==> is_source_extension(extension),
{
    extensions_follow_the_last_dot(path, stem, extension);
}

/// A file without an extension is not looked after.
pub proof fn files_without_an_extension_are_not_looked_after(path: PathView, name: Seq<char>)
    requires
        name_of(path) == Some(name),
        forall|i: int| 0 < i < name.len() ==> name[i] != '.',
    ensures
        !watched(path),
{
    names_without_a_dot_have_no_extension(path, name);
}

/// Whether a directory of this name holds what is kept of other programs: versions, caches, dependencies and
/// build outputs.
pub open spec fn is_kept_apart(name: Seq<char>) -> bool {
    name == ".git"@ || name == ".hg"@ || name == ".jj"@ || name == ".svn"@ || name == ".cache"@
        || name == ".next"@ || name == ".turbo"@ || name == "build"@ || name == "coverage"@ || name
        == "dist"@ || name == "node_modules"@ || name == "target"@
}

/// All directories are looked into, but for those that hold what is kept of other programs.
pub proof fn other_directories_are_looked_into(walk: WalkView, dir: PathView, name: Seq<char>)
    requires
        name != "."@,
        name != ".."@,
    ensures
        ({
            let found = walk.with_entry(dir, FoundView { name, kind: FoundKind::Dir });
            &&& is_kept_apart(name) ==> found == walk
            &&& !is_kept_apart(name) ==> found.pending == walk.pending.push(child_of(dir, name))
                && found.snapshot == walk.snapshot
        }),
{
    reveal_strlit(".");
    reveal_strlit("..");
    assert("."@ =~= crate::path::here());
    assert(".."@ =~= crate::path::up());
    let path = child_of(dir, name);
    assert(path.parts.last() == name);
}

/// A file that is looked after is seen with its stamp, unless it has gone meanwhile; all else is not seen.
pub proof fn files_are_seen_with_their_stamp(
    walk: WalkView,
    dir: PathView,
    name: Seq<char>,
    stamp: FileStamp,
)
    ensures
        ({
            let path = child_of(dir, name);
            let there = walk.with_entry(dir, FoundView { name, kind: FoundKind::File(Some(stamp)) });
            &&& watched(path) ==> lookup(there.snapshot, path) == Some(stamp)
            &&& !watched(path) ==> there == walk
            &&& there.pending == walk.pending
            &&& walk.with_entry(dir, FoundView { name, kind: FoundKind::File(None) }) == walk
        }),
{
    put_lookups(walk.snapshot, child_of(dir, name), stamp);
}

/// A project whose directory is looked after already keeps what was seen of it last, and any other is looked
/// after from what is seen of it now. Other projects are left alone.
pub proof fn projects_are_looked_after_once(
    roots: RootsView,
    key: SessionKeyView,
    other: SessionKeyView,
    root: WatchedRootView,
)
    ensures
        lookup(roots, key) is None ==> lookup(with_root(roots, key, root), key) == Some(root),
        lookup(roots, key) matches Some(existing) ==> existing.root.ident() == root.root.ident()
            ==> lookup(with_root(roots, key, root), key) == Some(existing),
        lookup(roots, key) matches Some(existing) ==> existing.root.ident() != root.root.ident()
            ==> lookup(with_root(roots, key, root), key) == Some(root),
        other.ident() != key.ident() ==> lookup(with_root(roots, key, root), other) == lookup(
            roots,
            other,
        ),
{
    put_lookups(roots, key, root);
}

/// What is reported of the files of a project is how they differ from those that were seen last, and what is
/// compared next is what is seen now. So nothing is reported twice.
pub proof fn changes_are_reported_once(
    roots: RootsView,
    key: SessionKeyView,
    root: WatchedRootView,
    files: SnapshotView,
)
    requires
        lookup(roots, key) == Some(root),
        keys_differ(files),
    ensures
        ({
            let now = seq![CurrentFilesView { session_key: key, snapshot: files }];
            let later = updated(roots, now);
            &&& all_changes(roots, now) == with_urls(key, differences(root.snapshot, files))
            &&& lookup(later, key) == Some(WatchedRootView { root: root.root, snapshot: files })
            &&& all_changes(later, now).len() == 0
        }),
{
    let last = CurrentFilesView { session_key: key, snapshot: files };
    let now = seq![last];
    let seen = WatchedRootView { snapshot: files, ..root };
    put_lookups(roots, key, seen);
    let before = now.drop_last();
    assert(before.len() == 0);
    assert(now.last() == last);
    assert(updated(roots, before) == roots);
    assert(all_changes(roots, before) =~= Seq::<ChangeView>::empty());
    assert(all_changes(roots, now) =~= with_urls(key, differences(root.snapshot, files)));
    let later = updated(roots, now);
    assert(updated(later, before) == later);
    assert(all_changes(later, before) =~= Seq::<ChangeView>::empty());
    unchanged_files_are_not_reported(files);
    assert(with_urls(key, differences(files, files)).len() == 0);
}

/// Nothing is reported of files that are looked after no more.
pub proof fn other_files_are_not_reported(
    roots: RootsView,
    key: SessionKeyView,
    files: SnapshotView,
)
    requires
        lookup(roots, key) is None,
    ensures
        all_changes(roots, seq![CurrentFilesView { session_key: key, snapshot: files }]).len() == 0,
        updated(roots, seq![CurrentFilesView { session_key: key, snapshot: files }]) == roots,
{
    let now = seq![CurrentFilesView { session_key: key, snapshot: files }];
    let before = now.drop_last();
    assert(before.len() == 0);
    assert(updated(roots, before) == roots);
    assert(all_changes(roots, before) =~= Seq::<ChangeView>::empty());
}

/// Each change that is forwarded is one of the changes, under the URL of its file and for its project.
pub proof fn forwarded_changes_are_changes(
    key: SessionKeyView,
    changes: Seq<PathChangeView>,
    change: ChangeView,
)
    requires
        with_urls(key, changes).contains(change),
    ensures
        change.session_key == key,
        exists|i: int|
            0 <= i < changes.len() && path_url((#[trigger] changes[i]).path) == Some(change.uri)
                && changes[i].kind == change.kind,
    decreases changes.len(),
{
    let rest = changes.drop_last();
    let last = changes.last();
    let before = with_urls(key, rest);
    let all = with_urls(key, changes);
    let k = choose|k: int| 0 <= k < all.len() && all[k] == change;
    if k < before.len() {
        assert(before[k] == change);
        forwarded_changes_are_changes(key, rest, change);
        let i = choose|i: int|
            0 <= i < rest.len() && path_url((#[trigger] rest[i]).path) == Some(change.uri)
                && rest[i].kind == change.kind;
        assert(changes[i] == rest[i]);
    } else {
        assert(changes[changes.len() - 1] == last);
    }
}

/// Changes are reported by URL, and those of one URL in the order created, changed, deleted.
pub proof fn reports_are_in_order(changes: Seq<ChangeView>, i: int, j: int)
    requires
        0 <= i < j < changes.len(),
    ensures
        ({
            let out = sorted::<WatchedFileChange>(changes);
            &&& out.len() == changes.len()
            &&& text_order(out[i].uri, out[j].uri) != Order::After
            &&& out[i].uri == out[j].uri && out[j].kind == WatchedFileChangeKind::Created
                ==> out[i].kind == WatchedFileChangeKind::Created
            &&& out[i].uri == out[j].uri && out[i].kind == WatchedFileChangeKind::Deleted
                ==> out[j].kind == WatchedFileChangeKind::Deleted
        }),
{
    sorted_is_ordered::<WatchedFileChange>(changes);
    let out = sorted::<WatchedFileChange>(changes);
    let le = crate::sort::order_of::<WatchedFileChange>();
    assert(le(out[i], out[j]));
    crate::text::text_order_same(out[i].uri, out[j].uri);
}

/// A directory without a name, such as the root, is looked into.
pub proof fn nameless_directories_are_looked_into(path: PathView)
    requires
        name_of(path) is None,
    ensures
        descends_into(path),
{
}

} // verus!
