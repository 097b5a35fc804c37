//! What a finished walk through a directory has seen.

use vstd::prelude::*;
use crate::path::{child_of, PathView};
use crate::table::{holds, lookup, put_lookups, Ident};
use crate::tsgo::file_watcher::{
    descends_into, watched, FileStamp, FoundKind, FoundView, SnapshotView, WalkView,
};

verus! {

/// What stands in each directory: nothing where it cannot be read.
pub type TreeView = spec_fn(PathView) -> Seq<FoundView>;

/// The directory that is reached from the root through directories of these names.
pub open spec fn dir_at(root: PathView, names: Seq<Seq<char>>) -> PathView
    decreases names.len(),
{
    if names.len() == 0 {
        root
    } else {
        child_of(dir_at(root, names.drop_last()), names.last())
    }
}

/// Whether the walk comes through directories of these names: each stands in the one before it, and
/// each is looked into. The name of the root itself does not matter.
pub open spec fn reached(tree: TreeView, root: PathView, names: Seq<Seq<char>>) -> bool
    decreases names.len(),
{
    names.len() == 0 || (reached(tree, root, names.drop_last()) && tree(
        dir_at(root, names.drop_last()),
    ).contains(FoundView { name: names.last(), kind: FoundKind::Dir }) && descends_into(
        dir_at(root, names),
    ))
}

/// Whether there is a file of this name that is looked after, and that has this stamp, in the
/// directory that is reached through directories of these names.
pub open spec fn seen(
    tree: TreeView,
    root: PathView,
    names: Seq<Seq<char>>,
    name: Seq<char>,
    stamp: FileStamp,
) -> bool {
    let dir = dir_at(root, names);
    &&& reached(tree, root, names)
    &&& tree(dir).contains(FoundView { name, kind: FoundKind::File(Some(stamp)) })
    &&& watched(child_of(dir, name))
}

/// Whether no name stands twice in a directory.
pub open spec fn names_differ(entries: Seq<FoundView>) -> bool {
    forall|i: int, j: int|
        0 <= i < j < entries.len() ==> (#[trigger] entries[i]).name != (#[trigger] entries[j]).name
}

/// The walk through the tree below the root, so many directories far.
pub open spec fn walked(tree: TreeView, root: PathView, steps: nat) -> WalkView
    decreases steps,
{
    if steps == 0 {
        WalkView { pending: seq![root], snapshot: Seq::empty() }
    } else {
        let before = walked(tree, root, (steps - 1) as nat);
        if before.pending.len() == 0 {
            before
        } else {
            let dir = before.pending.last();
            WalkView { pending: before.pending.drop_last(), ..before }.with_entries(dir, tree(dir))
        }
    }
}

/// Whether the snapshot has the stamp of each file in the directory that is looked after.
spec fn recorded(tree: TreeView, snapshot: SnapshotView, dir: PathView) -> bool {
    forall|name: Seq<char>, stamp: FileStamp|
        #![trigger tree(dir).contains(FoundView { name, kind: FoundKind::File(Some(stamp)) })]
        tree(dir).contains(FoundView { name, kind: FoundKind::File(Some(stamp)) }) && watched(
            child_of(dir, name),
        ) ==> lookup(snapshot, child_of(dir, name)) == Some(stamp)
}

/// Whether the directory, or one that leads to it, is still to be visited.
spec fn awaited(pending: Seq<PathView>, root: PathView, names: Seq<Seq<char>>) -> bool {
    exists|k: int|
        0 <= k <= names.len() && pending.contains(dir_at(root, #[trigger] names.take(k)))
}

/// Whether something in the snapshot is a file that is there.
spec fn justified(tree: TreeView, root: PathView, path: PathView, stamp: FileStamp) -> bool {
    exists|names: Seq<Seq<char>>, name: Seq<char>|
        #[trigger] seen(tree, root, names, name, stamp) && child_of(
            dir_at(root, names),
            name,
        ).ident() == path.ident()
}

spec fn on_track(tree: TreeView, root: PathView, walk: WalkView) -> bool {
    &&& forall|i: int|
        0 <= i < walk.pending.len() ==> exists|names: Seq<Seq<char>>| #[trigger]
            reached(tree, root, names) && dir_at(root, names) == #[trigger] walk.pending[i]
    &&& forall|path: PathView|
        (#[trigger] lookup(walk.snapshot, path)) matches Some(stamp) ==> justified(
            tree,
            root,
            path,
            stamp,
        )
    &&& forall|names: Seq<Seq<char>>| #[trigger]
        reached(tree, root, names) ==> awaited(walk.pending, root, names) || recorded(
            tree,
            walk.snapshot,
            dir_at(root, names),
        )
}

proof fn dir_parts(root: PathView, names: Seq<Seq<char>>)
    ensures
        dir_at(root, names).parts == root.parts + names,
    decreases names.len(),
{
    if names.len() > 0 {
        dir_parts(root, names.drop_last());
        assert(root.parts + names =~= (root.parts + names.drop_last()).push(names.last()));
    } else {
        assert(root.parts + names =~= root.parts);
    }
}

proof fn same_place(
    root: PathView,
    a: Seq<Seq<char>>,
    a_name: Seq<char>,
    b: Seq<Seq<char>>,
    b_name: Seq<char>,
)
    requires
        child_of(dir_at(root, a), a_name).ident() == child_of(dir_at(root, b), b_name).ident(),
    ensures
        a == b,
        a_name == b_name,
{
    dir_parts(root, a);
    dir_parts(root, b);
    let left = (root.parts + a).push(a_name);
    let right = (root.parts + b).push(b_name);
    assert(left == right);
    assert(left.last() == right.last());
    let size = root.parts.len() as int;
    assert(a =~= left.drop_last().skip(size));
    assert(b =~= right.drop_last().skip(size));
}

/// What one directory adds to a walk.
proof fn visited(walk: WalkView, dir: PathView, entries: Seq<FoundView>)
    requires
        names_differ(entries),
    ensures
        ({
            let after = walk.with_entries(dir, entries);
            &&& forall|p: PathView|
                #[trigger] after.pending.contains(p) <==> walk.pending.contains(p) || exists|i: int|
                    0 <= i < entries.len() && (#[trigger] entries[i]).kind == FoundKind::Dir
                        && p == child_of(dir, entries[i].name) && descends_into(p)
            &&& forall|i: int|
                0 <= i < entries.len() ==> stamped(after.snapshot, dir, #[trigger] entries[i])
            &&& forall|p: PathView|
                #[trigger] lookup(after.snapshot, p) == lookup(walk.snapshot, p) || exists|i: int|
                    0 <= i < entries.len() && added(after.snapshot, dir, #[trigger] entries[i], p)
        }),
    decreases entries.len(),
{
    let after = walk.with_entries(dir, entries);
    if entries.len() > 0 {
        let rest = entries.drop_last();
        let last = entries.last();
        let before = walk.with_entries(dir, rest);
        let path = child_of(dir, last.name);
        visited(walk, dir, rest);
        if let FoundKind::File(Some(stamp)) = last.kind {
            put_lookups(before.snapshot, path, stamp);
        }
        assert forall|p: PathView|
            #[trigger] after.pending.contains(p) <==> walk.pending.contains(p) || exists|i: int|
                0 <= i < entries.len() && (#[trigger] entries[i]).kind == FoundKind::Dir && p
                    == child_of(dir, entries[i].name) && descends_into(p) by {
            if after.pending.contains(p) {
                let at = choose|at: int| 0 <= at < after.pending.len() && after.pending[at] == p;
                if at < before.pending.len() {
                    assert(before.pending[at] == p);
                    assert(before.pending.contains(p));
                    if !walk.pending.contains(p) {
                        let i = choose|i: int|
                            0 <= i < rest.len() && (#[trigger] rest[i]).kind == FoundKind::Dir && p
                                == child_of(dir, rest[i].name) && descends_into(p);
                        assert(entries[i] == rest[i]);
                    }
                } else {
                    assert(entries[entries.len() - 1] == last);
                }
            }
            if walk.pending.contains(p) || exists|i: int|
                0 <= i < entries.len() && (#[trigger] entries[i]).kind == FoundKind::Dir && p
                    == child_of(dir, entries[i].name) && descends_into(p) {
                if before.pending.contains(p) {
                    let at = choose|at: int|
                        0 <= at < before.pending.len() && before.pending[at] == p;
                    assert(after.pending[at] == p);
                } else {
                    let i = choose|i: int|
                        0 <= i < entries.len() && (#[trigger] entries[i]).kind == FoundKind::Dir
                            && p == child_of(dir, entries[i].name) && descends_into(p);
                    if i < rest.len() {
                        assert(rest[i] == entries[i]);
                    }
                    assert(after.pending[after.pending.len() - 1] == p);
                }
            }
        }
        assert forall|i: int| 0 <= i < entries.len() implies stamped(
            after.snapshot,
            dir,
            #[trigger] entries[i],
        ) by {
            if i < rest.len() {
                assert(rest[i] == entries[i]);
                assert(entries[i].name != entries[entries.len() - 1].name);
                let mine = child_of(dir, entries[i].name);
                assert(mine.parts.last() == entries[i].name);
                assert(path.parts.last() == last.name);
                assert(mine.ident() != path.ident());
            }
        }
        assert forall|p: PathView|
            #[trigger] lookup(after.snapshot, p) == lookup(walk.snapshot, p) || exists|i: int|
                0 <= i < entries.len() && added(after.snapshot, dir, #[trigger] entries[i], p) by {
            if lookup(after.snapshot, p) == lookup(before.snapshot, p) {
                if lookup(before.snapshot, p) != lookup(walk.snapshot, p) {
                    let i = choose|i: int|
                        0 <= i < rest.len() && added(before.snapshot, dir, #[trigger] rest[i], p);
                    assert(entries[i] == rest[i]);
                    assert(added(after.snapshot, dir, entries[i], p));
                }
            } else {
                assert(added(after.snapshot, dir, entries[entries.len() - 1], p));
            }
        }
    }
}

/// Whether the snapshot has the stamp of an entry, if that is a file that is looked after.
spec fn stamped(snapshot: SnapshotView, dir: PathView, entry: FoundView) -> bool {
    match entry.kind {
        FoundKind::File(Some(stamp)) => watched(child_of(dir, entry.name)) ==> lookup(
            snapshot,
            child_of(dir, entry.name),
        ) == Some(stamp),
        _ => true,
    }
}

/// Whether what the snapshot has of a path is what an entry of a directory gave.
spec fn added(snapshot: SnapshotView, dir: PathView, entry: FoundView, p: PathView) -> bool {
    &&& entry.kind matches FoundKind::File(Some(stamp))
    &&& lookup(snapshot, p) == Some(stamp)
    &&& watched(child_of(dir, entry.name))
    &&& child_of(dir, entry.name).ident() == p.ident()
}

proof fn prefixes_are_reached(tree: TreeView, root: PathView, names: Seq<Seq<char>>, k: int)
    requires
        reached(tree, root, names),
        0 <= k <= names.len(),
    ensures
        reached(tree, root, names.take(k)),
    decreases names.len(),
{
    if k == names.len() {
        assert(names.take(k) =~= names);
    } else {
        prefixes_are_reached(tree, root, names.drop_last(), k);
        assert(names.drop_last().take(k) =~= names.take(k));
    }
}

proof fn stays_on_track(tree: TreeView, root: PathView, before: WalkView)
    requires
        on_track(tree, root, before),
        before.pending.len() > 0,
        forall|names: Seq<Seq<char>>| #[trigger]
            reached(tree, root, names) ==> names_differ(tree(dir_at(root, names))),
    ensures
        on_track(
            tree,
            root,
            (WalkView { pending: before.pending.drop_last(), ..before }).with_entries(
                before.pending.last(),
                tree(before.pending.last()),
            ),
        ),
{
    let dir = before.pending.last();
    let entries = tree(dir);
    let popped = WalkView { pending: before.pending.drop_last(), ..before };
    let after = popped.with_entries(dir, entries);
    assert(before.pending[before.pending.len() - 1] == dir);
    let here = choose|names: Seq<Seq<char>>| #[trigger]
        reached(tree, root, names) && dir_at(root, names) == dir;
    assert(reached(tree, root, here) && dir_at(root, here) == dir);
    visited(popped, dir, entries);
    assert forall|i: int| 0 <= i < after.pending.len() implies exists|names: Seq<Seq<char>>|
        #[trigger] reached(tree, root, names) && dir_at(root, names)
            == #[trigger] after.pending[i] by {
        let p = after.pending[i];
        assert(after.pending.contains(p));
        if popped.pending.contains(p) {
            let j = choose|j: int| 0 <= j < popped.pending.len() && popped.pending[j] == p;
            assert(before.pending[j] == p);
        } else {
            let j = choose|j: int|
                0 <= j < entries.len() && (#[trigger] entries[j]).kind == FoundKind::Dir && p
                    == child_of(dir, entries[j].name) && descends_into(p);
            let names = here.push(entries[j].name);
            assert(names.drop_last() =~= here);
            assert(entries[j] == FoundView { name: names.last(), kind: FoundKind::Dir });
            assert(entries.contains(entries[j]));
            assert(reached(tree, root, names));
        }
    }
    assert forall|path: PathView|
        (#[trigger] lookup(after.snapshot, path)) matches Some(stamp) implies justified(
        tree,
        root,
        path,
        lookup(after.snapshot, path)->0,
    ) by {
        if lookup(after.snapshot, path) == lookup(before.snapshot, path) {
            assert(lookup(before.snapshot, path) is Some);
        } else {
            let i = choose|i: int|
                0 <= i < entries.len() && added(after.snapshot, dir, #[trigger] entries[i], path);
            let stamp = lookup(after.snapshot, path)->0;
            assert(entries[i] == FoundView {
                name: entries[i].name,
                kind: FoundKind::File(Some(stamp)),
            });
            assert(entries.contains(entries[i]));
            assert(seen(tree, root, here, entries[i].name, stamp));
        }
    }
    assert forall|names: Seq<Seq<char>>| #[trigger] reached(tree, root, names) implies awaited(
        after.pending,
        root,
        names,
    ) || recorded(tree, after.snapshot, dir_at(root, names)) by {
        if awaited(before.pending, root, names) {
            let k = choose|k: int|
                0 <= k <= names.len() && before.pending.contains(
                    dir_at(root, #[trigger] names.take(k)),
                );
            let p = dir_at(root, names.take(k));
            if popped.pending.contains(p) {
                assert(after.pending.contains(p));
            } else {
                let at = choose|at: int| 0 <= at < before.pending.len() && before.pending[at] == p;
                if at < before.pending.len() - 1 {
                    assert(popped.pending[at] == p);
                }
                assert(p == dir);
                if k == names.len() {
                    assert(names.take(k) =~= names);
                    assert forall|name: Seq<char>, stamp: FileStamp|
                        #![trigger entries.contains(FoundView { name, kind: FoundKind::File(Some(stamp)) })]
                        entries.contains(FoundView { name, kind: FoundKind::File(Some(stamp)) })
                            && watched(child_of(dir, name)) implies lookup(
                        after.snapshot,
                        child_of(dir, name),
                    ) == Some(stamp) by {
                        let entry = FoundView { name, kind: FoundKind::File(Some(stamp)) };
                        let i = choose|i: int| 0 <= i < entries.len() && entries[i] == entry;
                        assert(entries[i].name == name);
                    }
                } else {
                    prefixes_are_reached(tree, root, names, k + 1);
                    let next = names.take(k + 1);
                    assert(next.drop_last() =~= names.take(k));
                    let entry = FoundView { name: next.last(), kind: FoundKind::Dir };
                    assert(entries.contains(entry));
                    let i = choose|i: int| 0 <= i < entries.len() && entries[i] == entry;
                    assert(entries[i].kind == FoundKind::Dir);
                    assert(after.pending.contains(dir_at(root, next)));
                }
            }
        } else {
            let place = dir_at(root, names);
            assert(recorded(tree, before.snapshot, place));
            assert forall|name: Seq<char>, stamp: FileStamp|
                #![trigger tree(place).contains(FoundView { name, kind: FoundKind::File(Some(stamp)) })]
                tree(place).contains(FoundView { name, kind: FoundKind::File(Some(stamp)) })
                    && watched(child_of(place, name)) implies lookup(
                after.snapshot,
                child_of(place, name),
            ) == Some(stamp) by {
                let path = child_of(place, name);
                if lookup(after.snapshot, path) != lookup(before.snapshot, path) {
                    let i = choose|i: int|
                        0 <= i < entries.len() && added(
                            after.snapshot,
                            dir,
                            #[trigger] entries[i],
                            path,
                        );
                    same_place(root, here, entries[i].name, names, name);
                    let entry = FoundView { name, kind: FoundKind::File(Some(stamp)) };
                    let j = choose|j: int| 0 <= j < entries.len() && entries[j] == entry;
                    assert(entries[i].name == entries[j].name);
                    assert(i == j);
                }
            }
        }
    }
}

proof fn walks_stay_on_track(tree: TreeView, root: PathView, steps: nat)
    requires
        forall|names: Seq<Seq<char>>| #[trigger]
            reached(tree, root, names) ==> names_differ(tree(dir_at(root, names))),
    ensures
        on_track(tree, root, walked(tree, root, steps)),
    decreases steps,
{
    let walk = walked(tree, root, steps);
    if steps == 0 {
        let none = Seq::<Seq<char>>::empty();
        assert(reached(tree, root, none) && dir_at(root, none) == root);
        assert forall|names: Seq<Seq<char>>| #[trigger] reached(tree, root, names) implies awaited(
            walk.pending,
            root,
            names,
        ) by {
            assert(names.take(0) =~= none);
            assert(walk.pending[0] == dir_at(root, names.take(0)));
        }
    } else {
        let before = walked(tree, root, (steps - 1) as nat);
        walks_stay_on_track(tree, root, (steps - 1) as nat);
        if before.pending.len() > 0 {
            stays_on_track(tree, root, before);
        }
    }
}

/// A walk that has nothing left to visit has seen exactly the files that are looked after and that
/// are reached through directories that are looked into, and it has the stamp of each. No link leads
/// to any of them, since an entry that is a link is neither a directory nor a file.
pub proof fn finished_walks_are_exact(tree: TreeView, root: PathView, steps: nat)
    requires
        walked(tree, root, steps).pending.len() == 0,
        forall|names: Seq<Seq<char>>| #[trigger]
            reached(tree, root, names) ==> names_differ(tree(dir_at(root, names))),
    ensures
        ({
            let files = walked(tree, root, steps).snapshot;
            &&& forall|names: Seq<Seq<char>>, name: Seq<char>, stamp: FileStamp| #[trigger]
                seen(tree, root, names, name, stamp) ==> lookup(
                    files,
                    child_of(dir_at(root, names), name),
                ) == Some(stamp)
            &&& forall|path: PathView| #[trigger]
                holds(files, path) ==> exists|names: Seq<Seq<char>>, name: Seq<char>| #[trigger]
                    seen(tree, root, names, name, lookup(files, path)->0) && child_of(
                        dir_at(root, names),
                        name,
                    ).ident() == path.ident()
        }),
{
    let walk = walked(tree, root, steps);
    let files = walk.snapshot;
    walks_stay_on_track(tree, root, steps);
    assert forall|names: Seq<Seq<char>>, name: Seq<char>, stamp: FileStamp| #[trigger]
        seen(tree, root, names, name, stamp) implies lookup(
        files,
        child_of(dir_at(root, names), name),
    ) == Some(stamp) by {
        assert(reached(tree, root, names));
        assert(!awaited(walk.pending, root, names));
        assert(recorded(tree, files, dir_at(root, names)));
    }
    assert forall|path: PathView| #[trigger] holds(files, path) implies exists|
        names: Seq<Seq<char>>,
        name: Seq<char>,
    | #[trigger]
        seen(tree, root, names, name, lookup(files, path)->0) && child_of(
            dir_at(root, names),
            name,
        ).ident() == path.ident() by {
        assert(justified(tree, root, path, lookup(files, path)->0));
    }
}

/// How many directories are visited below a directory, itself included, where none is deeper than
/// `depth` levels below it.
spec fn load(tree: TreeView, dir: PathView, depth: nat) -> nat
    decreases depth, 0nat,
{
    if depth == 0 {
        1
    } else {
        1 + loads(tree, dir, tree(dir), (depth - 1) as nat)
    }
}

/// How many directories are visited below those among the entries of a directory.
spec fn loads(tree: TreeView, dir: PathView, entries: Seq<FoundView>, depth: nat) -> nat
    decreases depth, entries.len(),
{
    if entries.len() == 0 {
        0
    } else {
        let last = entries.last();
        let path = child_of(dir, last.name);
        loads(tree, dir, entries.drop_last(), depth) + (if last.kind == FoundKind::Dir
            && descends_into(path) {
            load(tree, path, depth)
        } else {
            0
        })
    }
}

/// How many levels can lie below a directory, where none lies deeper than `depth` below the root.
spec fn levels(root: PathView, dir: PathView, depth: nat) -> nat {
    (depth + root.parts.len() - dir.parts.len()) as nat
}

/// How many directories are still to be visited.
spec fn total_load(tree: TreeView, root: PathView, pending: Seq<PathView>, depth: nat) -> nat
    decreases pending.len(),
{
    if pending.len() == 0 {
        0
    } else {
        total_load(tree, root, pending.drop_last(), depth) + load(
            tree,
            pending.last(),
            levels(root, pending.last(), depth),
        )
    }
}

proof fn load_of_entries(
    tree: TreeView,
    root: PathView,
    walk: WalkView,
    dir: PathView,
    entries: Seq<FoundView>,
    depth: nat,
)
    requires
        dir.parts.len() < depth + root.parts.len(),
    ensures
        total_load(tree, root, walk.with_entries(dir, entries).pending, depth) == total_load(
            tree,
            root,
            walk.pending,
            depth,
        ) + loads(tree, dir, entries, (levels(root, dir, depth) - 1) as nat),
    decreases entries.len(),
{
    if entries.len() > 0 {
        load_of_entries(tree, root, walk, dir, entries.drop_last(), depth);
        let before = walk.with_entries(dir, entries.drop_last());
        let path = child_of(dir, entries.last().name);
        assert(before.pending.push(path).drop_last() =~= before.pending);
        assert(levels(root, path, depth) == levels(root, dir, depth) - 1);
    }
}

proof fn nothing_to_descend_into(walk: WalkView, dir: PathView, entries: Seq<FoundView>)
    requires
        forall|i: int|
            0 <= i < entries.len() ==> !((#[trigger] entries[i]).kind == FoundKind::Dir
                && descends_into(child_of(dir, entries[i].name))),
    ensures
        walk.with_entries(dir, entries).pending == walk.pending,
    decreases entries.len(),
{
    if entries.len() > 0 {
        let rest = entries.drop_last();
        assert forall|i: int| 0 <= i < rest.len() implies !((#[trigger] rest[i]).kind
            == FoundKind::Dir && descends_into(child_of(dir, rest[i].name))) by {
            assert(rest[i] == entries[i]);
        }
        nothing_to_descend_into(walk, dir, rest);
        assert(entries[entries.len() - 1] == entries.last());
    }
}

proof fn each_visit_is_one_less(tree: TreeView, root: PathView, before: WalkView, depth: nat)
    requires
        on_track(tree, root, before),
        before.pending.len() > 0,
        forall|names: Seq<Seq<char>>| #[trigger]
            reached(tree, root, names) ==> names.len() <= depth,
    ensures
        ({
            let dir = before.pending.last();
            let after = (WalkView { pending: before.pending.drop_last(), ..before }).with_entries(
                dir,
                tree(dir),
            );
            total_load(tree, root, after.pending, depth) + 1 == total_load(
                tree,
                root,
                before.pending,
                depth,
            )
        }),
{
    let dir = before.pending.last();
    let entries = tree(dir);
    let popped = WalkView { pending: before.pending.drop_last(), ..before };
    assert(before.pending[before.pending.len() - 1] == dir);
    let here = choose|names: Seq<Seq<char>>| #[trigger]
        reached(tree, root, names) && dir_at(root, names) == dir;
    assert(reached(tree, root, here) && dir_at(root, here) == dir);
    dir_parts(root, here);
    if here.len() < depth {
        load_of_entries(tree, root, popped, dir, entries, depth);
    } else {
        assert forall|i: int| 0 <= i < entries.len() implies !((#[trigger] entries[i]).kind
            == FoundKind::Dir && descends_into(child_of(dir, entries[i].name))) by {
            let names = here.push(entries[i].name);
            assert(names.drop_last() =~= here);
            if entries[i].kind == FoundKind::Dir && descends_into(child_of(dir, names.last())) {
                assert(entries[i] == FoundView { name: names.last(), kind: FoundKind::Dir });
                assert(entries.contains(entries[i]));
                assert(reached(tree, root, names));
            }
        }
        nothing_to_descend_into(popped, dir, entries);
    }
}

proof fn walks_end_from(tree: TreeView, root: PathView, steps: nat, depth: nat)
    requires
        forall|names: Seq<Seq<char>>| #[trigger]
            reached(tree, root, names) ==> names.len() <= depth && names_differ(
                tree(dir_at(root, names)),
            ),
    ensures
        exists|n: nat| (#[trigger] walked(tree, root, n)).pending.len() == 0,
    decreases total_load(tree, root, walked(tree, root, steps).pending, depth),
{
    let walk = walked(tree, root, steps);
    if walk.pending.len() > 0 {
        walks_stay_on_track(tree, root, steps);
        each_visit_is_one_less(tree, root, walk, depth);
        walks_end_from(tree, root, steps + 1, depth);
    }
}

/// A walk comes to its end, wherever no directory that is looked into lies deeper than some depth.
pub proof fn walks_end(tree: TreeView, root: PathView, depth: nat)
    requires
        forall|names: Seq<Seq<char>>| #[trigger]
            reached(tree, root, names) ==> names.len() <= depth && names_differ(
                tree(dir_at(root, names)),
            ),
    ensures
        exists|steps: nat| (#[trigger] walked(tree, root, steps)).pending.len() == 0,
{
    walks_end_from(tree, root, 0, depth);
}

} // verus!
