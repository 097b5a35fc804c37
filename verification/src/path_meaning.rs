//! What paths mean: which lie in which, and which come first.

use vstd::prelude::*;
use crate::path::{
    ancestor_begins_the_path, ancestor_of, child_of, depth_of, empty_path, here, join_of,
    lies_under, name_of, parent_of, part_order, parts_order, path_of, path_order, up, PathView,
};
use crate::table::Ident;
use crate::text::{text_order, Order};

verus! {

/// What is in a directory has its own name, and the directory holds it.
pub proof fn a_directory_holds_its_children(dir: PathView, name: Seq<char>)
    requires
        name != here(),
        name != up(),
    ensures
        name_of(child_of(dir, name)) == Some(name),
        parent_of(child_of(dir, name)) matches Some(parent) && parent.absolute == dir.absolute
            && parent.parts == dir.parts,
        child_of(dir, name).absolute == dir.absolute,
        child_of(dir, name).parts == dir.parts.push(name),
{
    let child = child_of(dir, name);
    assert(child.parts.last() == name);
    assert(child.parts.drop_last() =~= dir.parts);
}

/// A path lies under another just when the other is the path itself, the directory that holds it, or one of
/// those further up. Every relative path lies under the empty one.
pub proof fn paths_lie_under_their_ancestors(path: PathView, base: PathView)
    ensures
        !empty_path(base) ==> (lies_under(path, base) <==> exists|n: int|
            0 <= n <= path.parts.len() && (#[trigger] ancestor_of(path, n)).ident() == base.ident()),
        empty_path(base) ==> lies_under(path, base),
{
    if lies_under(path, base) && !empty_path(base) {
        let n = path.parts.len() - base.parts.len();
        ancestor_begins_the_path(path, n);
        crate::path_laws::paths_are_compared_by_their_components(ancestor_of(path, n), base);
        assert(ancestor_of(path, n).ident() == base.ident());
    }
    if exists|n: int|
        0 <= n <= path.parts.len() && (#[trigger] ancestor_of(path, n)).ident() == base.ident() {
        let n = choose|n: int|
            0 <= n <= path.parts.len() && (#[trigger] ancestor_of(path, n)).ident() == base.ident();
        ancestor_begins_the_path(path, n);
        crate::path_laws::paths_are_compared_by_their_components(ancestor_of(path, n), base);
    }
    if empty_path(base) {
        assert(path.parts.take(0) =~= base.parts);
    }
}

/// What lies under what lies under a directory lies under the directory.
pub proof fn lying_under_goes_on(a: PathView, b: PathView, c: PathView)
    requires
        lies_under(a, b),
        lies_under(b, c),
    ensures
        b.absolute == a.absolute ==> lies_under(a, c),
{
    if b.absolute == a.absolute {
        assert(a.parts.take(c.parts.len() as int) =~= b.parts.take(c.parts.len() as int)) by {
            assert(a.parts.take(b.parts.len() as int).take(c.parts.len() as int) =~= a.parts.take(
                c.parts.len() as int,
            ));
        }
    }
}

/// The depth of a path counts its components and the root: one more for each step down.
pub proof fn each_step_down_is_one_deeper(path: PathView, name: Seq<char>)
    ensures
        depth_of(child_of(path, name)) == depth_of(path) + 1,
        empty_path(path) ==> depth_of(path) == 0,
        path.absolute && path.parts.len() == 0 ==> depth_of(path) == 1,
{
}

/// A text that starts at the root names a path whatever it is seen from; any other text names what lies behind
/// the directory that it is seen from.
pub proof fn texts_name_paths_seen_from_a_directory(dir: PathView, relative: Seq<char>)
    ensures
        relative.len() > 0 && relative[0] == '/' ==> join_of(dir, relative) == path_of(relative)
            && path_of(relative).absolute,
        relative.len() == 0 || relative[0] != '/' ==> !path_of(relative).absolute && (!empty_path(
            dir,
        ) ==> lies_under(join_of(dir, relative), dir) && join_of(dir, relative).absolute
            == dir.absolute),
{
    if (relative.len() == 0 || relative[0] != '/') && !empty_path(dir) {
        let joined = join_of(dir, relative);
        assert(joined.parts.take(dir.parts.len() as int) =~= dir.parts);
    }
}

/// Which of two texts comes first is decided where they first differ, and a text comes before those that go on
/// behind it.
pub proof fn the_first_difference_decides(
    start: Seq<char>,
    a: char,
    b: char,
    x: Seq<char>,
    y: Seq<char>,
)
    ensures
        a < b ==> text_order(start + seq![a] + x, start + seq![b] + y) == Order::Before,
        b < a ==> text_order(start + seq![a] + x, start + seq![b] + y) == Order::After,
        text_order(start, start + seq![b] + y) == Order::Before,
        text_order(start, start) == Order::Same,
    decreases start.len(),
{
    let left = start + seq![a] + x;
    let right = start + seq![b] + y;
    if start.len() > 0 {
        let rest = start.drop_first();
        the_first_difference_decides(rest, a, b, x, y);
        assert(left.drop_first() =~= rest + seq![a] + x);
        assert(right.drop_first() =~= rest + seq![b] + y);
        assert(left[0] == start[0] && right[0] == start[0]);
    } else {
        assert(left[0] == a && right[0] == b);
    }
}

proof fn a_row_comes_before_longer_ones(a: Seq<Seq<char>>, name: Seq<char>)
    ensures
        parts_order(a, a.push(name)) == Order::Before,
    decreases a.len(),
{
    if a.len() > 0 {
        let rest = a.drop_first();
        a_row_comes_before_longer_ones(rest, name);
        assert(a.push(name).drop_first() =~= rest.push(name));
        crate::text::text_order_same(a[0], a[0]);
    }
}

proof fn the_last_component_decides(dir: Seq<Seq<char>>, a: Seq<char>, b: Seq<char>)
    ensures
        parts_order(dir.push(a), dir.push(b)) == part_order(a, b),
    decreases dir.len(),
{
    let left = dir.push(a);
    let right = dir.push(b);
    if dir.len() > 0 {
        let rest = dir.drop_first();
        the_last_component_decides(rest, a, b);
        assert(left.drop_first() =~= rest.push(a));
        assert(right.drop_first() =~= rest.push(b));
        crate::text::text_order_same(dir[0], dir[0]);
    } else {
        assert(left.drop_first() =~= Seq::<Seq<char>>::empty());
        assert(right.drop_first() =~= Seq::<Seq<char>>::empty());
        assert(parts_order(left.drop_first(), right.drop_first()) == Order::Same);
    }
}

/// A directory comes before what is in it, and what is in one directory comes in the order of the names.
pub proof fn directories_come_before_what_is_in_them(dir: PathView, a: Seq<char>, b: Seq<char>)
    requires
        a != here(),
        a != up(),
        b != here(),
        b != up(),
    ensures
        path_order(dir, child_of(dir, a)) == Order::Before,
        path_order(child_of(dir, a), child_of(dir, b)) == text_order(a, b),
{
    a_row_comes_before_longer_ones(dir.parts, a);
    the_last_component_decides(dir.parts, a, b);
}

/// The name of a path is its last component, unless that stands for a directory or its parent; the root and the
/// empty path have none.
pub proof fn the_last_component_is_the_name(path: PathView, name: Seq<char>)
    ensures
        path.parts.len() == 0 ==> name_of(path) is None,
        path.parts.len() > 0 && (path.parts.last() == here() || path.parts.last() == up())
            ==> name_of(path) is None,
        name_of(path) == Some(name) <==> path.parts.len() > 0 && path.parts.last() == name && name
            != here() && name != up(),
{
}

} // verus!
