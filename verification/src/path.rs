//! File system paths.
//!
//! A path is its components and its spelling. Paths are compared by their components: redundant
//! separators and `.` components do not count, `..` components do. What is shown, passed on or opened
//! is the path as it was spelled.
//!
//! Paths are those of Unix: components are separated by `/` alone, a path is absolute where it starts
//! with `/`, and there are no prefixes such as a drive. Paths of Windows are not taken apart as the
//! system there takes them apart.

use vstd::prelude::*;
use vstd::string::*;
use crate::table::{Ident, Key};
use crate::text::{
    chars_of, concat2, order_texts, same_text, slice_text, split, split_is_never_empty, split_on,
    text_order, text_order_chains, text_order_same, text_order_turns, texts, Order,
};

verus! {

/// A path in UTF-8.
#[derive(Debug)]
pub struct FsPath {
    absolute: bool,
    parts: Vec<String>,
    text: String,
}

/// What a path is: whether it starts at the root, its further components, and how it is spelled.
#[verifier::ext_equal]
pub struct PathView {
    pub absolute: bool,
    pub parts: Seq<Seq<char>>,
    pub text: Seq<char>,
}

impl View for FsPath {
    type V = PathView;

    closed spec fn view(&self) -> PathView {
        PathView { absolute: self.absolute, parts: texts(self.parts@), text: self.text@ }
    }
}

/// Paths with the same components are the same path, however they are spelled.
impl Ident for PathView {
    open spec fn ident(self) -> PathView {
        plain(self)
    }
}

/// The component that stands for the same directory.
pub open spec fn here() -> Seq<char> {
    seq!['.']
}

/// The component that stands for the parent directory.
pub open spec fn up() -> Seq<char> {
    seq!['.', '.']
}

/// Whether a text can be a component that is kept.
pub open spec fn names_something(part: Seq<char>) -> bool {
    part.len() > 0 && part != here()
}

/// The components among the pieces of a path's text.
pub open spec fn named_parts(pieces: Seq<Seq<char>>) -> Seq<Seq<char>> {
    pieces.filter(|p: Seq<char>| names_something(p))
}

/// The path that a text stands for.
pub open spec fn path_of(text: Seq<char>) -> PathView {
    let pieces = split_on(text, '/');
    if text.len() > 0 && text[0] == '/' {
        PathView { absolute: true, parts: named_parts(pieces), text }
    } else if pieces[0] == here() {
        PathView { absolute: false, parts: seq![here()] + named_parts(pieces.drop_first()), text }
    } else {
        PathView { absolute: false, parts: named_parts(pieces), text }
    }
}

/// Components with separators between them.
pub open spec fn joined_parts(parts: Seq<Seq<char>>) -> Seq<char>
    decreases parts.len(),
{
    if parts.len() == 0 {
        Seq::empty()
    } else if parts.len() == 1 {
        parts[0]
    } else {
        joined_parts(parts.drop_last()).push('/') + parts.last()
    }
}

/// The path in its plainest spelling: its components, with one separator between each two.
pub open spec fn plain(path: PathView) -> PathView {
    PathView {
        text: if path.absolute {
            seq!['/'] + joined_parts(path.parts)
        } else {
            joined_parts(path.parts)
        },
        ..path
    }
}

/// The text of a path, as it was given.
pub open spec fn path_text(path: PathView) -> Seq<char> {
    path.text
}

/// How much of a path's text stands ahead of its names: the root, or the dot that it begins with.
pub open spec fn names_start(path: PathView) -> int {
    if path.absolute || (path.parts.len() > 0 && path.parts[0] == here()) {
        1
    } else {
        0
    }
}

/// The position of the last separator in a text that does not stand ahead of `base`.
pub open spec fn last_separator(text: Seq<char>, base: int) -> Option<int>
    decreases text.len(),
{
    if text.len() <= base || text.len() == 0 {
        None
    } else if text.last() == '/' {
        Some(text.len() - 1)
    } else {
        last_separator(text.drop_last(), base)
    }
}

/// What follows the last separator.
pub open spec fn last_piece(text: Seq<char>, base: int) -> Seq<char> {
    match last_separator(text, base) {
        Some(at) => text.skip(at + 1),
        None => text.skip(base),
    }
}

/// What stands ahead of the last separator.
pub open spec fn before_last_piece(text: Seq<char>, base: int) -> Seq<char> {
    match last_separator(text, base) {
        Some(at) => text.take(at),
        None => text.take(base),
    }
}

/// The text up to the end of its last name.
pub open spec fn up_to_name(text: Seq<char>, base: int) -> Seq<char>
    decreases text.len(),
    when 0 <= base
    via shorter_before_last_piece
{
    if text.len() > base && !names_something(last_piece(text, base)) {
        up_to_name(before_last_piece(text, base), base)
    } else {
        text
    }
}

#[via_fn]
proof fn shorter_before_last_piece(text: Seq<char>, base: int) {
    last_separator_is_inside(text, base);
}

proof fn last_separator_is_inside(text: Seq<char>, base: int)
    requires
        0 <= base,
    ensures
        last_separator(text, base) matches Some(at) ==> base <= at < text.len(),
    decreases text.len(),
{
    if text.len() > base && text.len() > 0 && text.last() != '/' {
        last_separator_is_inside(text.drop_last(), base);
    }
}

/// The text of a path without its last component.
pub open spec fn parent_text(path: PathView) -> Seq<char> {
    let base = names_start(path);
    let named = up_to_name(path.text, base);
    if named.len() > base {
        up_to_name(before_last_piece(named, base), base)
    } else {
        Seq::empty()
    }
}

/// The path without its last component.
pub open spec fn parent_of(path: PathView) -> Option<PathView> {
    if path.parts.len() == 0 {
        None
    } else {
        Some(
            PathView {
                absolute: path.absolute,
                parts: path.parts.drop_last(),
                text: parent_text(path),
            },
        )
    }
}

/// The ancestor of a path that is `up` levels above it.
pub open spec fn ancestor_of(path: PathView, up: int) -> PathView
    decreases up,
{
    if up <= 0 {
        path
    } else {
        match parent_of(path) {
            Some(parent) => ancestor_of(parent, up - 1),
            None => path,
        }
    }
}

/// A path, its parent, and so on up to the root or the empty path.
pub open spec fn ancestors_of(path: PathView) -> Seq<PathView> {
    Seq::new(path.parts.len() + 1, |up: int| ancestor_of(path, up))
}

/// The components of an ancestor are those that the path begins with.
pub proof fn ancestor_begins_the_path(path: PathView, up: int)
    requires
        0 <= up <= path.parts.len(),
    ensures
        ancestor_of(path, up).absolute == path.absolute,
        ancestor_of(path, up).parts == path.parts.take(path.parts.len() - up),
        up < path.parts.len() ==> parent_of(ancestor_of(path, up)) == Some(
            ancestor_of(path, up + 1),
        ),
    decreases up,
{
    if up > 0 {
        let parent = parent_of(path)->0;
        ancestor_begins_the_path(parent, up - 1);
        assert(parent.parts.take(parent.parts.len() - (up - 1)) =~= path.parts.take(
            path.parts.len() - up,
        ));
    } else {
        assert(path.parts.take(path.parts.len() as int) =~= path.parts);
        if path.parts.len() > 0 {
            assert(ancestor_of(path, 1) == ancestor_of(parent_of(path)->0, 0));
        }
    }
}

/// A text with another appended as the next component. One that starts at the root takes its place.
pub open spec fn appended(text: Seq<char>, relative: Seq<char>) -> Seq<char> {
    if relative.len() > 0 && relative[0] == '/' {
        relative
    } else if text.len() > 0 && text.last() != '/' {
        text.push('/') + relative
    } else {
        text + relative
    }
}

/// The path of something in the directory `path`.
pub open spec fn child_of(path: PathView, name: Seq<char>) -> PathView {
    PathView {
        absolute: path.absolute,
        parts: path.parts.push(name),
        text: appended(path.text, name),
    }
}

/// Whether a path is the empty relative path.
pub open spec fn empty_path(path: PathView) -> bool {
    !path.absolute && path.parts.len() == 0
}

/// The path of what the text `relative` names, seen from the directory `path`.
pub open spec fn join_of(path: PathView, relative: Seq<char>) -> PathView {
    if (relative.len() > 0 && relative[0] == '/') || empty_path(path) {
        path_of(relative)
    } else {
        PathView {
            absolute: path.absolute,
            parts: path.parts + named_parts(split_on(relative, '/')),
            text: appended(path.text, relative),
        }
    }
}

/// Whether the components of a path begin with those of `base`.
pub open spec fn lies_under(path: PathView, base: PathView) -> bool {
    &&& base.absolute == path.absolute || empty_path(base)
    &&& base.parts.len() <= path.parts.len()
    &&& path.parts.take(base.parts.len() as int) == base.parts
}

/// The last component, where it is a name.
pub open spec fn name_of(path: PathView) -> Option<Seq<char>> {
    if path.parts.len() > 0 && path.parts.last() != up() && path.parts.last() != here() {
        Some(path.parts.last())
    } else {
        None
    }
}

/// The position of the last dot of a name.
pub open spec fn last_dot(name: Seq<char>) -> Option<int>
    decreases name.len(),
{
    if name.len() == 0 {
        None
    } else if name.last() == '.' {
        Some(name.len() - 1)
    } else {
        last_dot(name.drop_last())
    }
}

/// What follows the last dot of a path's name, unless the name begins with that dot.
pub open spec fn extension_of(path: PathView) -> Option<Seq<char>> {
    match name_of(path) {
        None => None,
        Some(name) => match last_dot(name) {
            Some(at) => if at == 0 {
                None
            } else {
                Some(name.skip(at + 1))
            },
            None => None,
        },
    }
}

/// The number of components, the root included.
pub open spec fn depth_of(path: PathView) -> nat {
    if path.absolute {
        path.parts.len() + 1
    } else {
        path.parts.len()
    }
}

/// The place of a component among the kinds of components.
pub open spec fn part_rank(part: Seq<char>) -> int {
    if part == here() {
        0
    } else if part == up() {
        1
    } else {
        2
    }
}

/// The order of two components: `.`, then `..`, then names by their text.
pub open spec fn part_order(a: Seq<char>, b: Seq<char>) -> Order {
    if part_rank(a) < part_rank(b) {
        Order::Before
    } else if part_rank(b) < part_rank(a) {
        Order::After
    } else {
        text_order(a, b)
    }
}

/// The order of two rows of components.
pub open spec fn parts_order(a: Seq<Seq<char>>, b: Seq<Seq<char>>) -> Order
    decreases a.len(),
{
    if a.len() == 0 && b.len() == 0 {
        Order::Same
    } else if a.len() == 0 {
        Order::Before
    } else if b.len() == 0 {
        Order::After
    } else {
        match part_order(a[0], b[0]) {
            Order::Same => parts_order(a.drop_first(), b.drop_first()),
            other => other,
        }
    }
}

/// The order of two paths, component by component; the root comes before every other component.
pub open spec fn path_order(a: PathView, b: PathView) -> Order {
    if a.absolute == b.absolute {
        parts_order(a.parts, b.parts)
    } else if a.absolute {
        if b.parts.len() == 0 {
            Order::After
        } else {
            Order::Before
        }
    } else {
        if a.parts.len() == 0 {
            Order::Before
        } else {
            Order::After
        }
    }
}

/// Whether the component is `.`.
fn is_here(part: &str) -> (r: bool)
    ensures
        r == (part@ == here()),
{
    let chars = chars_of(part);
    let r = chars.len() == 1 && chars[0] == '.';
    proof {
        if r {
            assert(part@ =~= here());
        }
    }
    r
}

/// Whether the component is `..`.
fn is_up(part: &str) -> (r: bool)
    ensures
        r == (part@ == up()),
{
    let chars = chars_of(part);
    let r = chars.len() == 2 && chars[0] == '.' && chars[1] == '.';
    proof {
        if r {
            assert(part@ =~= up());
        }
    }
    r
}

/// The components among the pieces from the position `from` on.
fn keep_named(pieces: &Vec<String>, from: usize) -> (r: Vec<String>)
    requires
        from <= pieces@.len(),
    ensures
        texts(r@) == named_parts(texts(pieces@).skip(from as int)),
{
    let ghost keep = |p: Seq<char>| names_something(p);
    let ghost all = texts(pieces@).skip(from as int);
    let mut out: Vec<String> = Vec::new();
    let mut i: usize = from;
    proof {
        reveal(Seq::filter);
        assert(all.take(0).filter(keep) =~= Seq::<Seq<char>>::empty());
        assert(texts(out@) =~= all.take(0).filter(keep));
    }
    while i < pieces.len()
        invariant
            from <= i <= pieces@.len(),
            all == texts(pieces@).skip(from as int),
            keep == (|p: Seq<char>| names_something(p)),
            texts(out@) == all.take(i - from).filter(keep),
        decreases pieces@.len() - i,
    {
        let piece = &pieces[i];
        proof {
            assert(all[i - from] == piece@);
            assert(all.take(i - from + 1).drop_last() =~= all.take(i - from));
            reveal(Seq::filter);
        }
        let ghost before = texts(out@);
        if !piece.as_str().is_empty() && !is_here(piece.as_str()) {
            out.push(piece.clone());
            proof {
                assert(texts(out@) =~= before.push(piece@));
                assert(all.take(i - from + 1).filter(keep) == all.take(i - from).filter(keep).push(piece@));
            }
        }
        i += 1;
    }
    proof {
        assert(all.take(i - from) =~= all);
    }
    out
}

/// Where the last of the first `end` characters' pieces starts.
fn last_piece_start(chars: &Vec<char>, end: usize, base: usize) -> (r: usize)
    requires
        base <= end <= chars@.len(),
    ensures
        base <= r <= end,
        r == (match last_separator(chars@.take(end as int), base as int) {
            Some(at) => at + 1,
            None => base as int,
        }),
{
    let mut i: usize = end;
    while i > base
        invariant
            base <= i <= end <= chars@.len(),
            last_separator(chars@.take(end as int), base as int) == last_separator(
                chars@.take(i as int),
                base as int,
            ),
        decreases i,
    {
        proof {
            assert(chars@.take(i as int).drop_last() =~= chars@.take(i - 1));
            assert(chars@.take(i as int).last() == chars@[i - 1]);
        }
        if chars[i - 1] == '/' {
            return i;
        }
        i -= 1;
    }
    i
}

/// The pieces of a text's beginning are pieces of the text.
proof fn before_piece_is_a_prefix(chars: Seq<char>, end: int, base: int)
    requires
        0 <= base <= end <= chars.len(),
    ensures
        ({
            let text = chars.take(end);
            match last_separator(text, base) {
                Some(at) => base <= at < end && before_last_piece(text, base) == chars.take(at)
                    && last_piece(text, base) == chars.subrange(at + 1, end),
                None => before_last_piece(text, base) == chars.take(base) && last_piece(text, base)
                    == chars.subrange(base, end),
            }
        }),
{
    let text = chars.take(end);
    last_separator_is_inside(text, base);
    match last_separator(text, base) {
        Some(at) => {
            assert(text.take(at) =~= chars.take(at));
            assert(text.skip(at + 1) =~= chars.subrange(at + 1, end));
        },
        None => {
            assert(text.take(base) =~= chars.take(base));
            assert(text.skip(base) =~= chars.subrange(base, end));
        },
    }
}

/// Where the last name among the first `size` characters ends.
fn name_end(chars: &Vec<char>, size: usize, base: usize) -> (r: usize)
    requires
        size <= chars@.len(),
    ensures
        r <= size,
        chars@.take(r as int) == up_to_name(chars@.take(size as int), base as int),
{
    let mut end: usize = size;
    while end > base
        invariant
            end <= size <= chars@.len(),
            up_to_name(chars@.take(end as int), base as int) == up_to_name(
                chars@.take(size as int),
                base as int,
            ),
        decreases end,
    {
        let start = last_piece_start(chars, end, base);
        let piece = slice_text(chars, start, end);
        proof {
            before_piece_is_a_prefix(chars@, end as int, base as int);
        }
        if start < end && !is_here(piece.as_str()) {
            return end;
        }
        end = if start > base {
            start - 1
        } else {
            base
        };
    }
    end
}

/// A text with another appended as the next component.
fn append_piece(text: &str, relative: &str) -> (r: String)
    ensures
        r@ == appended(text@, relative@),
{
    let chars = chars_of(text);
    let more = chars_of(relative);
    let size: usize = chars.len();
    if more.len() > 0 && more[0] == '/' {
        relative.to_owned()
    } else if size > 0 && chars[size - 1] != '/' {
        let start = concat2(text, "/");
        proof {
            reveal_strlit("/");
            assert(start@ =~= text@.push('/'));
        }
        concat2(start.as_str(), relative)
    } else {
        concat2(text, relative)
    }
}

/// The order of two components.
fn order_parts(a: &str, b: &str) -> (r: Order)
    ensures
        r == part_order(a@, b@),
{
    let left: u8 = if is_here(a) {
        0
    } else if is_up(a) {
        1
    } else {
        2
    };
    let right: u8 = if is_here(b) {
        0
    } else if is_up(b) {
        1
    } else {
        2
    };
    if left < right {
        Order::Before
    } else if right < left {
        Order::After
    } else {
        order_texts(a, b)
    }
}

impl FsPath {
    /// The path that a text stands for.
    pub fn parse(text: &str) -> (r: FsPath)
        ensures
            r@ == path_of(text@),
    {
        let pieces = split(text, '/');
        let chars = chars_of(text);
        proof {
            split_is_never_empty(text@, '/');
            assert(texts(pieces@).len() == pieces@.len());
            assert(texts(pieces@)[0] == pieces@[0]@);
            assert(texts(pieces@).skip(0) =~= texts(pieces@));
            assert(texts(pieces@).skip(1) =~= texts(pieces@).drop_first());
        }
        if chars.len() > 0 && chars[0] == '/' {
            FsPath { absolute: true, parts: keep_named(&pieces, 0), text: text.to_owned() }
        } else if is_here(pieces[0].as_str()) {
            let mut parts: Vec<String> = Vec::new();
            parts.push(pieces[0].clone());
            let mut rest = keep_named(&pieces, 1);
            let ghost tail = texts(rest@);
            parts.append(&mut rest);
            proof {
                assert(texts(parts@) =~= seq![here()] + tail);
            }
            FsPath { absolute: false, parts, text: text.to_owned() }
        } else {
            FsPath { absolute: false, parts: keep_named(&pieces, 0), text: text.to_owned() }
        }
    }

    /// The text of the path, as it was given.
    pub fn to_text(&self) -> (r: String)
        ensures
            r@ == path_text(self@),
    {
        self.text.clone()
    }

    /// Whether the other is the same path, spelled in the same way.
    pub fn is_spelled_as(&self, other: &FsPath) -> (r: bool)
        ensures
            r == (self@ == other@),
    {
        let r = same_text(self.text.as_str(), other.text.as_str()) && self.same(other);
        proof {
            if r {
                assert(plain(self@) == plain(other@));
                assert(self@ =~= other@);
            }
        }
        r
    }

    /// The path in its plainest spelling.
    pub fn normal(&self) -> (r: FsPath)
        ensures
            r@ == plain(self@),
    {
        let mut out = String::new();
        if self.absolute {
            out.push('/');
        }
        let ghost start = out@;
        let mut i: usize = 0;
        proof {
            assert(out@ =~= start + joined_parts(self@.parts.take(0)));
        }
        while i < self.parts.len()
            invariant
                i <= self.parts@.len(),
                out@ == start + joined_parts(self@.parts.take(i as int)),
            decreases self.parts@.len() - i,
        {
            let ghost before = out@;
            proof {
                assert(self@.parts.take(i + 1).drop_last() =~= self@.parts.take(i as int));
                assert(self@.parts.take(i + 1).last() == self.parts@[i as int]@);
            }
            if i > 0 {
                out.push('/');
            }
            out.append(self.parts[i].as_str());
            proof {
                if i == 0 {
                    assert(joined_parts(self@.parts.take(0)) =~= Seq::<char>::empty());
                    assert(joined_parts(self@.parts.take(1)) == self@.parts.take(1)[0]);
                    assert(out@ =~= start + joined_parts(self@.parts.take(1)));
                } else {
                    assert(out@ =~= start + joined_parts(self@.parts.take(i + 1)));
                }
            }
            i += 1;
        }
        proof {
            assert(self@.parts.take(i as int) =~= self@.parts);
            assert(self@.absolute ==> start =~= seq!['/']);
            assert(!self@.absolute ==> start + joined_parts(self@.parts) =~= joined_parts(self@.parts));
        }
        let mut r = self.clone();
        r.text = out;
        r
    }

    /// The first `count` components.
    fn first_parts(&self, count: usize) -> (r: Vec<String>)
        requires
            count <= self@.parts.len(),
        ensures
            texts(r@) == self@.parts.take(count as int),
    {
        let mut parts: Vec<String> = Vec::new();
        let mut i: usize = 0;
        while i < count
            invariant
                i <= count <= self.parts@.len(),
                texts(parts@) == texts(self.parts@).take(i as int),
            decreases count - i,
        {
            let ghost before = texts(parts@);
            parts.push(self.parts[i].clone());
            proof {
                assert(texts(parts@) =~= before.push(self.parts@[i as int]@));
                let done = texts(self.parts@).take(i as int);
                assert(texts(self.parts@).take(i + 1) =~= done.push(self.parts@[i as int]@));
            }
            i += 1;
        }
        parts
    }

    /// The text of the path without its last component.
    fn parent_spelling(&self) -> (r: String)
        ensures
            r@ == parent_text(self@),
    {
        let dotted = self.parts.len() > 0 && is_here(self.parts[0].as_str());
        proof {
            if self.parts@.len() > 0 {
                assert(self@.parts[0] == self.parts@[0]@);
            }
        }
        let base: usize = if self.absolute || dotted {
            1
        } else {
            0
        };
        let chars = chars_of(self.text.as_str());
        let size: usize = chars.len();
        proof {
            assert(chars@.take(size as int) =~= self@.text);
        }
        let end = name_end(&chars, size, base);
        if end <= base {
            let r = String::new();
            proof {
                assert(r@ =~= Seq::<char>::empty());
            }
            return r;
        }
        let start = last_piece_start(&chars, end, base);
        let cut: usize = if start > base {
            start - 1
        } else {
            base
        };
        proof {
            before_piece_is_a_prefix(chars@, end as int, base as int);
        }
        let last = name_end(&chars, cut, base);
        let r = slice_text(&chars, 0, last);
        proof {
            assert(r@ =~= chars@.take(last as int));
        }
        r
    }

    /// The path without its last component.
    pub fn parent(&self) -> (r: Option<FsPath>)
        ensures
            match r {
                Some(p) => parent_of(self@) == Some(p@),
                None => parent_of(self@) is None,
            },
    {
        let count: usize = self.parts.len();
        if count == 0 {
            None
        } else {
            let p = FsPath {
                absolute: self.absolute,
                parts: self.first_parts(count - 1),
                text: self.parent_spelling(),
            };
            proof {
                assert(p@.parts =~= self@.parts.drop_last());
            }
            Some(p)
        }
    }

    /// The path, its parent, and so on up to the root or the empty path.
    pub fn ancestors(&self) -> (r: Vec<FsPath>)
        ensures
            r@.map_values(|p: FsPath| p@) == ancestors_of(self@),
    {
        let mut out: Vec<FsPath> = Vec::new();
        out.push(self.clone());
        let mut up: usize = 0;
        while up < self.parts.len()
            invariant
                up <= self@.parts.len(),
                out@.len() == up + 1,
                forall|j: int| 0 <= j <= up ==> (#[trigger] out@[j])@ == ancestor_of(self@, j),
            decreases self@.parts.len() - up,
        {
            proof {
                ancestor_begins_the_path(self@, up as int);
            }
            let parent = out[up].parent();
            if let Some(path) = parent {
                out.push(path);
            }
            up += 1;
        }
        proof {
            assert(out@.map_values(|p: FsPath| p@) =~= ancestors_of(self@));
        }
        out
    }

    /// The path of something in this directory.
    pub fn child(&self, name: &str) -> (r: FsPath)
        ensures
            r@ == child_of(self@, name@),
    {
        let mut parts = self.first_parts(self.parts.len());
        proof {
            assert(self@.parts.take(self@.parts.len() as int) =~= self@.parts);
        }
        let ghost before = texts(parts@);
        parts.push(name.to_owned());
        proof {
            assert(texts(parts@) =~= before.push(name@));
        }
        FsPath { absolute: self.absolute, parts, text: append_piece(self.text.as_str(), name) }
    }

    /// The path of what the text `relative` names, seen from this directory.
    pub fn join(&self, relative: &str) -> (r: FsPath)
        ensures
            r@ == join_of(self@, relative@),
    {
        let chars = chars_of(relative);
        if (chars.len() > 0 && chars[0] == '/') || (!self.absolute && self.parts.len() == 0) {
            return FsPath::parse(relative);
        }
        let pieces = split(relative, '/');
        let mut more = keep_named(&pieces, 0);
        let ghost tail = texts(more@);
        proof {
            assert(texts(pieces@).skip(0) =~= texts(pieces@));
            assert(self@.parts.take(self@.parts.len() as int) =~= self@.parts);
        }
        let mut parts = self.first_parts(self.parts.len());
        let ghost before = texts(parts@);
        parts.append(&mut more);
        proof {
            assert(texts(parts@) =~= before + tail);
        }
        FsPath { absolute: self.absolute, parts, text: append_piece(self.text.as_str(), relative) }
    }

    /// Whether the components of the path begin with those of `base`.
    pub fn starts_with(&self, base: &FsPath) -> (r: bool)
        ensures
            r == lies_under(self@, base@),
    {
        if base.absolute != self.absolute && (base.absolute || base.parts.len() > 0) {
            return false;
        }
        if base.parts.len() > self.parts.len() {
            return false;
        }
        let mut i: usize = 0;
        while i < base.parts.len()
            invariant
                i <= base.parts@.len() <= self.parts@.len(),
                forall|j: int| 0 <= j < i ==> self@.parts[j] == #[trigger] base@.parts[j],
            decreases base.parts@.len() - i,
        {
            if !same_text(self.parts[i].as_str(), base.parts[i].as_str()) {
                proof {
                    assert(self@.parts.take(base@.parts.len() as int)[i as int] != base@.parts[i as int]);
                }
                return false;
            }
            proof {
                assert(self@.parts[i as int] == base@.parts[i as int]);
            }
            i += 1;
        }
        proof {
            assert(self@.parts.take(base@.parts.len() as int) =~= base@.parts);
        }
        true
    }

    /// The last component, where it is a name.
    pub fn file_name(&self) -> (r: Option<String>)
        ensures
            match r {
                Some(name) => name_of(self@) == Some(name@),
                None => name_of(self@) is None,
            },
    {
        let count: usize = self.parts.len();
        if count == 0 {
            return None;
        }
        let last = &self.parts[count - 1];
        proof {
            assert(self@.parts.last() == last@);
        }
        if is_up(last.as_str()) || is_here(last.as_str()) {
            None
        } else {
            Some(last.clone())
        }
    }

    /// What follows the last dot of the path's name, unless the name begins with that dot.
    pub fn extension(&self) -> (r: Option<String>)
        ensures
            match r {
                Some(e) => extension_of(self@) == Some(e@),
                None => extension_of(self@) is None,
            },
    {
        let name = match self.file_name() {
            Some(name) => name,
            None => return None,
        };
        let chars = chars_of(name.as_str());
        let size: usize = chars.len();
        let mut i: usize = size;
        proof {
            assert(chars@.take(size as int) =~= name@);
        }
        while i > 0
            invariant
                i <= size == chars@.len(),
                chars@ == name@,
                name_of(self@) == Some(name@),
                last_dot(chars@.take(i as int)) == last_dot(name@),
            decreases i,
        {
            proof {
                assert(chars@.take(i as int).drop_last() =~= chars@.take(i - 1));
                assert(chars@.take(i as int).last() == chars@[i - 1]);
            }
            if chars[i - 1] == '.' {
                if i == 1 {
                    return None;
                }
                let r = slice_text(&chars, i, size);
                proof {
                    assert(r@ =~= name@.skip(i as int));
                }
                return Some(r);
            }
            i -= 1;
        }
        None
    }

    /// Whether the path has at least as many components as the other.
    pub fn is_as_deep_as(&self, other: &FsPath) -> (r: bool)
        ensures
            r == (depth_of(self@) >= depth_of(other@)),
    {
        let mine: u128 = self.parts.len() as u128 + (if self.absolute {
            1u128
        } else {
            0u128
        });
        let theirs: u128 = other.parts.len() as u128 + (if other.absolute {
            1u128
        } else {
            0u128
        });
        mine >= theirs
    }

    /// The order of two paths.
    pub fn order(&self, other: &FsPath) -> (r: Order)
        ensures
            r == path_order(self@, other@),
    {
        if self.absolute != other.absolute {
            return if self.absolute {
                if other.parts.len() == 0 {
                    Order::After
                } else {
                    Order::Before
                }
            } else {
                if self.parts.len() == 0 {
                    Order::Before
                } else {
                    Order::After
                }
            };
        }
        let ghost a = self@.parts;
        let ghost b = other@.parts;
        let mut i: usize = 0;
        proof {
            assert(a.skip(0) =~= a);
            assert(b.skip(0) =~= b);
        }
        while i < self.parts.len() && i < other.parts.len()
            invariant
                self@.absolute == other@.absolute,
                a == self@.parts,
                b == other@.parts,
                i <= self.parts@.len(),
                i <= other.parts@.len(),
                parts_order(a.skip(i as int), b.skip(i as int)) == parts_order(a, b),
            decreases self.parts@.len() - i,
        {
            proof {
                assert(a.skip(i as int)[0] == self.parts@[i as int]@);
                assert(b.skip(i as int)[0] == other.parts@[i as int]@);
                assert(a.skip(i as int).drop_first() =~= a.skip(i + 1));
                assert(b.skip(i as int).drop_first() =~= b.skip(i + 1));
            }
            match order_parts(self.parts[i].as_str(), other.parts[i].as_str()) {
                Order::Before => {
                    return Order::Before;
                },
                Order::After => {
                    return Order::After;
                },
                Order::Same => {},
            }
            i += 1;
        }
        if i < self.parts.len() {
            Order::After
        } else if i < other.parts.len() {
            Order::Before
        } else {
            Order::Same
        }
    }
}

impl Clone for FsPath {
    fn clone(&self) -> (r: FsPath)
        ensures
            r@ == self@,
    {
        let parts = self.first_parts(self.parts.len());
        proof {
            assert(self@.parts.take(self@.parts.len() as int) =~= self@.parts);
        }
        FsPath { absolute: self.absolute, parts, text: self.text.clone() }
    }
}

/// Two paths are equal where they are the same path, however they are spelled.
impl PartialEq for FsPath {
    fn eq(&self, other: &FsPath) -> (r: bool) {
        self.same(other)
    }
}

impl vstd::std_specs::cmp::PartialEqSpecImpl for FsPath {
    open spec fn obeys_eq_spec() -> bool {
        true
    }

    open spec fn eq_spec(&self, other: &FsPath) -> bool {
        self@.ident() == other@.ident()
    }
}

impl Eq for FsPath {

}

impl Key for FsPath {
    fn same(&self, other: &FsPath) -> (r: bool) {
        proof {
            assert(self@.parts.len() == self.parts@.len());
            assert(other@.parts.len() == other.parts@.len());
        }
        if self.absolute != other.absolute || self.parts.len() != other.parts.len() {
            return false;
        }
        let r = self.starts_with(other);
        proof {
            assert(self@.parts.take(other@.parts.len() as int) =~= self@.parts);
            if r {
                assert(plain(self@) =~= plain(other@));
            }
        }
        r
    }

    fn again(&self) -> (r: FsPath) {
        self.clone()
    }
}

/// Two components stand at the same place in the order just when they are the same.
proof fn part_order_same(a: Seq<char>, b: Seq<char>)
    ensures
        (part_order(a, b) == Order::Same) == (a == b),
        (part_order(a, b) == Order::Before) == (part_order(b, a) == Order::After),
        (part_order(a, b) == Order::After) == (part_order(b, a) == Order::Before),
{
    text_order_same(a, b);
    text_order_turns(a, b);
}

/// The order of rows of components tells different rows apart, and turns round.
proof fn parts_order_same(a: Seq<Seq<char>>, b: Seq<Seq<char>>)
    ensures
        (parts_order(a, b) == Order::Same) == (a == b),
        (parts_order(a, b) == Order::Before) == (parts_order(b, a) == Order::After),
        (parts_order(a, b) == Order::After) == (parts_order(b, a) == Order::Before),
    decreases a.len(),
{
    if a.len() > 0 && b.len() > 0 {
        part_order_same(a[0], b[0]);
        parts_order_same(a.drop_first(), b.drop_first());
        if a[0] == b[0] && a.drop_first() == b.drop_first() {
            assert(a =~= seq![a[0]] + a.drop_first());
            assert(b =~= seq![b[0]] + b.drop_first());
        }
    } else if a.len() == 0 && b.len() == 0 {
        assert(a =~= b);
    }
}

/// The order of rows of components is transitive.
proof fn parts_order_chains(a: Seq<Seq<char>>, b: Seq<Seq<char>>, c: Seq<Seq<char>>)
    requires
        parts_order(a, b) != Order::After,
        parts_order(b, c) != Order::After,
    ensures
        parts_order(a, c) != Order::After,
        parts_order(a, b) == Order::Before || parts_order(b, c) == Order::Before ==> parts_order(a, c)
            == Order::Before,
    decreases a.len(),
{
    if a.len() > 0 && b.len() > 0 && c.len() > 0 {
        part_order_same(a[0], b[0]);
        part_order_same(b[0], c[0]);
        part_order_same(a[0], c[0]);
        if part_rank(a[0]) == part_rank(b[0]) && part_rank(b[0]) == part_rank(c[0]) {
            text_order_chains(a[0], b[0], c[0]);
        }
        if a[0] == b[0] && b[0] == c[0] {
            parts_order_chains(a.drop_first(), b.drop_first(), c.drop_first());
        }
    }
}

/// Paths are ordered totally: two paths stand at the same place just when they are the same path,
/// and of two others one comes first, whichever is asked about.
pub proof fn path_order_is_total(a: PathView, b: PathView)
    ensures
        (path_order(a, b) == Order::Same) == (a.ident() == b.ident()),
        (path_order(a, b) == Order::Before) == (path_order(b, a) == Order::After),
{
    parts_order_same(a.parts, b.parts);
    if path_order(a, b) == Order::Same {
        assert(plain(a) =~= plain(b));
    }
}

/// The order of paths is transitive.
pub proof fn path_order_chains(a: PathView, b: PathView, c: PathView)
    requires
        path_order(a, b) != Order::After,
        path_order(b, c) != Order::After,
    ensures
        path_order(a, c) != Order::After,
{
    if a.absolute == b.absolute && b.absolute == c.absolute {
        parts_order_chains(a.parts, b.parts, c.parts);
    }
}

} // verus!
