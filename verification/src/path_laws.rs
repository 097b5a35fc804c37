//! What holds of the spelling of paths.

use vstd::prelude::*;
use crate::path::{
    ancestor_of, appended, before_last_piece, child_of, empty_path, here, join_of, joined_parts,
    last_piece, last_separator, named_parts, names_something, names_start, parent_of, parent_text,
    path_of, plain, up_to_name, PathView,
};
use crate::table::Ident;
use crate::text::{split_is_never_empty, split_on};

verus! {

/// Whether the components of a path are those of its text. It holds of each path that was parsed, and
/// every function that makes a path of others keeps it.
pub open spec fn spelled(path: PathView) -> bool {
    path_of(path.text) == path
}

/// Whether a text has no separator.
pub open spec fn undivided(text: Seq<char>) -> bool {
    forall|i: int| 0 <= i < text.len() ==> #[trigger] text[i] != '/'
}

/// Two paths are the same path just when they have the same components.
pub proof fn paths_are_compared_by_their_components(a: PathView, b: PathView)
    ensures
        a.ident() == b.ident() <==> a.absolute == b.absolute && a.parts == b.parts,
{
    if a.absolute == b.absolute && a.parts == b.parts {
        assert(plain(a) =~= plain(b));
    } else {
        assert(plain(a).absolute == a.absolute && plain(a).parts == a.parts);
        assert(plain(b).absolute == b.absolute && plain(b).parts == b.parts);
    }
}

proof fn split_appended(a: Seq<char>, b: Seq<char>)
    ensures
        split_on(a.push('/') + b, '/') == split_on(a, '/') + split_on(b, '/'),
    decreases b.len(),
{
    let whole = a.push('/') + b;
    let left = split_on(a, '/');
    if b.len() == 0 {
        assert(whole =~= a.push('/'));
        assert(whole.drop_last() =~= a);
        assert(left.push(Seq::<char>::empty()) =~= left + split_on(b, '/'));
    } else {
        split_appended(a, b.drop_last());
        assert(whole.drop_last() =~= a.push('/') + b.drop_last());
        let right = split_on(b.drop_last(), '/');
        split_is_never_empty(b.drop_last(), '/');
        let before = left + right;
        assert(before.last() == right.last());
        assert(before.push(Seq::<char>::empty()) =~= left + right.push(Seq::<char>::empty()));
        assert(before.update(before.len() - 1, right.last().push(b.last())) =~= left + right.update(
            right.len() - 1,
            right.last().push(b.last()),
        ));
    }
}

proof fn split_undivided(text: Seq<char>)
    requires
        undivided(text),
    ensures
        split_on(text, '/') == seq![text],
    decreases text.len(),
{
    if text.len() > 0 {
        let rest = text.drop_last();
        assert forall|i: int| 0 <= i < rest.len() implies #[trigger] rest[i] != '/' by {
            assert(rest[i] == text[i]);
        }
        split_undivided(rest);
        assert(text[text.len() - 1] != '/');
        assert(rest.push(text.last()) =~= text);
        assert(seq![rest].update(0, text) =~= seq![text]);
    } else {
        assert(text =~= Seq::<char>::empty());
    }
}

proof fn first_piece_has_the_first_char(text: Seq<char>)
    requires
        text.len() > 0,
        text[0] != '/',
    ensures
        split_on(text, '/')[0].len() > 0,
        split_on(text, '/')[0][0] == text[0],
    decreases text.len(),
{
    let rest = text.drop_last();
    split_is_never_empty(rest, '/');
    if rest.len() > 0 {
        first_piece_has_the_first_char(rest);
    } else {
        assert(rest =~= Seq::<char>::empty());
        assert(split_on(text, '/')[0] =~= seq![text[0]]);
    }
}

proof fn pieces_are_undivided(text: Seq<char>)
    ensures
        forall|i: int| 0 <= i < split_on(text, '/').len() ==> undivided(
            #[trigger] split_on(text, '/')[i],
        ),
    decreases text.len(),
{
    if text.len() > 0 {
        pieces_are_undivided(text.drop_last());
        split_is_never_empty(text.drop_last(), '/');
        let before = split_on(text.drop_last(), '/');
        assert(undivided(before[before.len() - 1]));
    }
}

proof fn named_of_sum(a: Seq<Seq<char>>, b: Seq<Seq<char>>)
    ensures
        named_parts(a + b) == named_parts(a) + named_parts(b),
{
    Seq::filter_distributes_over_add(a, b, |p: Seq<char>| names_something(p));
}

proof fn named_of_one(piece: Seq<char>)
    ensures
        named_parts(seq![piece]) == (if names_something(piece) {
            seq![piece]
        } else {
            Seq::<Seq<char>>::empty()
        }),
{
    reveal_with_fuel(Seq::filter, 2);
    assert(seq![piece].drop_last() =~= Seq::<Seq<char>>::empty());
    assert(seq![piece].last() == piece);
    assert(Seq::<Seq<char>>::empty().push(piece) =~= seq![piece]);
}

proof fn named_parts_name(pieces: Seq<Seq<char>>)
    ensures
        forall|i: int| 0 <= i < named_parts(pieces).len() ==> names_something(
            #[trigger] named_parts(pieces)[i],
        ) && pieces.contains(named_parts(pieces)[i]),
{
    broadcast use vstd::seq_lib::group_filter_ensures;

    let kept = |p: Seq<char>| names_something(p);
    let out = pieces.filter(kept);
    assert forall|i: int| 0 <= i < out.len() implies names_something(#[trigger] out[i])
        && pieces.contains(out[i]) by {
        assert(kept(out[i]));
        assert(out.contains(out[i]));
        pieces.lemma_filter_contains_rev(kept, out[i]);
    }
}

/// The components of a text that has another behind it.
proof fn parts_appended(a: Seq<char>, b: Seq<char>)
    ensures
        ({
            let whole = path_of(a.push('/') + b);
            &&& a.len() > 0 ==> whole.absolute == path_of(a).absolute && whole.parts == path_of(
                a,
            ).parts + named_parts(split_on(b, '/'))
            &&& a.len() == 0 ==> whole.absolute && whole.parts == named_parts(split_on(b, '/'))
        }),
{
    let left = split_on(a, '/');
    let right = split_on(b, '/');
    split_appended(a, b);
    split_is_never_empty(a, '/');
    named_of_sum(left, right);
    named_of_sum(left.drop_first(), right);
    assert((left + right).drop_first() =~= left.drop_first() + right);
    assert((left + right)[0] == left[0]);
    let whole = a.push('/') + b;
    if a.len() > 0 {
        assert(whole[0] == a[0]);
        assert(seq![here()] + (named_parts(left.drop_first()) + named_parts(right)) =~= (seq![here()]
            + named_parts(left.drop_first())) + named_parts(right));
    } else {
        assert(whole[0] == '/');
        named_of_one(Seq::<char>::empty());
        assert(left =~= seq![Seq::<char>::empty()]);
        assert(Seq::<Seq<char>>::empty() + named_parts(right) =~= named_parts(right));
    }
}

proof fn nothing_is_spelled_by_nothing(path: PathView)
    requires
        spelled(path),
    ensures
        empty_path(path) <==> path.text.len() == 0,
{
    let pieces = split_on(path.text, '/');
    split_is_never_empty(path.text, '/');
    if path.text.len() == 0 {
        named_of_one(Seq::<char>::empty());
        assert(pieces =~= seq![Seq::<char>::empty()]);
    } else if path.text[0] != '/' {
        first_piece_has_the_first_char(path.text);
        if pieces[0] != here() {
            named_of_sum(seq![pieces[0]], pieces.drop_first());
            named_of_one(pieces[0]);
            assert(pieces =~= seq![pieces[0]] + pieces.drop_first());
        }
    }
}

/// The path of what a text names, seen from a directory, is spelled as the directory's text with the
/// text behind it.
pub proof fn joined_paths_are_spelled(path: PathView, relative: Seq<char>)
    requires
        spelled(path),
    ensures
        spelled(join_of(path, relative)),
        join_of(path, relative).text == appended(path.text, relative),
{
    let text = path.text;
    nothing_is_spelled_by_nothing(path);
    if text.len() == 0 {
        assert(text + relative =~= relative);
    } else if !(relative.len() > 0 && relative[0] == '/') {
        if text.last() != '/' {
            parts_appended(text, relative);
        } else {
            let start = text.drop_last();
            let nothing = Seq::<char>::empty();
            assert(start.push('/') =~= text);
            assert(start.push('/') + nothing =~= text);
            parts_appended(start, relative);
            parts_appended(start, nothing);
            named_of_one(nothing);
            assert(split_on(nothing, '/') =~= seq![nothing]);
            assert(path_of(start).parts + Seq::<Seq<char>>::empty() =~= path_of(start).parts);
        }
    }
}

/// The path of something in a directory is what its name names, seen from the directory.
pub proof fn children_are_spelled(path: PathView, name: Seq<char>)
    requires
        spelled(path),
        names_something(name),
        undivided(name),
    ensures
        child_of(path, name) == join_of(path, name),
        spelled(child_of(path, name)),
{
    joined_paths_are_spelled(path, name);
    nothing_is_spelled_by_nothing(path);
    split_undivided(name);
    named_of_one(name);
    assert(name[0] != '/');
    assert(path.parts.push(name) =~= path.parts + seq![name]);
    if path.text.len() == 0 {
        assert(path.parts + seq![name] =~= seq![name]);
        assert(path.text + name =~= name);
    }
}

/// How much of a text stands ahead of the names of its path.
spec fn text_base(text: Seq<char>) -> int {
    if text.len() > 0 && (text[0] == '/' || split_on(text, '/')[0] == here()) {
        1
    } else {
        0
    }
}

proof fn base_of_spelled(path: PathView)
    requires
        spelled(path),
    ensures
        names_start(path) == text_base(path.text),
{
    let pieces = split_on(path.text, '/');
    split_is_never_empty(path.text, '/');
    named_parts_name(pieces);
    if path.text.len() == 0 {
        named_of_one(Seq::<char>::empty());
        assert(pieces =~= seq![Seq::<char>::empty()]);
        assert(pieces[0].len() != here().len());
    } else if !path.absolute && pieces[0] == here() {
        assert(path.parts[0] == here());
    } else if path.parts.len() > 0 {
        assert(names_something(named_parts(pieces)[0]));
    }
}

proof fn separator_is_last(text: Seq<char>, base: int)
    requires
        0 <= base,
    ensures
        match last_separator(text, base) {
            Some(at) => base <= at < text.len() && text[at] == '/' && undivided(text.skip(at + 1)),
            None => base <= text.len() ==> undivided(text.skip(base)),
        },
    decreases text.len(),
{
    if text.len() > base && text.len() > 0 && text.last() != '/' {
        let rest = text.drop_last();
        separator_is_last(rest, base);
        let from = match last_separator(rest, base) {
            Some(at) => at + 1,
            None => base,
        };
        assert forall|i: int| 0 <= i < text.skip(from).len() implies #[trigger] text.skip(from)[i]
            != '/' by {
            if i < rest.skip(from).len() {
                assert(text.skip(from)[i] == rest.skip(from)[i]);
            }
        }
    }
}

/// What is left of a text without its last piece.
proof fn without_last_piece(text: Seq<char>, base: int)
    requires
        base == text_base(text),
        text.len() > base,
    ensures
        ({
            let rest = before_last_piece(text, base);
            &&& rest.len() >= base
            &&& rest.len() < text.len()
            &&& base == text_base(rest)
            &&& path_of(rest).absolute == path_of(text).absolute
            &&& path_of(text).parts == (if names_something(last_piece(text, base)) {
                path_of(rest).parts.push(last_piece(text, base))
            } else {
                path_of(rest).parts
            })
        }),
{
    let rest = before_last_piece(text, base);
    let last = last_piece(text, base);
    let nothing = Seq::<char>::empty();
    separator_is_last(text, base);
    split_undivided(last);
    named_of_one(last);
    match last_separator(text, base) {
        Some(at) => {
            assert(text =~= rest.push('/') + last);
            if at == 0 {
                assert(text[0] == '/');
                assert(false);
            }
            parts_appended(rest, last);
            split_appended(rest, last);
            split_is_never_empty(rest, '/');
            assert(rest[0] == text[0]);
            assert(path_of(rest).parts + nothing_named() =~= path_of(rest).parts);
            assert(path_of(rest).parts + seq![last] =~= path_of(rest).parts.push(last));
        },
        None => {
            if base == 0 {
                assert(last =~= text);
                assert(rest =~= nothing);
                assert(text != here());
                named_of_one(nothing);
                assert(split_on(nothing, '/') =~= seq![nothing]);
                assert(nothing_named().push(last) =~= seq![last]);
            } else if text[0] == '/' {
                assert(text =~= nothing.push('/') + last);
                assert(rest =~= seq!['/']);
                assert(rest =~= nothing.push('/') + nothing);
                parts_appended(nothing, last);
                parts_appended(nothing, nothing);
                named_of_one(nothing);
                assert(split_on(nothing, '/') =~= seq![nothing]);
                assert(nothing_named().push(last) =~= seq![last]);
            } else {
                assert forall|i: int| 0 <= i < text.len() implies #[trigger] text[i] != '/' by {
                    if i > 0 {
                        assert(last[i - 1] == text[i]);
                    }
                }
                split_undivided(text);
                assert(text == here());
                assert(false);
            }
        },
    }
}

spec fn nothing_named() -> Seq<Seq<char>> {
    Seq::empty()
}

proof fn trimming_keeps_the_path(text: Seq<char>, base: int)
    requires
        base == text_base(text),
        text.len() >= base,
    ensures
        ({
            let named = up_to_name(text, base);
            &&& named.len() >= base
            &&& base == text_base(named)
            &&& path_of(named).absolute == path_of(text).absolute
            &&& path_of(named).parts == path_of(text).parts
            &&& named.len() > base ==> names_something(last_piece(named, base))
        }),
    decreases text.len(),
{
    if text.len() > base && !names_something(last_piece(text, base)) {
        without_last_piece(text, base);
        trimming_keeps_the_path(before_last_piece(text, base), base);
    }
}

/// The text of a parent has the components of the parent.
pub proof fn parents_are_spelled(path: PathView)
    requires
        spelled(path),
        parent_of(path) is Some,
    ensures
        spelled(parent_of(path)->0),
{
    let base = names_start(path);
    let nothing = Seq::<char>::empty();
    base_of_spelled(path);
    nothing_is_spelled_by_nothing(path);
    trimming_keeps_the_path(path.text, base);
    let named = up_to_name(path.text, base);
    if named.len() > base {
        without_last_piece(named, base);
        let cut = before_last_piece(named, base);
        trimming_keeps_the_path(cut, base);
        assert(path.parts.drop_last() =~= path_of(cut).parts);
        assert(path_of(parent_text(path)) =~= parent_of(path)->0);
    } else {
        named_of_one(nothing);
        assert(split_on(nothing, '/') =~= seq![nothing]);
        if base == 0 {
            assert(named =~= nothing);
            assert(false);
        } else if named[0] == '/' {
            assert(named =~= nothing.push('/') + nothing);
            parts_appended(nothing, nothing);
            assert(false);
        } else {
            first_piece_has_the_first_char(named);
            assert(named =~= seq![named[0]]);
            assert(undivided(named));
            split_undivided(named);
            assert(path.parts =~= seq![here()]) by {
                reveal(Seq::filter);
                assert(seq![named].drop_first() =~= nothing_named());
                assert(named_parts(nothing_named()) =~= nothing_named());
                assert(seq![here()] + nothing_named() =~= seq![here()]);
            }
            assert(path.parts.drop_last() =~= nothing_named());
            assert(path_of(nothing) =~= parent_of(path)->0);
        }
    }
}

/// The texts of the ancestors have the components of the ancestors.
pub proof fn ancestors_are_spelled(path: PathView, up: int)
    requires
        spelled(path),
        0 <= up <= path.parts.len(),
    ensures
        spelled(ancestor_of(path, up)),
    decreases up,
{
    if up > 0 {
        parents_are_spelled(path);
        ancestors_are_spelled(parent_of(path)->0, up - 1);
    }
}

proof fn split_joined(parts: Seq<Seq<char>>)
    requires
        parts.len() > 0,
        forall|i: int| 0 <= i < parts.len() ==> undivided(#[trigger] parts[i]),
    ensures
        split_on(joined_parts(parts), '/') == parts,
    decreases parts.len(),
{
    split_undivided(parts[parts.len() - 1]);
    if parts.len() == 1 {
        assert(seq![parts[0]] =~= parts);
    } else {
        let rest = parts.drop_last();
        assert forall|i: int| 0 <= i < rest.len() implies undivided(#[trigger] rest[i]) by {
            assert(rest[i] == parts[i]);
        }
        split_joined(rest);
        split_appended(joined_parts(rest), parts.last());
        assert(rest + seq![parts.last()] =~= parts);
    }
}

proof fn all_named(parts: Seq<Seq<char>>)
    requires
        forall|i: int| 0 <= i < parts.len() ==> names_something(#[trigger] parts[i]),
    ensures
        named_parts(parts) == parts,
    decreases parts.len(),
{
    reveal(Seq::filter);
    if parts.len() > 0 {
        let rest = parts.drop_last();
        assert forall|i: int| 0 <= i < rest.len() implies names_something(#[trigger] rest[i]) by {
            assert(rest[i] == parts[i]);
        }
        all_named(rest);
        assert(names_something(parts[parts.len() - 1]));
        assert(rest.push(parts.last()) =~= parts);
    } else {
        assert(named_parts(parts) =~= parts);
    }
}

/// The plainest spelling of a path spells the same path.
pub proof fn plain_paths_are_spelled(path: PathView)
    requires
        spelled(path),
    ensures
        spelled(plain(path)),
        plain(path).absolute == path.absolute,
        plain(path).parts == path.parts,
{
    let pieces = split_on(path.text, '/');
    let parts = path.parts;
    let nothing = Seq::<char>::empty();
    split_is_never_empty(path.text, '/');
    pieces_are_undivided(path.text);
    named_parts_name(pieces);
    named_parts_name(pieces.drop_first());
    assert forall|i: int| 0 <= i < parts.len() implies undivided(#[trigger] parts[i]) && (
    names_something(parts[i]) || (i == 0 && !path.absolute && parts[i] == here())) by {
        if !path.absolute && pieces[0] == here() {
            if i > 0 {
                let rest = pieces.drop_first();
                assert(parts[i] == named_parts(rest)[i - 1]);
                assert(rest.contains(parts[i]));
                let j = choose|j: int| 0 <= j < rest.len() && rest[j] == parts[i];
                assert(pieces[j + 1] == parts[i]);
            }
        } else {
            assert(parts[i] == named_parts(pieces)[i]);
            let j = choose|j: int| 0 <= j < pieces.len() && pieces[j] == parts[i];
            assert(undivided(pieces[j]));
        }
    }
    let joined = joined_parts(parts);
    named_of_one(nothing);
    assert(split_on(nothing, '/') =~= seq![nothing]);
    if parts.len() > 0 {
        split_joined(parts);
    } else {
        all_named(parts);
        assert(joined =~= nothing);
    }
    if path.absolute {
        parts_appended(nothing, joined);
        assert(nothing.push('/') + joined =~= seq!['/'] + joined);
        all_named(parts);
        assert(parts.len() == 0 ==> nothing_named() =~= parts);
    } else if parts.len() > 0 {
        if joined.len() > 0 && joined[0] == '/' {
            assert(joined =~= nothing.push('/') + joined.skip(1));
            split_appended(nothing, joined.skip(1));
            assert(parts[0] == nothing);
            assert(false);
        }
        if parts[0] == here() {
            let rest = parts.drop_first();
            assert forall|i: int| 0 <= i < rest.len() implies names_something(
                #[trigger] rest[i],
            ) by {
                assert(rest[i] == parts[i + 1]);
            }
            all_named(rest);
            assert(seq![here()] + rest =~= parts);
        } else {
            all_named(parts);
        }
    } else {
        assert(nothing_named() =~= parts);
    }
}

} // verus!
