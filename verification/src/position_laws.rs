//! What holds of the range of a document.

use vstd::prelude::*;
use crate::position::{countable, last_line, line_feeds, ranges_agree, wrapped_range};
use crate::text::utf16_size;

verus! {

/// Whether a line begins at a place in a text: at its start, and behind each line feed.
pub open spec fn line_begins(text: Seq<char>, at: int) -> bool {
    0 <= at <= text.len() && (at == 0 || text[at - 1] == '\n')
}

/// There are as many line feeds in two texts together as in the one and in the other, and one in a text
/// that is a line feed alone.
pub proof fn line_feeds_add_up(a: Seq<char>, b: Seq<char>)
    ensures
        line_feeds(a + b) == line_feeds(a) + line_feeds(b),
        line_feeds(seq!['\n']) == 1,
        forall|c: char| c != '\n' ==> #[trigger] line_feeds(seq![c]) == 0,
        line_feeds(Seq::empty()) == 0,
    decreases b.len(),
{
    reveal_with_fuel(line_feeds, 2);
    assert forall|c: char| true implies (#[trigger] seq![c]).drop_last() =~= Seq::<char>::empty() by {
    }
    if b.len() == 0 {
        assert(a + b =~= a);
    } else {
        assert((a + b).drop_last() =~= a + b.drop_last());
        line_feeds_add_up(a, b.drop_last());
    }
}

/// The last line is what stands behind the last line feed: a line begins there, and no line feed
/// follows.
pub proof fn the_last_line_is_behind_the_last_line_feed(text: Seq<char>)
    ensures
        last_line(text).len() <= text.len(),
        line_begins(text, text.len() - last_line(text).len()),
        last_line(text) == text.skip(text.len() - last_line(text).len()),
        forall|i: int| text.len() - last_line(text).len() <= i < text.len() ==> text[i] != '\n',
    decreases text.len(),
{
    if text.len() > 0 && text.last() != '\n' {
        let rest = text.drop_last();
        the_last_line_is_behind_the_last_line_feed(rest);
        let from = text.len() - last_line(text).len();
        assert(text.skip(from) =~= rest.skip(from).push(text.last()));
        if from > 0 {
            assert(rest[from - 1] == text[from - 1]);
        }
        assert forall|i: int| from <= i < text.len() implies text[i] != '\n' by {
            if i < rest.len() {
                assert(rest[i] == text[i]);
            }
        }
    } else {
        assert(text.skip(text.len() as int) =~= Seq::<char>::empty());
    }
}

/// A character takes two UTF-16 code units just when it is not in the basic plane, and the size of two
/// texts together is the sum of their sizes.
pub proof fn sizes_add_up(a: Seq<char>, b: Seq<char>)
    ensures
        utf16_size(a + b) == utf16_size(a) + utf16_size(b),
        forall|c: char| #[trigger] utf16_size(seq![c]) == (if c as u32 > 0xffff { 2nat } else { 1nat }),
        utf16_size(Seq::empty()) == 0,
    decreases b.len(),
{
    reveal_with_fuel(utf16_size, 2);
    assert forall|c: char| true implies (#[trigger] seq![c]).drop_last() =~= Seq::<char>::empty() by {
    }
    if b.len() == 0 {
        assert(a + b =~= a);
    } else {
        assert((a + b).drop_last() =~= a + b.drop_last());
        sizes_add_up(a, b.drop_last());
    }
}

/// The range of a document goes from its very start to its very end: it ends in the line that has as
/// many lines before it as the document has line feeds, behind all that stands in that line.
pub proof fn the_whole_document_is_covered(text: Seq<char>, from: int)
    requires
        countable(text),
        line_begins(text, from),
        forall|i: int| from <= i < text.len() ==> text[i] != '\n',
    ensures
        wrapped_range(text).start.line == 0,
        wrapped_range(text).start.character == 0,
        wrapped_range(text).end.line == line_feeds(text),
        wrapped_range(text).end.character == utf16_size(text.skip(from)),
{
    ranges_agree(text);
    assert(text.take(text.len() as int) =~= text);
    the_last_line_is_behind_the_last_line_feed(text);
    let found = text.len() - last_line(text).len();
    if found < from {
        assert(text[from - 1] != '\n');
    }
    if from < found {
        assert(text[found - 1] != '\n');
    }
}

} // verus!
