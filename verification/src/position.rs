//! Positions in documents, counted as the protocol counts: in lines and UTF-16 code units.

use vstd::prelude::*;
use vstd::string::*;
use crate::text::{chars_of, utf16_size, utf16_units};

verus! {

/// A position in a document.
#[derive(Clone, Copy, Debug, PartialEq, Eq, Structural)]
pub struct Position {
    pub line: u32,
    pub character: u32,
}

/// A range in a document.
#[derive(Clone, Copy, Debug, PartialEq, Eq, Structural)]
pub struct Range {
    pub start: Position,
    pub end: Position,
}

/// A replacement of a range.
#[derive(Debug, PartialEq, Eq)]
pub struct TextEdit {
    pub range: Range,
    pub new_text: String,
}

/// A replacement of a range.
#[verifier::ext_equal]
pub struct TextEditView {
    pub range: Range,
    pub new_text: Seq<char>,
}

impl View for TextEdit {
    type V = TextEditView;

    open spec fn view(&self) -> TextEditView {
        TextEditView { range: self.range, new_text: self.new_text@ }
    }
}

/// The number of line feeds in a text.
pub open spec fn line_feeds(text: Seq<char>) -> nat
    decreases text.len(),
{
    if text.len() == 0 {
        0
    } else if text.last() == '\n' {
        line_feeds(text.drop_last()) + 1
    } else {
        line_feeds(text.drop_last())
    }
}

/// What stands behind the last line feed.
pub open spec fn last_line(text: Seq<char>) -> Seq<char>
    decreases text.len(),
{
    if text.len() == 0 || text.last() == '\n' {
        Seq::empty()
    } else {
        last_line(text.drop_last()).push(text.last())
    }
}

/// Whether lines and columns can be counted with 32 bits all through a text.
pub open spec fn countable(text: Seq<char>) -> bool {
    forall|n: int|
        0 <= n <= text.len() ==> line_feeds(#[trigger] text.take(n)) <= u32::MAX && utf16_size(
            last_line(text.take(n)),
        ) <= u32::MAX
}

/// The range of a whole document.
pub open spec fn whole_range(text: Seq<char>) -> Range {
    Range {
        start: Position { line: 0, character: 0 },
        end: Position {
            line: line_feeds(text) as u32,
            character: utf16_size(last_line(text)) as u32,
        },
    }
}

/// The number of UTF-16 code units of a character.
pub fn len_utf16(c: char) -> (r: u32)
    ensures
        r == utf16_units(c),
{
    if (c as u32) < 0x10000 {
        1
    } else {
        2
    }
}

proof fn last_line_grows(text: Seq<char>, n: int)
    requires
        0 <= n < text.len(),
    ensures
        line_feeds(text.take(n + 1)) == line_feeds(text.take(n)) + (if text[n] == '\n' {
            1nat
        } else {
            0nat
        }),
        utf16_size(last_line(text.take(n + 1))) == (if text[n] == '\n' {
            0
        } else {
            utf16_size(last_line(text.take(n))) + utf16_units(text[n])
        }),
{
    assert(text.take(n + 1).drop_last() =~= text.take(n));
    assert(text.take(n + 1).last() == text[n]);
    if text[n] != '\n' {
        let line = last_line(text.take(n));
        assert(line.push(text[n]).drop_last() =~= line);
        assert(line.push(text[n]).last() == text[n]);
    }
}

/// Whether lines and columns can be counted with 32 bits all through a text.
pub fn is_countable(text: &str) -> (r: bool)
    ensures
        r == countable(text@),
{
    let chars = chars_of(text);
    let ghost all = chars@;
    let mut line: u64 = 0;
    let mut column: u64 = 0;
    let mut i: usize = 0;
    proof {
        assert(all.take(0) =~= Seq::<char>::empty());
    }
    while i < chars.len()
        invariant
            i <= chars@.len(),
            all == chars@,
            all == text@,
            line == line_feeds(all.take(i as int)),
            column == utf16_size(last_line(all.take(i as int))),
            line <= u32::MAX,
            column <= u32::MAX,
            forall|n: int|
                0 <= n <= i ==> line_feeds(#[trigger] all.take(n)) <= u32::MAX && utf16_size(
                    last_line(all.take(n)),
                ) <= u32::MAX,
        decreases chars@.len() - i,
    {
        proof {
            last_line_grows(all, i as int);
        }
        if chars[i] == '\n' {
            line += 1;
            column = 0;
        } else {
            column += len_utf16(chars[i]) as u64;
        }
        i += 1;
        if line > 0xffff_ffff || column > 0xffff_ffff {
            proof {
                let long = all.take(i as int);
                assert(line_feeds(long) > u32::MAX || utf16_size(last_line(long)) > u32::MAX);
            }
            return false;
        }
    }
    true
}

/// The range of a whole document in which lines and columns can be counted.
pub fn full_document_range(text: &str) -> (r: Range)
    requires
        countable(text@),
    ensures
        r == whole_range(text@),
{
    let chars = chars_of(text);
    let ghost all = chars@;
    let mut line: u32 = 0;
    let mut column: u32 = 0;
    let mut i: usize = 0;
    proof {
        assert(all.take(0) =~= Seq::<char>::empty());
    }
    while i < chars.len()
        invariant
            i <= chars@.len(),
            all == chars@,
            countable(all),
            line == line_feeds(all.take(i as int)),
            column == utf16_size(last_line(all.take(i as int))),
        decreases chars@.len() - i,
    {
        proof {
            last_line_grows(all, i as int);
            assert(line_feeds(all.take(i + 1)) <= u32::MAX);
        }
        if chars[i] == '\n' {
            line += 1;
            column = 0;
        } else {
            column += len_utf16(chars[i]);
        }
        i += 1;
    }
    proof {
        assert(all.take(i as int) =~= all);
    }
    Range {
        start: Position { line: 0, character: 0 },
        end: Position { line, character: column },
    }
}

/// The range of a whole document, where what does not fit in 32 bits is cut off.
pub open spec fn wrapped_range(text: Seq<char>) -> Range {
    Range {
        start: Position { line: 0, character: 0 },
        end: Position {
            line: (line_feeds(text) % 0x1_0000_0000) as u32,
            character: (utf16_size(last_line(text)) % 0x1_0000_0000) as u32,
        },
    }
}

/// The range of a whole document, where what does not fit in 32 bits is cut off.
pub fn wrapped_document_range(text: &str) -> (r: Range)
    ensures
        r == wrapped_range(text@),
{
    let chars = chars_of(text);
    let ghost all = chars@;
    let mut line: u64 = 0;
    let mut column: u64 = 0;
    let mut i: usize = 0;
    proof {
        assert(all.take(0) =~= Seq::<char>::empty());
    }
    while i < chars.len()
        invariant
            i <= chars@.len(),
            all == chars@,
            line == line_feeds(all.take(i as int)) % 0x1_0000_0000,
            column == utf16_size(last_line(all.take(i as int))) % 0x1_0000_0000,
        decreases chars@.len() - i,
    {
        proof {
            last_line_grows(all, i as int);
        }
        if chars[i] == '\n' {
            line = (line + 1) % 0x1_0000_0000;
            column = 0;
        } else {
            column = (column + len_utf16(chars[i]) as u64) % 0x1_0000_0000;
        }
        i += 1;
    }
    proof {
        assert(all.take(i as int) =~= all);
    }
    Range {
        start: Position { line: 0, character: 0 },
        end: Position { line: line as u32, character: column as u32 },
    }
}

/// Where lines and columns can be counted, nothing is cut off.
pub proof fn ranges_agree(text: Seq<char>)
    requires
        countable(text),
    ensures
        wrapped_range(text) == whole_range(text),
{
    assert(text.take(text.len() as int) =~= text);
}

/// The lines of a document and the columns of its last line are counted from nothing: an empty
/// document has an empty range, and a line feed starts a line.
pub proof fn a_line_feed_starts_a_line(text: Seq<char>)
    ensures
        line_feeds(text.push('\n')) == line_feeds(text) + 1,
        last_line(text.push('\n')) == Seq::<char>::empty(),
{
    assert(text.push('\n').drop_last() =~= text);
    assert(text.push('\n').last() == '\n');
}

} // verus!
