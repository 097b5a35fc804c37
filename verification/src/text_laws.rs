//! What holds of texts that are taken apart.

use vstd::prelude::*;
use crate::text::{
    begins_with, digit, digits_value, holds_text, split_is_never_empty, split_on, stands_at,
    text_lines, trimmed, trimmed_end, trimmed_start, u32_of, u64_of, white_space,
};

verus! {

/// A text begins with another just when the other followed by something is the text.
pub proof fn beginnings_are_followed_by_a_rest(text: Seq<char>, start: Seq<char>)
    ensures
        begins_with(text, start) <==> exists|rest: Seq<char>| text == #[trigger] (start + rest),
{
    if begins_with(text, start) {
        let rest = text.skip(start.len() as int);
        assert forall|i: int| 0 <= i < start.len() implies text[i] == start[i] by {
            assert(text.subrange(0, start.len() as int)[i] == text[i]);
        }
        assert(text =~= start + rest);
    }
    if exists|rest: Seq<char>| text == #[trigger] (start + rest) {
        let rest = choose|rest: Seq<char>| text == #[trigger] (start + rest);
        assert(text.subrange(0, start.len() as int) =~= start);
    }
}

/// A text holds another just when something, the other, and something again make up the text.
pub proof fn a_held_text_stands_between_two_others(text: Seq<char>, pattern: Seq<char>)
    ensures
        holds_text(text, pattern) <==> exists|before: Seq<char>, after: Seq<char>|
            text == #[trigger] (before + pattern + after),
{
    if holds_text(text, pattern) {
        let at = choose|at: int| #[trigger] stands_at(text, pattern, at);
        let before = text.take(at);
        let after = text.skip(at + pattern.len());
        assert forall|i: int| 0 <= i < pattern.len() implies text[at + i] == pattern[i] by {
            assert(text.subrange(at, at + pattern.len())[i] == text[at + i]);
        }
        assert(text =~= before + pattern + after);
    }
    if exists|before: Seq<char>, after: Seq<char>| text == #[trigger] (before + pattern + after) {
        let (before, after) = choose|before: Seq<char>, after: Seq<char>|
            text == #[trigger] (before + pattern + after);
        let at = before.len() as int;
        assert(text.subrange(at, at + pattern.len()) =~= pattern);
        assert(stands_at(text, pattern, at));
    }
}

/// Parts put together again, with the separator between any two.
pub open spec fn joined_with(parts: Seq<Seq<char>>, separator: char) -> Seq<char>
    decreases parts.len(),
{
    if parts.len() == 0 {
        Seq::empty()
    } else if parts.len() == 1 {
        parts[0]
    } else {
        joined_with(parts.drop_last(), separator).push(separator) + parts.last()
    }
}

/// Splitting loses nothing but the separators: the parts put together again are the text, and no part
/// has a separator in it.
pub proof fn splitting_loses_nothing(text: Seq<char>, separator: char)
    ensures
        joined_with(split_on(text, separator), separator) == text,
        forall|i: int, j: int|
            0 <= i < split_on(text, separator).len() && 0 <= j < split_on(text, separator)[i].len()
                ==> #[trigger] split_on(text, separator)[i][j] != separator,
    decreases text.len(),
{
    let parts = split_on(text, separator);
    if text.len() == 0 {
        assert(parts[0] =~= text);
    } else {
        let rest = text.drop_last();
        let before = split_on(rest, separator);
        splitting_loses_nothing(rest, separator);
        split_is_never_empty(rest, separator);
        if text.last() == separator {
            assert(parts.drop_last() =~= before);
            assert(parts.last() =~= Seq::<char>::empty());
            assert(joined_with(parts, separator) =~= rest.push(separator));
            assert(rest.push(separator) =~= text);
            assert forall|i: int, j: int|
                0 <= i < parts.len() && 0 <= j < parts[i].len() implies #[trigger] parts[i][j]
                != separator by {
                if i < before.len() {
                    assert(before[i][j] != separator);
                }
            }
        } else {
            let last = before.last().push(text.last());
            assert(parts.last() == last);
            if before.len() > 1 {
                assert(parts.drop_last() =~= before.drop_last());
                assert(joined_with(parts, separator) =~= joined_with(before, separator).push(
                    text.last(),
                ));
            } else {
                assert(parts[0] == last);
                assert(before[0] == before.last());
                assert(joined_with(before, separator) == before[0]);
                assert(joined_with(parts, separator) == parts[0]);
            }
            assert(rest.push(text.last()) =~= text);
            assert forall|i: int, j: int|
                0 <= i < parts.len() && 0 <= j < parts[i].len() implies #[trigger] parts[i][j]
                != separator by {
                if i < before.len() - 1 {
                    assert(before[i][j] != separator);
                } else if j < before.last().len() {
                    assert(before[before.len() - 1][j] != separator);
                }
            }
        }
    }
}

proof fn start_is_trimmed(text: Seq<char>)
    ensures
        trimmed_start(text).len() <= text.len(),
        trimmed_start(text) == text.skip(text.len() - trimmed_start(text).len()),
        forall|i: int|
            0 <= i < text.len() - trimmed_start(text).len() ==> white_space(#[trigger] text[i]),
        trimmed_start(text).len() > 0 ==> !white_space(trimmed_start(text)[0]),
    decreases text.len(),
{
    if text.len() > 0 && white_space(text[0]) {
        let rest = text.drop_first();
        start_is_trimmed(rest);
        let n = text.len() - trimmed_start(text).len();
        assert(text.skip(n) =~= rest.skip(n - 1));
        assert forall|i: int| 0 <= i < n implies white_space(#[trigger] text[i]) by {
            if i > 0 {
                assert(rest[i - 1] == text[i]);
            }
        }
    } else {
        assert(text.skip(0) =~= text);
    }
}

proof fn end_is_trimmed(text: Seq<char>)
    ensures
        trimmed_end(text).len() <= text.len(),
        trimmed_end(text) == text.take(trimmed_end(text).len() as int),
        forall|i: int|
            trimmed_end(text).len() <= i < text.len() ==> white_space(#[trigger] text[i]),
        trimmed_end(text).len() > 0 ==> !white_space(trimmed_end(text).last()),
    decreases text.len(),
{
    if text.len() > 0 && white_space(text.last()) {
        let rest = text.drop_last();
        end_is_trimmed(rest);
        let n = trimmed_end(text).len() as int;
        assert(text.take(n) =~= rest.take(n));
        assert forall|i: int| n <= i < text.len() implies white_space(#[trigger] text[i]) by {
            if i < rest.len() {
                assert(rest[i] == text[i]);
            }
        }
    } else {
        assert(text.take(text.len() as int) =~= text);
    }
}

/// What is left of a text without the white space around it stands in the text as it is; only white space
/// is taken away, and none is left at either end.
pub proof fn only_outer_white_space_is_trimmed(text: Seq<char>)
    ensures
        exists|from: int, to: int|
            0 <= from <= to <= text.len() && trimmed(text) == #[trigger] text.subrange(from, to)
                && (forall|i: int| 0 <= i < from ==> white_space(#[trigger] text[i])) && (forall|
                i: int,
            |
                to <= i < text.len() ==> white_space(#[trigger] text[i])),
        trimmed(text).len() > 0 ==> !white_space(trimmed(text)[0]) && !white_space(
            trimmed(text).last(),
        ),
{
    start_is_trimmed(text);
    let middle = trimmed_start(text);
    end_is_trimmed(middle);
    let from = text.len() - middle.len();
    let to = from + trimmed(text).len();
    assert(trimmed(text) =~= text.subrange(from, to));
    assert forall|i: int| to <= i < text.len() implies white_space(#[trigger] text[i]) by {
        assert(middle[i - from] == text[i]);
    }
    if trimmed(text).len() > 0 {
        assert(trimmed(text)[0] == middle[0]);
    }
}

/// A blank, a tab and the ends of lines are white space, and letters and digits are not.
pub proof fn white_space_is_what_separates_words(c: char)
    ensures
        c == ' ' || c == '\t' || c == '\n' || c == '\r' ==> white_space(c),
        'a' <= c <= 'z' || 'A' <= c <= 'Z' || '0' <= c <= '9' || c == '/' || c == '.' || c == '-'
            ==> !white_space(c),
{
}

/// A line that a line feed follows is told from what comes behind it, without the carriage return that
/// may stand ahead of the line feed.
pub proof fn line_endings_are_no_part_of_a_line(line: Seq<char>)
    requires
        forall|i: int| 0 <= i < line.len() ==> line[i] != '\n' && line[i] != '\r',
    ensures
        text_lines(line.push('\n')) == seq![line],
        text_lines(line.push('\r').push('\n')) == seq![line],
        line.len() > 0 ==> text_lines(line) == seq![line],
        text_lines(Seq::empty()).len() == 0,
{
    unbroken_is_one_part(line);
    unbroken_is_one_part(line.push('\r'));
    unbroken_is_one_part(Seq::empty());
    let a = line.push('\n');
    assert(a.drop_last() =~= line);
    let parts = split_on(a, '\n');
    assert(parts =~= seq![line, Seq::<char>::empty()]);
    assert(parts.drop_last() =~= seq![line]);
    assert(text_lines(a) =~= seq![line]);
    let b = line.push('\r').push('\n');
    assert(b.drop_last() =~= line.push('\r'));
    let parts = split_on(b, '\n');
    assert(parts =~= seq![line.push('\r'), Seq::<char>::empty()]);
    assert(parts.drop_last() =~= seq![line.push('\r')]);
    assert(line.push('\r').drop_last() =~= line);
    assert(text_lines(b) =~= seq![line]);
    assert(seq![line].drop_last() =~= Seq::<Seq<char>>::empty());
    if line.len() > 0 {
        assert(text_lines(line) =~= seq![line]);
    }
}

proof fn unbroken_is_one_part(line: Seq<char>)
    requires
        forall|i: int| 0 <= i < line.len() ==> line[i] != '\n',
    ensures
        split_on(line, '\n') == seq![line],
    decreases line.len(),
{
    if line.len() > 0 {
        let rest = line.drop_last();
        assert forall|i: int| 0 <= i < rest.len() implies rest[i] != '\n' by {
            assert(rest[i] == line[i]);
        }
        unbroken_is_one_part(rest);
        assert(line[line.len() - 1] != '\n');
        assert(rest.push(line.last()) =~= line);
        assert(split_on(line, '\n') =~= seq![line]);
    } else {
        assert(line =~= Seq::<char>::empty());
    }
}

/// A row of digits stands for the number that its digits give, and each digit counts ten times what the
/// next one does.
pub proof fn digits_count_by_tens(digits: Seq<char>, d: char)
    requires
        '0' <= d <= '9',
    ensures
        digits_value(digits.push(d)) == 10 * digits_value(digits) + (d as u32 - '0' as u32),
        digits_value(Seq::empty()) == 0,
{
    assert(digits.push(d).drop_last() =~= digits);
}

/// A text is read as a number just when it is a row of digits, which a plus sign may stand ahead of, and
/// the number fits.
pub proof fn numbers_are_rows_of_digits(digits: Seq<char>)
    requires
        digits.len() > 0,
        forall|i: int| 0 <= i < digits.len() ==> '0' <= #[trigger] digits[i] <= '9',
    ensures
        u32_of(digits) == (if digits_value(digits) <= u32::MAX {
            Some(digits_value(digits) as u32)
        } else {
            None
        }),
        u64_of(digits) == (if digits_value(digits) <= u64::MAX {
            Some(digits_value(digits) as u64)
        } else {
            None
        }),
        u32_of(seq!['+'] + digits) == u32_of(digits),
        u64_of(seq!['+'] + digits) == u64_of(digits),
{
    assert(digits[0] != '+');
    assert((seq!['+'] + digits).drop_first() =~= digits);
    assert((seq!['+'] + digits)[0] == '+');
    assert forall|i: int| 0 <= i < digits.len() implies digit(#[trigger] digits[i]) by {
    }
}

/// A text with anything but digits in it is no number, but for a plus sign at its start.
pub proof fn nothing_else_is_a_number(text: Seq<char>, i: int)
    requires
        0 <= i < text.len(),
        !('0' <= text[i] <= '9'),
        i > 0 || text[0] != '+' || text.len() == 1,
    ensures
        u32_of(text) is None,
        u64_of(text) is None,
{
    if text[0] == '+' {
        let digits = text.drop_first();
        if text.len() > 1 {
            assert(!digit(digits[i - 1]));
        }
    } else {
        assert(!digit(text[i]));
    }
}

} // verus!
