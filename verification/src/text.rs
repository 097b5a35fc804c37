//! Text as sequences of characters.

use vstd::prelude::*;
use vstd::string::*;

verus! {

/// `String::push` appends the character to the end of the string.
pub assume_specification[ String::push ](s: &mut String, c: char)
    ensures
        final(s)@ == old(s)@.push(c),
;

/// Whether two texts hold the same characters.
pub fn same_text(a: &str, b: &str) -> (r: bool)
    ensures
        r == (a@ == b@),
{
    a.to_owned() == b.to_owned()
}

/// The characters of a text.
pub fn chars_of(text: &str) -> (r: Vec<char>)
    ensures
        r@ == text@,
{
    let mut out: Vec<char> = Vec::new();
    for c in it: text.chars()
        invariant
            out@ == it.seq().take(it.index() as int),
            it.seq() == text@,
    {
        proof {
            assert(it.seq().take(it.index() + 1) =~= it.seq().take(it.index() as int).push(c));
        }
        out.push(c);
    }
    proof {
        assert(text@.take(text@.len() as int) =~= text@);
    }
    out
}

/// The text of the characters from `from` up to `to`.
pub fn slice_text(chars: &Vec<char>, from: usize, to: usize) -> (r: String)
    requires
        from <= to <= chars@.len(),
    ensures
        r@ == chars@.subrange(from as int, to as int),
{
    let mut out = String::new();
    let mut i: usize = from;
    while i < to
        invariant
            from <= i <= to <= chars@.len(),
            out@ == chars@.subrange(from as int, i as int),
        decreases to - i,
    {
        out.push(chars[i]);
        proof {
            let done = chars@.subrange(from as int, i as int);
            assert(chars@.subrange(from as int, i + 1) =~= done.push(chars@[i as int]));
        }
        i += 1;
    }
    out
}

/// The text `a` followed by the text `b`.
pub fn concat2(a: &str, b: &str) -> (r: String)
    ensures
        r@ == a@ + b@,
{
    let mut out = a.to_owned();
    out.append(b);
    out
}

/// Whether `text` begins with `prefix`.
pub open spec fn begins_with(text: Seq<char>, prefix: Seq<char>) -> bool {
    prefix.len() <= text.len() && text.subrange(0, prefix.len() as int) == prefix
}

/// Whether `pattern` stands in `text` at position `at`.
pub open spec fn stands_at(text: Seq<char>, pattern: Seq<char>, at: int) -> bool {
    0 <= at && at + pattern.len() <= text.len() && text.subrange(at, at + pattern.len()) == pattern
}

/// Whether `pattern` stands anywhere in `text`.
pub open spec fn holds_text(text: Seq<char>, pattern: Seq<char>) -> bool {
    exists|at: int| #[trigger] stands_at(text, pattern, at)
}

/// Whether `pattern` stands in `text` at position `at`.
fn matches_at(text: &Vec<char>, pattern: &Vec<char>, at: usize) -> (r: bool)
    ensures
        r == stands_at(text@, pattern@, at as int),
{
    if at > text.len() || pattern.len() > text.len() - at {
        return false;
    }
    let size: usize = text.len();
    let mut i: usize = 0;
    while i < pattern.len()
        invariant
            i <= pattern@.len(),
            at + pattern@.len() <= text@.len(),
            size == text@.len(),
            forall|j: int| 0 <= j < i ==> text@[at + j] == pattern@[j],
        decreases pattern@.len() - i,
    {
        if text[at + i] != pattern[i] {
            proof {
                assert(text@.subrange(at as int, at + pattern@.len())[i as int] == text@[at + i]);
            }
            return false;
        }
        i += 1;
    }
    proof {
        assert(text@.subrange(at as int, at + pattern@.len()) =~= pattern@);
    }
    true
}

/// Whether `text` begins with `prefix`.
pub fn starts_with(text: &str, prefix: &str) -> (r: bool)
    ensures
        r == begins_with(text@, prefix@),
{
    matches_at(&chars_of(text), &chars_of(prefix), 0)
}

/// Whether `pattern` stands anywhere in `text`.
pub fn contains(text: &str, pattern: &str) -> (r: bool)
    ensures
        r == holds_text(text@, pattern@),
{
    let text_chars = chars_of(text);
    let pattern_chars = chars_of(pattern);
    let mut at: usize = 0;
    loop
        invariant
            text_chars@ == text@,
            pattern_chars@ == pattern@,
            at <= text@.len(),
            forall|k: int| 0 <= k < at ==> !stands_at(text@, pattern@, k),
        decreases text@.len() - at,
    {
        if matches_at(&text_chars, &pattern_chars, at) {
            return true;
        }
        if at == text_chars.len() {
            return false;
        }
        at += 1;
    }
}

/// The parts of `text` between the separators: one more than there are separators.
pub open spec fn split_on(text: Seq<char>, separator: char) -> Seq<Seq<char>>
    decreases text.len(),
{
    if text.len() == 0 {
        seq![Seq::<char>::empty()]
    } else {
        let before = split_on(text.drop_last(), separator);
        if text.last() == separator {
            before.push(Seq::<char>::empty())
        } else {
            before.update(before.len() - 1, before.last().push(text.last()))
        }
    }
}

/// The texts of a list.
pub open spec fn texts(list: Seq<String>) -> Seq<Seq<char>> {
    list.map_values(|s: String| s@)
}

/// Splitting never gives an empty list.
pub proof fn split_is_never_empty(text: Seq<char>, separator: char)
    ensures
        split_on(text, separator).len() >= 1,
    decreases text.len(),
{
    if text.len() > 0 {
        split_is_never_empty(text.drop_last(), separator);
    }
}

/// The parts of `text` between the separators.
pub fn split(text: &str, separator: char) -> (r: Vec<String>)
    ensures
        texts(r@) == split_on(text@, separator),
{
    let chars = chars_of(text);
    let mut done: Vec<String> = Vec::new();
    let mut current = String::new();
    let mut i: usize = 0;
    proof {
        assert(texts(done@).push(current@) =~= split_on(chars@.take(0), separator));
    }
    while i < chars.len()
        invariant
            i <= chars@.len(),
            texts(done@).push(current@) == split_on(chars@.take(i as int), separator),
        decreases chars@.len() - i,
    {
        let c = chars[i];
        let ghost before = texts(done@).push(current@);
        proof {
            assert(chars@.take(i + 1).drop_last() =~= chars@.take(i as int));
            assert(chars@.take(i + 1).last() == c);
        }
        if c == separator {
            done.push(current);
            current = String::new();
            proof {
                assert(texts(done@).push(current@) =~= before.push(Seq::<char>::empty()));
            }
        } else {
            current.push(c);
            proof {
                assert(texts(done@).push(current@) =~= before.update(
                    before.len() - 1,
                    before.last().push(c),
                ));
            }
        }
        i += 1;
    }
    proof {
        assert(chars@.take(i as int) =~= text@);
    }
    let ghost before = texts(done@).push(current@);
    done.push(current);
    proof {
        assert(texts(done@) =~= before);
    }
    done
}

/// Whether a character has the Unicode property White_Space.
pub open spec fn white_space(c: char) -> bool {
    let u = c as u32;
    ||| 0x9 <= u <= 0xd
    ||| u == 0x20
    ||| u == 0x85
    ||| u == 0xa0
    ||| u == 0x1680
    ||| 0x2000 <= u <= 0x200a
    ||| u == 0x2028
    ||| u == 0x2029
    ||| u == 0x202f
    ||| u == 0x205f
    ||| u == 0x3000
}

/// Whether a character has the Unicode property White_Space.
pub fn is_white_space(c: char) -> (r: bool)
    ensures
        r == white_space(c),
{
    let u: u32 = c as u32;
    (0x9 <= u && u <= 0xd) || u == 0x20 || u == 0x85 || u == 0xa0 || u == 0x1680 || (0x2000 <= u && u
        <= 0x200a) || u == 0x2028 || u == 0x2029 || u == 0x202f || u == 0x205f || u == 0x3000
}

/// `text` without the white space that it begins with.
pub open spec fn trimmed_start(text: Seq<char>) -> Seq<char>
    decreases text.len(),
{
    if text.len() > 0 && white_space(text[0]) {
        trimmed_start(text.drop_first())
    } else {
        text
    }
}

/// `text` without the white space that it ends with.
pub open spec fn trimmed_end(text: Seq<char>) -> Seq<char>
    decreases text.len(),
{
    if text.len() > 0 && white_space(text.last()) {
        trimmed_end(text.drop_last())
    } else {
        text
    }
}

/// `text` without the white space around it.
pub open spec fn trimmed(text: Seq<char>) -> Seq<char> {
    trimmed_end(trimmed_start(text))
}

/// `text` without the white space around it.
pub fn trim(text: &str) -> (r: String)
    ensures
        r@ == trimmed(text@),
{
    let chars = chars_of(text);
    let size: usize = chars.len();
    let mut from: usize = 0;
    proof {
        assert(chars@.subrange(0, size as int) =~= text@);
    }
    while from < size && is_white_space(chars[from])
        invariant
            from <= size == chars@.len(),
            trimmed_start(chars@.subrange(from as int, size as int)) == trimmed_start(text@),
        decreases size - from,
    {
        proof {
            let rest = chars@.subrange(from as int, size as int);
            assert(rest.drop_first() =~= chars@.subrange(from + 1, size as int));
        }
        from += 1;
    }
    let ghost start = chars@.subrange(from as int, size as int);
    proof {
        assert(trimmed_start(text@) == start);
    }
    let mut to: usize = size;
    while to > from && is_white_space(chars[to - 1])
        invariant
            from <= to <= size == chars@.len(),
            trimmed_end(chars@.subrange(from as int, to as int)) == trimmed_end(start),
        decreases to - from,
    {
        proof {
            let rest = chars@.subrange(from as int, to as int);
            assert(rest.drop_last() =~= chars@.subrange(from as int, to - 1));
        }
        to -= 1;
    }
    slice_text(&chars, from, to)
}

/// Whether a text holds white space alone.
pub open spec fn blank(text: Seq<char>) -> bool {
    forall|i: int| 0 <= i < text.len() ==> white_space(#[trigger] text[i])
}

/// Whether a text holds white space alone.
pub fn is_blank(text: &str) -> (r: bool)
    ensures
        r == blank(text@),
{
    let chars = chars_of(text);
    let mut i: usize = 0;
    while i < chars.len()
        invariant
            i <= chars@.len(),
            chars@ == text@,
            forall|j: int| 0 <= j < i ==> white_space(#[trigger] chars@[j]),
        decreases chars@.len() - i,
    {
        if !is_white_space(chars[i]) {
            return false;
        }
        i += 1;
    }
    true
}

/// `line` without the carriage return that it ends with.
pub open spec fn without_return(line: Seq<char>) -> Seq<char> {
    if line.len() > 0 && line.last() == '\r' {
        line.drop_last()
    } else {
        line
    }
}

/// The lines of a text, without their line endings.
pub open spec fn text_lines(text: Seq<char>) -> Seq<Seq<char>> {
    let parts = split_on(text, '\n');
    let ended = parts.drop_last().map_values(|line: Seq<char>| without_return(line));
    if parts.last().len() == 0 {
        ended
    } else {
        ended.push(parts.last())
    }
}

/// `line` without the carriage return that it ends with.
fn strip_return(line: &str) -> (r: String)
    ensures
        r@ == without_return(line@),
{
    let chars = chars_of(line);
    let size: usize = chars.len();
    if size > 0 && chars[size - 1] == '\r' {
        let r = slice_text(&chars, 0, size - 1);
        proof {
            assert(r@ =~= line@.drop_last());
        }
        r
    } else {
        line.to_owned()
    }
}

/// The lines of a text, without their line endings.
pub fn lines(text: &str) -> (r: Vec<String>)
    ensures
        texts(r@) == text_lines(text@),
{
    let parts = split(text, '\n');
    proof {
        split_is_never_empty(text@, '\n');
        assert(texts(parts@).len() == parts@.len());
    }
    let last: usize = parts.len() - 1;
    let mut out: Vec<String> = Vec::new();
    let mut i: usize = 0;
    while i < last
        invariant
            i <= last < parts@.len(),
            out@.len() == i,
            forall|j: int| 0 <= j < i ==> (#[trigger] out@[j])@ == without_return(parts@[j]@),
        decreases last - i,
    {
        out.push(strip_return(parts[i].as_str()));
        i += 1;
    }
    let ghost ended = texts(parts@).drop_last().map_values(|line: Seq<char>| without_return(line));
    proof {
        assert(texts(out@) =~= ended);
        assert(texts(parts@).last() == parts@[last as int]@);
    }
    if parts[last].as_str().is_empty() {
        out
    } else {
        let ghost before = out@;
        out.push(parts[last].clone());
        proof {
            assert(texts(out@) =~= ended.push(parts@[last as int]@));
        }
        out
    }
}

/// Whether a character is a decimal digit.
pub open spec fn digit(c: char) -> bool {
    '0' <= c <= '9'
}

/// The number that a row of decimal digits stands for.
pub open spec fn digits_value(digits: Seq<char>) -> nat
    decreases digits.len(),
{
    if digits.len() == 0 {
        0
    } else {
        digits_value(digits.drop_last()) * 10 + (digits.last() as u32 - '0' as u32) as nat
    }
}

/// The row of digits of a number that may begin with a plus sign.
pub open spec fn unsigned_digits(text: Seq<char>) -> Seq<char> {
    if text.len() > 0 && text[0] == '+' {
        text.drop_first()
    } else {
        text
    }
}

/// The 32-bit number that a text stands for, if it stands for one.
pub open spec fn u32_of(text: Seq<char>) -> Option<u32> {
    let digits = unsigned_digits(text);
    if digits.len() > 0 && (forall|i: int| 0 <= i < digits.len() ==> digit(#[trigger] digits[i]))
        && digits_value(digits) <= u32::MAX {
        Some(digits_value(digits) as u32)
    } else {
        None
    }
}

/// The 64-bit number that a text stands for, if it stands for one.
pub open spec fn u64_of(text: Seq<char>) -> Option<u64> {
    let digits = unsigned_digits(text);
    if digits.len() > 0 && (forall|i: int| 0 <= i < digits.len() ==> digit(#[trigger] digits[i]))
        && digits_value(digits) <= u64::MAX {
        Some(digits_value(digits) as u64)
    } else {
        None
    }
}

/// A row of digits stands for at least what its beginning stands for.
proof fn digits_value_grows(digits: Seq<char>, upto: int)
    requires
        0 <= upto <= digits.len(),
        forall|i: int| 0 <= i < digits.len() ==> digit(#[trigger] digits[i]),
    ensures
        digits_value(digits.take(upto)) <= digits_value(digits),
    decreases digits.len(),
{
    if upto == digits.len() {
        assert(digits.take(upto) =~= digits);
    } else {
        let shorter = digits.drop_last();
        digits_value_grows(shorter, upto);
        assert(shorter.take(upto) =~= digits.take(upto));
    }
}

/// The 64-bit number that a text stands for, if it stands for one.
pub fn parse_u64(text: &str) -> (r: Option<u64>)
    ensures
        r == u64_of(text@),
{
    let chars = chars_of(text);
    let start: usize = if chars.len() > 0 && chars[0] == '+' {
        1
    } else {
        0
    };
    let ghost digits = unsigned_digits(text@);
    proof {
        assert(digits =~= chars@.subrange(start as int, chars@.len() as int));
    }
    if start == chars.len() {
        return None;
    }
    let mut value: u128 = 0;
    let mut i: usize = start;
    while i < chars.len()
        invariant
            start <= i <= chars@.len(),
            digits == chars@.subrange(start as int, chars@.len() as int),
            digits == unsigned_digits(text@),
            digits.len() > 0,
            value == digits_value(digits.take(i - start)),
            value <= u64::MAX,
            forall|j: int| 0 <= j < i - start ==> digit(#[trigger] digits[j]),
        decreases chars@.len() - i,
    {
        let c = chars[i];
        proof {
            assert(digits[i - start] == c);
            assert(digits.take(i - start + 1).drop_last() =~= digits.take(i - start));
        }
        if !('0' <= c && c <= '9') {
            return None;
        }
        value = value * 10 + (c as u32 - '0' as u32) as u128;
        if value > 0xffff_ffff_ffff_ffff {
            proof {
                if forall|j: int| 0 <= j < digits.len() ==> digit(#[trigger] digits[j]) {
                    digits_value_grows(digits, i - start + 1);
                }
            }
            return None;
        }
        i += 1;
    }
    proof {
        assert(digits.take(i - start) =~= digits);
    }
    Some(value as u64)
}

/// The 32-bit number that a text stands for, if it stands for one.
pub fn parse_u32(text: &str) -> (r: Option<u32>)
    ensures
        r == u32_of(text@),
{
    match parse_u64(text) {
        Some(value) => if value <= 0xffff_ffff {
            Some(value as u32)
        } else {
            None
        },
        None => None,
    }
}

/// The decimal digit for a number below ten.
pub open spec fn digit_char(d: nat) -> char {
    ('0' as u32 + d) as char
}

/// A number in decimal notation.
pub open spec fn decimal(n: nat) -> Seq<char>
    decreases n,
{
    if n < 10 {
        seq![digit_char(n)]
    } else {
        decimal(n / 10).push(digit_char(n % 10))
    }
}

/// A number in decimal notation.
pub fn decimal_text(n: u64) -> (r: String)
    ensures
        r@ == decimal(n as nat),
    decreases n,
{
    let c = (48u8 + (n % 10) as u8) as char;
    if n < 10 {
        let mut out = String::new();
        out.push(c);
        proof {
            assert(out@ =~= seq![digit_char(n as nat)]);
        }
        out
    } else {
        let mut out = decimal_text(n / 10);
        out.push(c);
        out
    }
}

/// Reading the decimal notation of a number gives the number back.
pub proof fn decimal_reads_back(n: nat)
    ensures
        digits_value(decimal(n)) == n,
    decreases n,
{
    if n >= 10 {
        decimal_reads_back(n / 10);
        assert(decimal(n).drop_last() =~= decimal(n / 10));
    } else {
        assert(decimal(n).drop_last() =~= Seq::<char>::empty());
        assert(digits_value(decimal(n).drop_last()) == 0);
    }
}

/// Two numbers with the same decimal notation are the same number.
pub proof fn decimal_is_unique(a: nat, b: nat)
    requires
        decimal(a) == decimal(b),
    ensures
        a == b,
{
    decimal_reads_back(a);
    decimal_reads_back(b);
}

/// The number of UTF-16 code units of a character.
pub open spec fn utf16_units(c: char) -> nat {
    if (c as u32) < 0x10000 {
        1
    } else {
        2
    }
}

/// The number of UTF-16 code units of a text.
pub open spec fn utf16_size(text: Seq<char>) -> nat
    decreases text.len(),
{
    if text.len() == 0 {
        0
    } else {
        utf16_size(text.drop_last()) + utf16_units(text.last())
    }
}

/// How two values stand to each other in an order.
#[derive(Clone, Copy, Debug, PartialEq, Eq, Structural)]
pub enum Order {
    Before,
    Same,
    After,
}

/// The order of two texts by the code points of their characters.
pub open spec fn text_order(a: Seq<char>, b: Seq<char>) -> Order
    decreases a.len(),
{
    if a.len() == 0 && b.len() == 0 {
        Order::Same
    } else if a.len() == 0 {
        Order::Before
    } else if b.len() == 0 {
        Order::After
    } else if a[0] < b[0] {
        Order::Before
    } else if b[0] < a[0] {
        Order::After
    } else {
        text_order(a.drop_first(), b.drop_first())
    }
}

/// The order of two texts by the code points of their characters.
pub fn order_texts(a: &str, b: &str) -> (r: Order)
    ensures
        r == text_order(a@, b@),
{
    let left = chars_of(a);
    let right = chars_of(b);
    let mut i: usize = 0;
    proof {
        assert(left@.skip(0) =~= a@);
        assert(right@.skip(0) =~= b@);
    }
    while i < left.len() && i < right.len()
        invariant
            i <= left@.len(),
            i <= right@.len(),
            text_order(left@.skip(i as int), right@.skip(i as int)) == text_order(a@, b@),
        decreases left@.len() - i,
    {
        let x = left[i];
        let y = right[i];
        proof {
            assert(left@.skip(i as int)[0] == x);
            assert(right@.skip(i as int)[0] == y);
            assert(left@.skip(i as int).drop_first() =~= left@.skip(i + 1));
            assert(right@.skip(i as int).drop_first() =~= right@.skip(i + 1));
        }
        if x < y {
            return Order::Before;
        }
        if y < x {
            return Order::After;
        }
        i += 1;
    }
    if i < left.len() {
        Order::After
    } else if i < right.len() {
        Order::Before
    } else {
        Order::Same
    }
}

/// Two texts stand at the same place in the order just when they are the same.
pub proof fn text_order_same(a: Seq<char>, b: Seq<char>)
    ensures
        (text_order(a, b) == Order::Same) == (a == b),
    decreases a.len(),
{
    if a.len() > 0 && b.len() > 0 {
        text_order_same(a.drop_first(), b.drop_first());
        if a[0] == b[0] && a.drop_first() == b.drop_first() {
            assert(a =~= seq![a[0]] + a.drop_first());
            assert(b =~= seq![b[0]] + b.drop_first());
        }
    } else if a.len() == 0 && b.len() == 0 {
        assert(a =~= b);
    }
}

/// Which of two texts comes first does not depend on which is asked about.
pub proof fn text_order_turns(a: Seq<char>, b: Seq<char>)
    ensures
        (text_order(a, b) == Order::Before) == (text_order(b, a) == Order::After),
        (text_order(a, b) == Order::After) == (text_order(b, a) == Order::Before),
    decreases a.len(),
{
    if a.len() > 0 && b.len() > 0 {
        text_order_turns(a.drop_first(), b.drop_first());
    }
}

/// The order of texts is transitive.
pub proof fn text_order_chains(a: Seq<char>, b: Seq<char>, c: Seq<char>)
    requires
        text_order(a, b) != Order::After,
        text_order(b, c) != Order::After,
    ensures
        text_order(a, c) != Order::After,
        text_order(a, b) == Order::Before || text_order(b, c) == Order::Before ==> text_order(a, c)
            == Order::Before,
    decreases a.len(),
{
    if a.len() > 0 && b.len() > 0 && c.len() > 0 {
        if a[0] == b[0] && b[0] == c[0] {
            text_order_chains(a.drop_first(), b.drop_first(), c.drop_first());
        }
    }
}

} // verus!
