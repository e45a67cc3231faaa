//! Text in the forms that the other modules read it: lines, trimmed words, numbers.

use vstd::prelude::*;

verus! {

/// `String::push` appends one character.
pub assume_specification[ String::push ](string: &mut String, c: char)
    ensures
        final(string)@ == old(string)@.push(c),
;

/// Whether a character has the Unicode `White_Space` property.
pub open spec fn is_white_space(c: char) -> bool {
    ||| '\u{9}' <= c <= '\u{d}'
    ||| c == ' '
    ||| c == '\u{85}'
    ||| c == '\u{a0}'
    ||| c == '\u{1680}'
    ||| '\u{2000}' <= c <= '\u{200a}'
    ||| c == '\u{2028}'
    ||| c == '\u{2029}'
    ||| c == '\u{202f}'
    ||| c == '\u{205f}'
    ||| c == '\u{3000}'
}

fn white_space(c: char) -> (yes: bool)
    ensures
        yes == is_white_space(c),
{
    ('\u{9}' <= c && c <= '\u{d}') || c == ' ' || c == '\u{85}' || c == '\u{a0}' || c == '\u{1680}' || (
    '\u{2000}' <= c && c <= '\u{200a}') || c == '\u{2028}' || c == '\u{2029}' || c == '\u{202f}' || c
        == '\u{205f}' || c == '\u{3000}'
}

/// `part` stands in `text` at position `at`.
pub open spec fn occurs_at(text: Seq<char>, part: Seq<char>, at: int) -> bool {
    0 <= at && at + part.len() <= text.len() && text.subrange(at, at + part.len() as int) == part
}

/// `part` stands somewhere in `text`.
pub open spec fn occurs_in(text: Seq<char>, part: Seq<char>) -> bool {
    exists|at: int| occurs_at(text, part, at)
}

/// Where the first line of `text` ends: at its first newline, or at its own end.
pub open spec fn line_end(text: Seq<char>) -> int
    decreases text.len(),
{
    if text.len() == 0 || text[0] == '\n' {
        0
    } else {
        1 + line_end(text.skip(1))
    }
}

/// `line` without the carriage return that it may end in.
pub open spec fn without_return(line: Seq<char>) -> Seq<char> {
    if line.len() > 0 && line.last() == '\r' {
        line.drop_last()
    } else {
        line
    }
}

/// The lines of `text`. A line ends in `\n` or `\r\n`, which are not part of it; the last line
/// may lack its end, and then keeps a carriage return.
pub open spec fn lines(text: Seq<char>) -> Seq<Seq<char>>
    decreases text.len(),
    via lines_decreases
{
    if text.len() == 0 {
        Seq::empty()
    } else if line_end(text) < text.len() {
        seq![without_return(text.take(line_end(text)))] + lines(text.skip(line_end(text) + 1))
    } else {
        seq![text]
    }
}

#[via_fn]
proof fn lines_decreases(text: Seq<char>) {
    lemma_line_end_bounds(text);
}

proof fn lemma_line_end_bounds(text: Seq<char>)
    ensures
        0 <= line_end(text) <= text.len(),
    decreases text.len(),
{
    if text.len() > 0 && text[0] != '\n' {
        lemma_line_end_bounds(text.skip(1));
    }
}

proof fn lemma_line_end_is(text: Seq<char>, end: int)
    requires
        0 <= end <= text.len(),
        forall|k: int| 0 <= k < end ==> text[k] != '\n',
        end < text.len() ==> text[end] == '\n',
    ensures
        line_end(text) == end,
    decreases text.len(),
{
    if end > 0 {
        let rest = text.skip(1);
        assert forall|k: int| 0 <= k < end - 1 implies rest[k] != '\n' by {
            assert(rest[k] == text[k + 1]);
        }
        lemma_line_end_is(rest, end - 1);
    }
}

/// What is left of `text` after the white space that it starts with.
pub open spec fn trim_start(text: Seq<char>) -> Seq<char>
    decreases text.len(),
{
    if text.len() > 0 && is_white_space(text[0]) {
        trim_start(text.skip(1))
    } else {
        text
    }
}

/// What is left of `text` before the white space that it ends in.
pub open spec fn trim_end(text: Seq<char>) -> Seq<char>
    decreases text.len(),
{
    if text.len() > 0 && is_white_space(text.last()) {
        trim_end(text.drop_last())
    } else {
        text
    }
}

/// `text` without the white space at its two ends.
pub open spec fn trimmed(text: Seq<char>) -> Seq<char> {
    trim_end(trim_start(text))
}

/// An ASCII capital in lower case; any other character as it is.
pub open spec fn lower_char(c: char) -> char {
    if 'A' <= c && c <= 'Z' {
        (c as u8 + 32) as u8 as char
    } else {
        c
    }
}

/// `text` with its ASCII capitals in lower case.
pub open spec fn lower(text: Seq<char>) -> Seq<char> {
    text.map_values(|c: char| lower_char(c))
}

/// The decimal digit `d`, which is below ten.
pub open spec fn digit(d: int) -> char {
    (48 + d) as u8 as char
}

/// The decimal form of `n`.
pub open spec fn decimal(n: nat) -> Seq<char>
    decreases n,
{
    if n < 10 {
        seq![digit(n as int)]
    } else {
        decimal(n / 10).push(digit((n % 10) as int))
    }
}

/// A character that is a decimal digit.
pub open spec fn is_digit(c: char) -> bool {
    '0' <= c && c <= '9'
}

/// What a decimal digit is worth.
pub open spec fn digit_value(c: char) -> int {
    c as int - 48
}

/// What a row of decimal digits is worth.
pub open spec fn digits_value(digits: Seq<char>) -> int
    decreases digits.len(),
{
    if digits.len() == 0 {
        0
    } else {
        digits_value(digits.drop_last()) * 10 + digit_value(digits.last())
    }
}

/// The unsigned 64-bit integer that a row of digits spells, where they are digits and it fits.
pub open spec fn digits_number(digits: Seq<char>) -> Option<u64> {
    if digits.len() > 0 && (forall|i: int| 0 <= i < digits.len() ==> is_digit(#[trigger] digits[i]))
        && digits_value(digits) <= u64::MAX {
        Some(digits_value(digits) as u64)
    } else {
        None
    }
}

/// The unsigned 64-bit integer that `text` spells: an optional `+`, then digits and nothing else.
pub open spec fn spelled_number(text: Seq<char>) -> Option<u64> {
    if text.len() > 0 && text[0] == '+' {
        digits_number(text.skip(1))
    } else {
        digits_number(text)
    }
}

/// The characters of a text.
pub fn chars_of(text: &str) -> (chars: Vec<char>)
    ensures
        chars@ == text@,
{
    let mut chars: Vec<char> = Vec::new();
    for c in iter: text.chars()
        invariant
            iter.seq() == text@,
            chars@ == text@.take(iter.index() as int),
    {
        chars.push(c);
    }
    chars
}

/// The text that stands in `chars` from `from` up to `to`.
pub fn text_between(chars: &Vec<char>, from: usize, to: usize) -> (text: String)
    requires
        from <= to <= chars@.len(),
    ensures
        text@ == chars@.subrange(from as int, to as int),
{
    let mut text = String::new();
    let mut i: usize = from;
    while i < to
        invariant
            from <= i <= to <= chars@.len(),
            text@ == chars@.subrange(from as int, i as int),
        decreases to - i,
    {
        text.push(chars[i]);
        i += 1;
        assert(chars@.subrange(from as int, i as int).drop_last() =~= chars@.subrange(
            from as int,
            i - 1,
        ));
    }
    text
}

/// Whether two texts are the same.
pub fn same(left: &str, right: &str) -> (yes: bool)
    ensures
        yes == (left@ == right@),
{
    left.to_owned() == right.to_owned()
}

/// Whether `part` stands in `text` at position `at`.
fn found_at(text: &Vec<char>, part: &Vec<char>, at: usize) -> (yes: bool)
    requires
        at + part@.len() <= text@.len(),
    ensures
        yes == occurs_at(text@, part@, at as int),
{
    let length: usize = text.len();
    let mut i: usize = 0;
    while i < part.len()
        invariant
            i <= part@.len(),
            length == text@.len(),
            at + part@.len() <= text@.len(),
            forall|k: int| 0 <= k < i ==> text@[at + k] == part@[k],
        decreases part@.len() - i,
    {
        if text[at + i] != part[i] {
            proof {
                assert(text@.subrange(at as int, at + part@.len() as int)[i as int] != part@[i as int]);
            }
            return false;
        }
        i += 1;
    }
    assert(text@.subrange(at as int, at + part@.len() as int) =~= part@);
    true
}

/// Whether `part` stands somewhere in `text`.
pub fn contains(text: &str, part: &str) -> (yes: bool)
    ensures
        yes == occurs_in(text@, part@),
{
    let text_chars = chars_of(text);
    let part_chars = chars_of(part);
    if part_chars.len() > text_chars.len() {
        return false;
    }
    let mut at: usize = 0;
    while at <= text_chars.len() - part_chars.len()
        invariant
            text_chars@ == text@,
            part_chars@ == part@,
            part_chars@.len() <= text_chars@.len(),
            at <= text_chars@.len() - part_chars@.len() + 1,
            forall|k: int| 0 <= k < at ==> !occurs_at(text@, part@, k),
        decreases text_chars@.len() + 1 - at,
    {
        if found_at(&text_chars, &part_chars, at) {
            return true;
        }
        if at == text_chars.len() - part_chars.len() {
            assert forall|k: int| !occurs_at(text@, part@, k) by {}
            return false;
        }
        at += 1;
    }
    false
}

/// Whether `text` starts with `part`.
pub fn starts_with(text: &str, part: &str) -> (yes: bool)
    ensures
        yes == occurs_at(text@, part@, 0),
{
    let text_chars = chars_of(text);
    let part_chars = chars_of(part);
    if part_chars.len() > text_chars.len() {
        return false;
    }
    found_at(&text_chars, &part_chars, 0)
}

/// The characters of each text in a row.
pub open spec fn texts(row: Seq<String>) -> Seq<Seq<char>> {
    row.map_values(|text: String| text@)
}

/// The lines of `text`.
pub fn split_lines(text: &str) -> (row: Vec<String>)
    ensures
        texts(row@) == lines(text@),
{
    let chars = chars_of(text);
    let mut row: Vec<String> = Vec::new();
    let mut start: usize = 0;
    assert(chars@.skip(0) =~= chars@);
    assert(texts(row@) =~= Seq::<Seq<char>>::empty());
    while start < chars.len()
        invariant
            chars@ == text@,
            start <= chars@.len(),
            texts(row@) + lines(chars@.skip(start as int)) == lines(text@),
        decreases chars@.len() - start,
    {
        let mut end: usize = start;
        while end < chars.len() && chars[end] != '\n'
            invariant
                start <= end <= chars@.len(),
                forall|k: int| start <= k < end ==> chars@[k] != '\n',
            decreases chars@.len() - end,
        {
            end += 1;
        }
        let ghost rest = chars@.skip(start as int);
        let ghost before = texts(row@);
        proof {
            assert forall|k: int| 0 <= k < end - start implies rest[k] != '\n' by {
                assert(rest[k] == chars@[start + k]);
            }
            lemma_line_end_is(rest, end - start);
        }
        if end < chars.len() {
            let ghost line = rest.take(end - start);
            assert(line =~= chars@.subrange(start as int, end as int));
            let shown = if end > start && chars[end - 1] == '\r' {
                end - 1
            } else {
                end
            };
            let item = text_between(&chars, start, shown);
            assert(item@ =~= without_return(line));
            row.push(item);
            proof {
                assert(texts(row@) =~= before.push(item@));
                assert(rest.skip(end - start + 1) =~= chars@.skip(end + 1));
                assert(lines(rest) =~= seq![item@] + lines(chars@.skip(end + 1)));
                assert(before + (seq![item@] + lines(chars@.skip(end + 1))) =~= texts(row@) + lines(
                    chars@.skip(end + 1),
                ));
            }
            start = end + 1;
        } else {
            let item = text_between(&chars, start, end);
            assert(item@ =~= rest);
            row.push(item);
            proof {
                assert(texts(row@) =~= before.push(item@));
                assert(lines(rest) =~= seq![item@]);
                assert(chars@.skip(end as int) =~= Seq::<char>::empty());
                assert(before + seq![item@] =~= texts(row@) + lines(chars@.skip(end as int)));
            }
            start = end;
        }
    }
    proof {
        assert(chars@.skip(start as int) =~= Seq::<char>::empty());
        assert(texts(row@) + lines(chars@.skip(start as int)) =~= texts(row@));
    }
    row
}

proof fn lemma_trim_start_skips(text: Seq<char>, n: int)
    requires
        0 <= n <= text.len(),
        forall|k: int| 0 <= k < n ==> is_white_space(text[k]),
    ensures
        trim_start(text) == trim_start(text.skip(n)),
    decreases n,
{
    if n > 0 {
        let rest = text.skip(1);
        assert forall|k: int| 0 <= k < n - 1 implies is_white_space(rest[k]) by {
            assert(rest[k] == text[k + 1]);
        }
        lemma_trim_start_skips(rest, n - 1);
        assert(rest.skip(n - 1) =~= text.skip(n));
    } else {
        assert(text.skip(0) =~= text);
    }
}

proof fn lemma_trim_end_takes(text: Seq<char>, n: int)
    requires
        0 <= n <= text.len(),
        forall|k: int| n <= k < text.len() ==> is_white_space(text[k]),
    ensures
        trim_end(text) == trim_end(text.take(n)),
    decreases text.len(),
{
    if n < text.len() {
        let rest = text.drop_last();
        lemma_trim_end_takes(rest, n);
        assert(rest.take(n) =~= text.take(n));
    } else {
        assert(text.take(n) =~= text);
    }
}

/// `text` without the white space at its two ends.
pub fn trim(text: &str) -> (inner: String)
    ensures
        inner@ == trimmed(text@),
{
    let chars = chars_of(text);
    let mut from: usize = 0;
    while from < chars.len() && white_space(chars[from])
        invariant
            from <= chars@.len(),
            forall|k: int| 0 <= k < from ==> is_white_space(chars@[k]),
        decreases chars@.len() - from,
    {
        from += 1;
    }
    let ghost inner = chars@.skip(from as int);
    proof {
        lemma_trim_start_skips(chars@, from as int);
        assert(trim_start(inner) == inner) by {
            if inner.len() > 0 {
                assert(inner[0] == chars@[from as int]);
            }
        }
    }
    let mut to: usize = chars.len();
    while to > from && white_space(chars[to - 1])
        invariant
            from <= to <= chars@.len(),
            forall|k: int| to <= k < chars@.len() ==> is_white_space(chars@[k]),
        decreases to,
    {
        to -= 1;
    }
    proof {
        assert forall|k: int| to - from <= k < inner.len() implies is_white_space(inner[k]) by {
            assert(inner[k] == chars@[from + k]);
        }
        lemma_trim_end_takes(inner, to - from);
        let kept = inner.take(to - from);
        assert(kept =~= chars@.subrange(from as int, to as int));
        assert(trim_end(kept) == kept) by {
            if kept.len() > 0 {
                assert(kept.last() == chars@[to - 1]);
            }
        }
    }
    text_between(&chars, from, to)
}

/// `text` with its ASCII capitals in lower case.
pub fn to_lower(text: &str) -> (lowered: String)
    ensures
        lowered@ == lower(text@),
{
    let chars = chars_of(text);
    let mut lowered = String::new();
    let mut i: usize = 0;
    while i < chars.len()
        invariant
            chars@ == text@,
            i <= chars@.len(),
            lowered@ == lower(text@.take(i as int)),
        decreases chars@.len() - i,
    {
        let c = chars[i];
        let small = if 'A' <= c && c <= 'Z' {
            (c as u8 + 32) as char
        } else {
            c
        };
        lowered.push(small);
        i += 1;
        assert(lower(text@.take(i as int)) =~= lower(text@.take(i - 1)).push(small));
    }
    assert(text@.take(i as int) =~= text@);
    lowered
}

/// The decimal form of `n`.
pub fn decimal_text(n: u64) -> (text: String)
    ensures
        text@ == decimal(n as nat),
    decreases n,
{
    let mut text = if n < 10 {
        String::new()
    } else {
        decimal_text(n / 10)
    };
    text.push((48 + (n % 10) as u8) as char);
    text
}

proof fn lemma_more_digits_are_worth_more(digits: Seq<char>, n: int)
    requires
        0 <= n <= digits.len(),
        forall|i: int| 0 <= i < digits.len() ==> is_digit(#[trigger] digits[i]),
    ensures
        0 <= digits_value(digits.take(n)) <= digits_value(digits),
    decreases digits.len(),
{
    if n < digits.len() {
        let rest = digits.drop_last();
        lemma_more_digits_are_worth_more(rest, n);
        assert(rest.take(n) =~= digits.take(n));
        assert(is_digit(digits.last()));
    } else {
        assert(digits.take(n) =~= digits);
        if n > 0 {
            let rest = digits.drop_last();
            lemma_more_digits_are_worth_more(rest, n - 1);
            assert(is_digit(digits.last()));
        }
    }
}

/// The unsigned 64-bit integer that `text` spells.
pub fn parse_number(text: &str) -> (number: Option<u64>)
    ensures
        number == spelled_number(text@),
{
    let chars = chars_of(text);
    let start: usize = if chars.len() > 0 && chars[0] == '+' {
        1
    } else {
        0
    };
    let ghost digits = chars@.skip(start as int);
    assert(start == 0 ==> digits =~= text@);
    if start == chars.len() {
        return None;
    }
    let mut value: u64 = 0;
    let mut i: usize = start;
    while i < chars.len()
        invariant
            chars@ == text@,
            start <= i <= chars@.len(),
            digits == chars@.skip(start as int),
            spelled_number(text@) == digits_number(digits),
            digits.len() > 0,
            forall|k: int| 0 <= k < i - start ==> is_digit(#[trigger] digits[k]),
            value == digits_value(digits.take(i - start)),
        decreases chars@.len() - i,
    {
        let c = chars[i];
        assert(digits[i - start] == c);
        if c < '0' || c > '9' {
            assert(!is_digit(digits[i - start]));
            return None;
        }
        let d: u64 = (c as u8 - 48) as u64;
        let ghost longer = digits.take(i - start + 1);
        assert(longer.drop_last() =~= digits.take(i - start));
        assert(digits_value(longer) == value * 10 + d);
        if value > (u64::MAX - d) / 10 {
            proof {
                if forall|k: int| 0 <= k < digits.len() ==> is_digit(#[trigger] digits[k]) {
                    lemma_more_digits_are_worth_more(digits, i - start + 1);
                }
                assert(value * 10 + d > u64::MAX) by (nonlinear_arith)
                    requires
                        value > (u64::MAX - d) / 10,
                        d <= 9,
                ;
            }
            return None;
        }
        value = value * 10 + d;
        i += 1;
    }
    assert(digits.take(i - start) =~= digits);
    Some(value)
}

/// Two texts, one behind the other.
pub fn joined(left: &str, right: &str) -> (text: String)
    ensures
        text@ == left@ + right@,
{
    let mut text = left.to_owned();
    text.append(right);
    text
}

} // verus!
