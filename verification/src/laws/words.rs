//! What the reading of text promises.

use crate::laws::supervision;
use crate::text;
use vstd::prelude::*;

verus! {

/// A part is contained in a text exactly if the text is something, the part, and something more.
pub proof fn law_contained_parts_split_the_text(text: &str, part: &str, yes: bool)
    requires
        call_ensures(text::contains, (text, part), yes),
    ensures
        yes <==> exists|head: Seq<char>, tail: Seq<char>| text@ == #[trigger] (head + part@ + tail),
{
    supervision::lemma_holds(text@, part@);
}

/// A text starts with a part exactly if it is the part and something more.
pub proof fn law_leading_parts_split_the_text(text: &str, part: &str, yes: bool)
    requires
        call_ensures(text::starts_with, (text, part), yes),
    ensures
        yes <==> exists|tail: Seq<char>| text@ == #[trigger] (part@ + tail),
{
    if yes {
        assert(text@ =~= part@ + text@.skip(part@.len() as int));
    }
    assert forall|tail: Seq<char>| text@ == #[trigger] (part@ + tail) implies yes by {
        assert(text@.subrange(0, part@.len() as int) =~= part@);
    }
}

/// Two texts are the same exactly if their characters are.
pub proof fn law_texts_are_their_characters(left: &str, right: &str, yes: bool, both: String)
    requires
        call_ensures(text::same, (left, right), yes),
        call_ensures(text::joined, (left, right), both),
    ensures
        yes <==> left@ == right@,
        both@ == left@ + right@,
{
}

/// A row of lines spells a text: each line holds no newline and is followed by one, with or without
/// a carriage return before it, that is in no line; only the last line may lack its end, and is then
/// not empty.
pub open spec fn spells(row: Seq<Seq<char>>, text: Seq<char>) -> bool
    decreases row.len(),
{
    if row.len() == 0 {
        text.len() == 0
    } else {
        let line = row[0];
        let rest = row.skip(1);
        &&& forall|i: int| 0 <= i < line.len() ==> #[trigger] line[i] != '\n'
        &&& {
            ||| row.len() == 1 && text =~= line && line.len() > 0
            ||| {
                &&& line.len() < text.len()
                &&& text.take(line.len() as int + 1) =~= line.push('\n')
                &&& !(line.len() > 0 && line.last() == '\r')
                &&& spells(rest, text.skip(line.len() as int + 1))
            }
            ||| {
                &&& line.len() + 1 < text.len()
                &&& text.take(line.len() as int + 2) =~= line.push('\r').push('\n')
                &&& spells(rest, text.skip(line.len() as int + 2))
            }
        }
    }
}

proof fn lemma_line_end(text: Seq<char>)
    ensures
        0 <= text::line_end(text) <= text.len(),
        forall|i: int| 0 <= i < text::line_end(text) ==> #[trigger] text[i] != '\n',
        text::line_end(text) < text.len() ==> text[text::line_end(text)] == '\n',
    decreases text.len(),
{
    if text.len() > 0 && text[0] != '\n' {
        let rest = text.skip(1);
        lemma_line_end(rest);
        assert forall|i: int| 0 <= i < text::line_end(text) implies #[trigger] text[i] != '\n' by {
            if i > 0 {
                assert(text[i] == rest[i - 1]);
            }
        }
        if text::line_end(text) < text.len() {
            assert(text[text::line_end(text)] == rest[text::line_end(rest)]);
        }
    }
}

proof fn lemma_lines_spell(text: Seq<char>)
    ensures
        spells(text::lines(text), text),
    decreases text.len(),
{
    let row = text::lines(text);
    if text.len() > 0 {
        let end = text::line_end(text);
        lemma_line_end(text);
        if end < text.len() {
            let rest = text.skip(end + 1);
            let line = text::without_return(text.take(end));
            lemma_lines_spell(rest);
            assert(row[0] == line);
            assert(row.skip(1) =~= text::lines(rest));
            if end > 0 && text[end - 1] == '\r' {
                assert(line =~= text.take(end - 1));
                assert(text.take(line.len() as int + 2) =~= line.push('\r').push('\n'));
                assert(text.skip(line.len() as int + 2) =~= rest);
            } else {
                assert(line =~= text.take(end));
                assert(text.take(line.len() as int + 1) =~= line.push('\n'));
                assert(text.skip(line.len() as int + 1) =~= rest);
            }
            assert forall|i: int| 0 <= i < line.len() implies #[trigger] line[i] != '\n' by {
                assert(line[i] == text[i]);
            }
        } else {
            assert(row[0] == text);
        }
    }
}

/// The lines of a text are what it is made of: put back together with their ends they are the text
/// again, and no line holds a newline.
pub proof fn law_lines_are_what_a_text_is_made_of(text: &str, row: Vec<String>)
    requires
        call_ensures(text::split_lines, (text,), row),
    ensures
        spells(row@.map_values(|line: String| line@), text@),
{
    lemma_lines_spell(text@);
    assert(text::texts(row@) =~= row@.map_values(|line: String| line@));
}

/// The lines that other modules look at are those that a text is split into.
pub proof fn law_lines_are_those_of_the_split(text: &str, row: Vec<String>, i: int)
    requires
        call_ensures(text::split_lines, (text,), row),
        0 <= i < row@.len(),
    ensures
        text::lines(text@).len() == row@.len(),
        text::lines(text@)[i] == row@[i]@,
{
    assert(text::texts(row@).len() == row@.len());
    assert(text::texts(row@)[i] == row@[i]@);
}

/// A white space character, by its number.
pub open spec fn is_blank(c: char) -> bool {
    let n = c as u32;
    ||| 9 <= n <= 13
    ||| n == 32
    ||| n == 133
    ||| n == 160
    ||| n == 5760
    ||| 8192 <= n <= 8202
    ||| n == 8232
    ||| n == 8233
    ||| n == 8239
    ||| n == 8287
    ||| n == 12288
}

proof fn lemma_is_blank(c: char)
    ensures
        is_blank(c) == text::is_white_space(c),
{
}

/// A text with white space cut off at its two ends, and nothing else.
pub open spec fn cuts_blanks(
    text: Seq<char>,
    head: Seq<char>,
    inner: Seq<char>,
    tail: Seq<char>,
) -> bool {
    &&& text =~= head + inner + tail
    &&& forall|i: int| 0 <= i < head.len() ==> is_blank(#[trigger] head[i])
    &&& forall|i: int| 0 <= i < tail.len() ==> is_blank(#[trigger] tail[i])
    &&& inner.len() > 0 ==> !is_blank(inner[0]) && !is_blank(inner.last())
}

proof fn lemma_trim_start(text: Seq<char>) -> (n: int)
    ensures
        0 <= n <= text.len(),
        text::trim_start(text) == text.skip(n),
        forall|i: int| 0 <= i < n ==> is_blank(#[trigger] text[i]),
        n < text.len() ==> !is_blank(text[n]),
    decreases text.len(),
{
    if text.len() > 0 {
        lemma_is_blank(text[0]);
    }
    if text.len() > 0 && text::is_white_space(text[0]) {
        let rest = text.skip(1);
        let m = lemma_trim_start(rest);
        assert(rest.skip(m) =~= text.skip(m + 1));
        assert forall|i: int| 0 <= i < m + 1 implies is_blank(#[trigger] text[i]) by {
            if i > 0 {
                assert(text[i] == rest[i - 1]);
            }
        }
        if m + 1 < text.len() {
            assert(text[m + 1] == rest[m]);
        }
        m + 1
    } else {
        assert(text.skip(0) =~= text);
        0
    }
}

proof fn lemma_trim_end(text: Seq<char>) -> (n: int)
    ensures
        0 <= n <= text.len(),
        text::trim_end(text) == text.take(n),
        forall|i: int| n <= i < text.len() ==> is_blank(#[trigger] text[i]),
        n > 0 ==> !is_blank(text[n - 1]),
    decreases text.len(),
{
    if text.len() > 0 {
        lemma_is_blank(text.last());
    }
    if text.len() > 0 && text::is_white_space(text.last()) {
        let rest = text.drop_last();
        let m = lemma_trim_end(rest);
        assert(rest.take(m) =~= text.take(m));
        assert forall|i: int| m <= i < text.len() implies is_blank(#[trigger] text[i]) by {
            if i < rest.len() {
                assert(text[i] == rest[i]);
            }
        }
        m
    } else {
        assert(text.take(text.len() as int) =~= text);
        text.len() as int
    }
}

/// Trimming cuts off the white space at the two ends of a text, all of it, and nothing else.
pub proof fn law_trimming_cuts_the_blanks(text: &str, inner: String)
    requires
        call_ensures(text::trim, (text,), inner),
    ensures
        exists|head: Seq<char>, tail: Seq<char>| #[trigger]
            cuts_blanks(text@, head, inner@, tail),
        inner@ == text::trimmed(text@),
{
    let from = lemma_trim_start(text@);
    let rest = text@.skip(from);
    let n = lemma_trim_end(rest);
    let (head, tail) = (text@.take(from), rest.skip(n));
    assert(inner@ =~= rest.take(n));
    assert(text@ =~= head + inner@ + tail);
    assert forall|i: int| 0 <= i < tail.len() implies is_blank(#[trigger] tail[i]) by {
        assert(tail[i] == rest[n + i]);
    }
    if inner@.len() > 0 {
        assert(inner@[0] == text@[from]);
        assert(inner@.last() == rest[n - 1]);
    }
    assert(cuts_blanks(text@, head, inner@, tail));
}

/// Lowering replaces each capital from A to Z by its small letter and leaves every other character
/// as it is.
pub proof fn law_lowering_replaces_capitals(text: &str, lowered: String)
    requires
        call_ensures(text::to_lower, (text,), lowered),
    ensures
        lowered@ == text::lower(text@),
        lowered@.len() == text@.len(),
        forall|i: int|
            0 <= i < text@.len() ==> #[trigger] lowered@[i] as u32 == if 65 <= text@[i] as u32
                && text@[i] as u32 <= 90 {
                text@[i] as u32 + 32
            } else {
                text@[i] as u32 as int
            },
{
    assert forall|i: int| 0 <= i < text@.len() implies #[trigger] lowered@[i] as u32 == if 65
        <= text@[i] as u32 && text@[i] as u32 <= 90 {
        text@[i] as u32 + 32
    } else {
        text@[i] as u32 as int
    } by {
        assert(text::lower(text@)[i] == text::lower_char(text@[i]));
    }
}

/// A text that begins a number: digits, with or without a plus before them.
pub open spec fn digits_from(text: Seq<char>) -> int {
    if text.len() > 0 && text[0] == '+' {
        1
    } else {
        0
    }
}

proof fn lemma_value_is_not_negative(digits: Seq<char>)
    requires
        forall|i: int| 0 <= i < digits.len() ==> text::is_digit(#[trigger] digits[i]),
    ensures
        text::digits_value(digits) >= 0,
    decreases digits.len(),
{
    if digits.len() > 0 {
        lemma_value_is_not_negative(digits.drop_last());
        assert(text::is_digit(digits.last()));
    }
}

/// A number is spelled digit by digit: one digit is worth itself, and a further digit makes the
/// number ten times as large and adds its own worth. A number that no longer fits in 64 bits is none,
/// and neither is a text with anything but digits behind an optional plus, or without digits.
pub proof fn law_numbers_grow_digit_by_digit(
    text: &str,
    number: Option<u64>,
    longer: &str,
    grown: Option<u64>,
    c: char,
)
    requires
        call_ensures(text::parse_number, (text,), number),
        call_ensures(text::parse_number, (longer,), grown),
        longer@ == text@.push(c),
    ensures
        text@.len() == digits_from(text@) ==> number is None,
        !(48 <= c as u32 <= 57) && longer@.len() > digits_from(longer@) ==> grown is None,
        48 <= c as u32 <= 57 && text@.len() == digits_from(text@) ==> grown == Some(
            (c as u32 - 48) as u64,
        ),
        48 <= c as u32 <= 57 && text@.len() > digits_from(text@) ==> match number {
            Some(n) => if n * 10 + (c as u32 - 48) <= u64::MAX {
                grown == Some((n * 10 + (c as u32 - 48)) as u64)
            } else {
                grown is None
            },
            None => grown is None,
        },
        number == text::spelled_number(text@),
{
    let from = digits_from(text@);
    let was = text@.skip(from);
    assert(from == 0 ==> was =~= text@);
    reveal_with_fuel(text::digits_value, 2);
    if longer@.len() > digits_from(longer@) {
        assert(digits_from(longer@) == from);
        let now = longer@.skip(from);
        assert(from == 0 ==> now =~= longer@);
        assert(now =~= was.push(c));
        assert(now.drop_last() =~= was);
        assert(now[now.len() - 1] == c);
        assert(text::is_digit(c) <==> 48 <= c as u32 <= 57);
        if forall|i: int| 0 <= i < was.len() ==> text::is_digit(#[trigger] was[i]) {
            lemma_value_is_not_negative(was);
            if text::is_digit(c) {
                assert forall|i: int| 0 <= i < now.len() implies text::is_digit(
                    #[trigger] now[i],
                ) by {
                    if i < was.len() {
                        assert(now[i] == was[i]);
                    }
                }
            }
        } else {
            let i = choose|i: int| 0 <= i < was.len() && !text::is_digit(#[trigger] was[i]);
            assert(now[i] == was[i]);
            assert(!text::is_digit(now[i]));
        }
    }
}

proof fn lemma_decimal(n: nat)
    ensures
        text::decimal(n).len() > 0,
        forall|i: int| 0 <= i < text::decimal(n).len() ==> text::is_digit(
            #[trigger] text::decimal(n)[i],
        ),
        text::digits_value(text::decimal(n)) == n,
        text::decimal(n).len() > 1 ==> text::decimal(n)[0] != '0',
    decreases n,
{
    let row = text::decimal(n);
    if n < 10 {
        assert(row.drop_last() =~= Seq::<char>::empty());
        reveal_with_fuel(text::digits_value, 2);
    } else {
        let rest = text::decimal(n / 10);
        lemma_decimal(n / 10);
        assert(row.drop_last() =~= rest);
        if rest.len() == 1 {
            reveal_with_fuel(text::digits_value, 2);
            assert(rest.drop_last() =~= Seq::<char>::empty());
            assert(rest[0] == rest.last());
        }
    }
}

/// The decimal form of a number spells it again, without a plus and without a zero at its front.
pub proof fn law_decimal_form_spells_the_number(n: u64, shown: String, words: &str, read: Option<u64>)
    requires
        call_ensures(text::decimal_text, (n,), shown),
        words@ == shown@,
        call_ensures(text::parse_number, (words,), read),
    ensures
        read == Some(n),
        shown@.len() > 0,
        shown@[0] != '+',
        shown@.len() > 1 ==> shown@[0] != '0',
{
    lemma_decimal(n as nat);
    assert(text::is_digit(shown@[0]));
}

/// The characters of a text are all of its characters, in order, and a part of them is what stands
/// between its two ends.
pub proof fn law_characters_are_kept_in_order(
    text: &str,
    chars: Vec<char>,
    from: usize,
    to: usize,
    part: String,
)
    requires
        call_ensures(text::chars_of, (text,), chars),
        from <= to <= chars@.len(),
        call_ensures(text::text_between, (&chars, from, to), part),
    ensures
        chars@.len() == text@.len(),
        forall|i: int| 0 <= i < text@.len() ==> #[trigger] chars@[i] == text@[i],
        part@.len() == to - from,
        forall|i: int| 0 <= i < part@.len() ==> #[trigger] part@[i] == text@[from + i],
{
}

} // verus!
