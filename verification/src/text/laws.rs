//! What the operations on texts come to.

use vstd::prelude::*;

use crate::text;

verus! {

/// White space is what Unicode calls so.
pub proof fn law_white_space(c: char)
    ensures
        text::is_whitespace(c) == (c == '\t' || c == '\n' || c == '\u{b}' || c == '\u{c}' || c
            == '\r' || c == ' ' || c == '\u{85}' || c == '\u{a0}' || c == '\u{1680}' || c
            == '\u{2000}' || c == '\u{2001}' || c == '\u{2002}' || c == '\u{2003}' || c
            == '\u{2004}' || c == '\u{2005}' || c == '\u{2006}' || c == '\u{2007}' || c
            == '\u{2008}' || c == '\u{2009}' || c == '\u{200a}' || c == '\u{2028}' || c
            == '\u{2029}' || c == '\u{202f}' || c == '\u{205f}' || c == '\u{3000}'),
{
}

/// A trimmed text is the part of the text between its first and its last
/// character that is no white space; of a blank text nothing is left.
pub proof fn law_trimming_takes_only_white_space(s: Seq<char>) -> (ends: (int, int))
    ensures
        0 <= ends.0 <= ends.1 <= s.len(),
        text::trim(s) == s.subrange(ends.0, ends.1),
        forall|i: int| 0 <= i < ends.0 ==> text::is_whitespace(#[trigger] s[i]),
        forall|i: int| ends.1 <= i < s.len() ==> text::is_whitespace(#[trigger] s[i]),
        ends.0 < ends.1 ==> !text::is_whitespace(s[ends.0]) && !text::is_whitespace(s[ends.1 - 1]),
{
    let start = lemma_trim_start(s);
    let rest = text::trim_start(s);
    let end = lemma_trim_end(rest);
    assert(rest.take(end) =~= s.subrange(start, start + end));
    assert forall|i: int| start + end <= i < s.len() implies text::is_whitespace(
        #[trigger] s[i],
    ) by {
        assert(rest[i - start] == s[i]);
    }
    if end > 0 {
        assert(rest[0] == s[start]);
        assert(rest[end - 1] == s[start + end - 1]);
    }
    (start, start + end)
}

/// Trimming at the start takes the white space there, and nothing else.
pub proof fn lemma_trim_start(s: Seq<char>) -> (start: int)
    ensures
        0 <= start <= s.len(),
        text::trim_start(s) == s.skip(start),
        forall|i: int| 0 <= i < start ==> text::is_whitespace(#[trigger] s[i]),
        start < s.len() ==> !text::is_whitespace(s[start]),
    decreases s.len(),
{
    if s.len() > 0 && text::is_whitespace(s[0]) {
        let rest = s.drop_first();
        let n = lemma_trim_start(rest);
        assert(rest.skip(n) =~= s.skip(n + 1));
        assert forall|i: int| 0 <= i < n + 1 implies text::is_whitespace(#[trigger] s[i]) by {
            if i > 0 {
                assert(rest[i - 1] == s[i]);
            }
        }
        if n < rest.len() {
            assert(rest[n] == s[n + 1]);
        }
        n + 1
    } else {
        assert(s.skip(0) =~= s);
        0
    }
}

proof fn lemma_trim_end(s: Seq<char>) -> (end: int)
    ensures
        0 <= end <= s.len(),
        text::trim_end(s) == s.take(end),
        forall|i: int| end <= i < s.len() ==> text::is_whitespace(#[trigger] s[i]),
        end > 0 ==> !text::is_whitespace(s[end - 1]),
    decreases s.len(),
{
    if s.len() > 0 && text::is_whitespace(s.last()) {
        let rest = s.drop_last();
        let n = lemma_trim_end(rest);
        assert(rest.take(n) =~= s.take(n));
        assert forall|i: int| n <= i < s.len() implies text::is_whitespace(#[trigger] s[i]) by {
            if i < rest.len() {
                assert(rest[i] == s[i]);
            }
        }
        n
    } else {
        assert(s.take(s.len() as int) =~= s);
        s.len() as int
    }
}

/// A number that was written is the number that is read.
pub proof fn law_numbers_are_read_as_written(n: nat)
    ensures
        text::parse_nat(text::decimal(n)) == Some(n),
        text::parse_int(text::signed_decimal(n as int)) == Some(n as int),
        n > 0 ==> text::parse_int(text::signed_decimal(-n)) == Some(-n),
        n > 0 ==> text::decimal(n)[0] != '0',
{
    lemma_decimal_value(n);
    text::lemma_decimal_digits(n);
    let digits = text::decimal(n);
    assert('0' <= digits[0] <= '9');
    if n > 0 {
        let negative = text::signed_decimal(-n);
        assert(negative =~= seq!['-'] + digits);
        assert(negative.drop_first() =~= digits);
    }
}

proof fn lemma_decimal_value(n: nat)
    ensures
        text::digits_value(text::decimal(n)) == n,
        n > 0 ==> text::decimal(n)[0] != '0',
    decreases n,
{
    let d = n % 10;
    assert(text::digit_char(d) as u32 == 48 + d);
    if n < 10 {
        assert(seq![text::digit_char(n)].drop_last() =~= Seq::<char>::empty());
        assert(text::digits_value(Seq::<char>::empty()) == 0);
    } else {
        lemma_decimal_value(n / 10);
        text::lemma_decimal_digits(n / 10);
        let front = text::decimal(n / 10);
        assert(front.push(text::digit_char(d)).drop_last() =~= front);
    }
}

/// Parts are joined with one separator between each two: two lists of parts in a
/// row come to their joined texts with a separator between.
pub proof fn law_joining_puts_separators_between(
    parts: Seq<Seq<char>>,
    others: Seq<Seq<char>>,
    one: Seq<char>,
    sep: Seq<char>,
)
    requires
        parts.len() > 0,
        others.len() > 0,
    ensures
        text::join(Seq::empty(), sep) == Seq::<char>::empty(),
        text::join(seq![one], sep) == one,
        text::join(parts + others, sep) == text::join(parts, sep) + sep + text::join(others, sep),
    decreases others.len(),
{
    let all = parts + others;
    if others.len() == 1 {
        assert(all.drop_last() =~= parts);
    } else {
        law_joining_puts_separators_between(parts, others.drop_last(), one, sep);
        assert(all.drop_last() =~= parts + others.drop_last());
        assert(text::join(all, sep) =~= text::join(parts, sep) + sep + text::join(others, sep));
    }
}

/// A text is cut into lines at its newlines: a line that is ended by one comes
/// before the lines of the rest, without the newline and without a carriage
/// return in front of it; and a rest without newlines is a line, unless it is
/// empty.
pub proof fn law_lines_end_at_newlines(line: Seq<char>, rest: Seq<char>)
    requires
        !line.contains('\n'),
    ensures
        text::lines(Seq::empty()) == Seq::<Seq<char>>::empty(),
        line.len() > 0 ==> text::lines(line) == seq![line],
        line.len() == 0 || line.last() != '\r' ==> text::lines(line + seq!['\n'] + rest) == seq![
            line,
        ] + text::lines(rest),
        text::lines(line + seq!['\r', '\n'] + rest) == seq![line] + text::lines(rest),
{
    assert(text::lines(Seq::<char>::empty()) =~= Seq::<Seq<char>>::empty());
    if line.len() > 0 {
        lemma_line_end_is(line, 0, line.len() as int);
        assert(text::line_at(line, 0) =~= line);
        assert(text::lines_from(line, line.len() as int) =~= Seq::<Seq<char>>::empty());
        assert(text::lines(line) =~= seq![line]);
    }
    if line.len() == 0 || line.last() != '\r' {
        let s = line + seq!['\n'] + rest;
        let n = line.len() as int;
        lemma_line_end_is(s, 0, n);
        assert(text::line_at(s, 0) =~= line);
        assert(s.skip(n + 1) =~= rest);
        lemma_lines_of_rest(s, n + 1);
    }
    let s = line + seq!['\r', '\n'] + rest;
    let n = line.len() as int;
    lemma_line_end_is(s, 0, n + 1);
    assert(text::line_at(s, 0) =~= line);
    assert(s.skip(n + 2) =~= rest);
    lemma_lines_of_rest(s, n + 2);
}

proof fn lemma_line_end_is(s: Seq<char>, from: int, end: int)
    requires
        0 <= from <= end <= s.len(),
        end == s.len() || s[end] == '\n',
        forall|i: int| from <= i < end ==> s[i] != '\n',
    ensures
        text::line_end(s, from) == end,
{
    text::lemma_line_end(s, from);
}

proof fn lemma_line_end_shifts(s: Seq<char>, k: int, from: int)
    requires
        0 <= k <= from <= s.len(),
    ensures
        text::line_end(s.skip(k), from - k) == text::line_end(s, from) - k,
    decreases s.len() - from,
{
    let rest = s.skip(k);
    text::lemma_line_end(s, from);
    let end = text::line_end(s, from);
    assert forall|i: int| from - k <= i < end - k implies rest[i] != '\n' by {
        assert(rest[i] == s[i + k]);
    }
    lemma_line_end_is(rest, from - k, end - k);
}

proof fn lemma_lines_shift(s: Seq<char>, k: int, from: int)
    requires
        0 <= k <= from <= s.len(),
    ensures
        text::lines_from(s.skip(k), from - k) == text::lines_from(s, from),
    decreases s.len() - from,
{
    let rest = s.skip(k);
    if from < s.len() {
        text::lemma_line_end(s, from);
        lemma_line_end_shifts(s, k, from);
        let end = text::line_end(s, from);
        assert(text::next_line(rest, from - k) == text::next_line(s, from) - k);
        if end > from {
            assert(rest[end - k - 1] == s[end - 1]);
            assert(rest.subrange(from - k, end - k - 1) =~= s.subrange(from, end - 1));
        }
        assert(rest.subrange(from - k, end - k) =~= s.subrange(from, end));
        lemma_lines_shift(s, k, text::next_line(s, from));
    }
}

proof fn lemma_lines_of_rest(s: Seq<char>, k: int)
    requires
        0 <= k <= s.len(),
    ensures
        text::lines_from(s, k) == text::lines(s.skip(k)),
{
    lemma_lines_shift(s, k, k);
}

/// Of two texts the one comes first that is smaller in the first character in
/// which they differ, or that ends there.
pub proof fn law_text_order(
    front: Seq<char>,
    a: char,
    b: char,
    left: Seq<char>,
    right: Seq<char>,
)
    requires
        a < b,
    ensures
        text::lex_before(front + seq![a] + left, front + seq![b] + right),
        !text::lex_before(front + seq![b] + right, front + seq![a] + left),
        text::lex_before(front, front + seq![a] + left),
        !text::lex_before(front + seq![a] + left, front),
    decreases front.len(),
{
    let x = front + seq![a] + left;
    let y = front + seq![b] + right;
    if front.len() > 0 {
        law_text_order(front.drop_first(), a, b, left, right);
        assert(x.drop_first() =~= front.drop_first() + seq![a] + left);
        assert(y.drop_first() =~= front.drop_first() + seq![b] + right);
    }
}

/// Only the capital letters of ASCII change: each becomes its small letter.
pub proof fn law_lower_case(s: Seq<char>, i: int)
    requires
        0 <= i < s.len(),
    ensures
        text::to_ascii_lower(s).len() == s.len(),
        'A' <= s[i] <= 'Z' ==> text::to_ascii_lower(s)[i] as u32 == s[i] as u32 - 'A' as u32
            + 'a' as u32,
        !('A' <= s[i] <= 'Z') ==> text::to_ascii_lower(s)[i] == s[i],
{
}

/// What stands behind a mark is what was put there, as long as the mark stands
/// nowhere before, or nowhere behind.
pub proof fn law_rest_is_behind_the_mark(before: Seq<char>, mark: Seq<char>, rest: Seq<char>)
    requires
        mark.len() > 0,
    ensures
        ({
            let s = before + mark + rest;
            &&& (forall|i: int|
                0 <= i < before.len() ==> !#[trigger] text::occurs_at(s, mark, i))
                ==> text::after_first(s, mark) == Some(rest)
            &&& (forall|i: int| before.len() < i ==> !#[trigger] text::occurs_at(s, mark, i))
                ==> text::after_last(s, mark) == rest
        }),
{
    let s = before + mark + rest;
    let n = before.len() as int;
    assert(s.subrange(n, n + mark.len()) =~= mark);
    assert(text::occurs_at(s, mark, n));
    text::lemma_find_from(s, mark, 0);
    text::lemma_rfind_from(s, mark, s.len() as int);
    assert(s.skip(n + mark.len()) =~= rest);
}

/// Where a mark stands nowhere, there is nothing behind it.
pub proof fn law_missing_marks_are_not_found(s: Seq<char>, mark: Seq<char>)
    requires
        forall|i: int| !#[trigger] text::occurs_at(s, mark, i),
    ensures
        text::after_first(s, mark) is None,
        text::after_last(s, mark) == s,
{
    text::lemma_find_from(s, mark, 0);
    text::lemma_rfind_from(s, mark, s.len() as int);
}

} // verus!
