//! What is read from a line of the log is what was written into it.

use vstd::prelude::*;
use vstd::string::*;

use crate::stats::fields;
use crate::text;

verus! {

proof fn lemma_quote_end(s: Seq<char>, from: int, end: int)
    requires
        0 <= from <= end <= s.len(),
        end < s.len() ==> s[end] == '"',
        forall|i: int| from <= i < end ==> s[i] != '"',
    ensures
        fields::quote_end(s, from) == end,
    decreases end - from,
{
    if from < end {
        lemma_quote_end(s, from + 1, end);
    }
}

proof fn lemma_value_end(s: Seq<char>, from: int, end: int)
    requires
        0 <= from <= end <= s.len(),
        end < s.len() ==> fields::ends_value(s[end]),
        forall|i: int| from <= i < end ==> !fields::ends_value(s[i]),
    ensures
        fields::value_end(s, from) == end,
    decreases end - from,
{
    if from < end {
        lemma_value_end(s, from + 1, end);
    }
}

/// A character that a bare value cannot have: a quotation mark, a bracket, a
/// colon, a comma, a blank or a tab.
pub open spec fn is_stop(c: char) -> bool {
    c == '"' || c == '}' || c == ')' || c == ':' || c == ',' || c == ' ' || c == '\t'
}

/// A value in quotation marks is read up to the closing one, or to the end where
/// there is none, whatever else is in it.
pub proof fn law_quoted_values_are_read_whole(
    before: Seq<char>,
    key: Seq<char>,
    value: Seq<char>,
    rest: Seq<char>,
)
    requires
        !value.contains('"'),
        rest.len() > 0 ==> rest[0] == '"',
        ({
            let message = before + (key + seq!['=']) + (seq!['"'] + value + rest);
            forall|i: int|
                0 <= i < before.len() ==> !#[trigger] text::occurs_at(
                    message,
                    key + seq!['='],
                    i,
                )
        }),
    ensures
        fields::field(before + (key + seq!['=']) + (seq!['"'] + value + rest), key) == Some(value),
{
    reveal_strlit("=");
    assert("="@ =~= seq!['=']);
    let tail = seq!['"'] + value + rest;
    text::laws::law_rest_is_behind_the_mark(before, key + seq!['='], tail);
    let end = 1 + value.len() as int;
    assert forall|i: int| 1 <= i < end implies tail[i] != '"' by {
        assert(tail[i] == value[i - 1]);
    }
    lemma_quote_end(tail, 1, end);
    assert(tail.subrange(1, end) =~= value);
}

/// A bare value is read up to the first character that it cannot have, or to the
/// end.
pub proof fn law_bare_values_are_read_whole(
    before: Seq<char>,
    key: Seq<char>,
    value: Seq<char>,
    rest: Seq<char>,
)
    requires
        forall|i: int| 0 <= i < value.len() ==> !is_stop(#[trigger] value[i]),
        rest.len() > 0 ==> is_stop(rest[0]),
        value.len() == 0 && rest.len() > 0 ==> rest[0] != '"',
        ({
            let message = before + (key + seq!['=']) + (value + rest);
            forall|i: int|
                0 <= i < before.len() ==> !#[trigger] text::occurs_at(
                    message,
                    key + seq!['='],
                    i,
                )
        }),
    ensures
        fields::field(before + (key + seq!['=']) + (value + rest), key) == Some(value),
{
    reveal_strlit("=");
    assert("="@ =~= seq!['=']);
    let tail = value + rest;
    text::laws::law_rest_is_behind_the_mark(before, key + seq!['='], tail);
    let end = value.len() as int;
    assert forall|i: int| 0 <= i < end implies !fields::ends_value(tail[i]) by {
        assert(tail[i] == value[i]);
        assert(!is_stop(value[i]));
    }
    if rest.len() > 0 {
        assert(tail[end] == rest[0]);
    }
    if end > 0 {
        assert(tail[0] == value[0]);
        assert(!is_stop(value[0]));
    }
    lemma_value_end(tail, 0, end);
    assert(tail.take(end) =~= value);
}

/// A message without the key has no such field.
pub proof fn law_missing_fields_are_not_read(message: Seq<char>, key: Seq<char>)
    requires
        forall|i: int| !#[trigger] text::occurs_at(message, key + seq!['='], i),
    ensures
        fields::field(message, key) is None,
{
    reveal_strlit("=");
    assert("="@ =~= seq!['=']);
    text::laws::law_missing_marks_are_not_found(message, key + seq!['=']);
}

proof fn lemma_space_end_shifts(s: Seq<char>, k: int, from: int)
    requires
        0 <= k <= from <= s.len(),
    ensures
        fields::space_end(s.skip(k), from - k) == fields::space_end(s, from) - k,
        from <= fields::space_end(s, from) <= s.len(),
    decreases s.len() - from,
{
    if from < s.len() {
        assert(s.skip(k)[from - k] == s[from]);
        if text::is_whitespace(s[from]) {
            lemma_space_end_shifts(s, k, from + 1);
        }
    }
}

proof fn lemma_word_end_shifts(s: Seq<char>, k: int, from: int)
    requires
        0 <= k <= from <= s.len(),
    ensures
        fields::word_end(s.skip(k), from - k) == fields::word_end(s, from) - k,
        from <= fields::word_end(s, from) <= s.len(),
    decreases s.len() - from,
{
    if from < s.len() {
        assert(s.skip(k)[from - k] == s[from]);
        if !text::is_whitespace(s[from]) {
            lemma_word_end_shifts(s, k, from + 1);
        }
    }
}

proof fn lemma_words_shift(s: Seq<char>, k: int, from: int)
    requires
        0 <= k <= from <= s.len(),
    ensures
        fields::words_from(s.skip(k), from - k) == fields::words_from(s, from),
    decreases s.len() - from,
{
    let rest = s.skip(k);
    lemma_space_end_shifts(s, k, from);
    let start = fields::space_end(s, from);
    lemma_word_end_shifts(s, k, start);
    let end = fields::word_end(s, start);
    assert(fields::space_end(rest, from - k) == start - k);
    assert(fields::word_end(rest, start - k) == end - k);
    if from < end && start < s.len() {
        assert(rest.subrange(start - k, end - k) =~= s.subrange(start, end));
        lemma_words_shift(s, k, end);
    }
}

proof fn lemma_word_end_is(s: Seq<char>, from: int, end: int)
    requires
        0 <= from <= end <= s.len(),
        end < s.len() ==> text::is_whitespace(s[end]),
        forall|i: int| from <= i < end ==> !text::is_whitespace(#[trigger] s[i]),
    ensures
        fields::word_end(s, from) == end,
    decreases end - from,
{
    if from < end {
        assert(!text::is_whitespace(s[from]));
        lemma_word_end_is(s, from + 1, end);
    }
}

/// The words of a text are what white space parts: a word in front comes before
/// the words of the rest, and white space in front makes no difference.
pub proof fn law_words_are_parted_by_white_space(word: Seq<char>, c: char, rest: Seq<char>)
    requires
        word.len() > 0,
        forall|i: int| 0 <= i < word.len() ==> !text::is_whitespace(#[trigger] word[i]),
        text::is_whitespace(c),
    ensures
        fields::words_from(Seq::empty(), 0) == Seq::<Seq<char>>::empty(),
        fields::words_from(seq![c] + rest, 0) == fields::words_from(rest, 0),
        fields::words_from(word, 0) == seq![word],
        fields::words_from(word + seq![c] + rest, 0) == seq![word] + fields::words_from(rest, 0),
{
    assert(fields::words_from(Seq::<char>::empty(), 0) =~= Seq::<Seq<char>>::empty());
    let spaced = seq![c] + rest;
    lemma_leading_space(c, rest);
    let n = word.len() as int;
    assert(!text::is_whitespace(word[0]));
    lemma_word_end_is(word, 0, n);
    assert(word.subrange(0, n) =~= word);
    assert(fields::words_from(word, n) =~= Seq::<Seq<char>>::empty());
    assert(fields::words_from(word, 0) =~= seq![word]);
    let s = word + seq![c] + rest;
    assert forall|i: int| 0 <= i < n implies !text::is_whitespace(#[trigger] s[i]) by {
        assert(s[i] == word[i]);
    }
    assert(s[0] == word[0]);
    assert(s[n] == c);
    lemma_word_end_is(s, 0, n);
    assert(s.subrange(0, n) =~= word);
    lemma_words_shift(s, n, n);
    assert(s.skip(n) =~= spaced);
}

proof fn lemma_leading_space(c: char, rest: Seq<char>)
    requires
        text::is_whitespace(c),
    ensures
        fields::words_from(seq![c] + rest, 0) == fields::words_from(rest, 0),
{
    let s = seq![c] + rest;
    assert(s.skip(1) =~= rest);
    lemma_words_shift(s, 1, 1);
    lemma_space_end_shifts(s, 1, 1);
    assert(s[0] == c);
    assert(fields::space_end(s, 0) == fields::space_end(s, 1));
    let start = fields::space_end(s, 1);
    lemma_word_end_shifts(s, 1, start);
    let end = fields::word_end(s, start);
    if start < s.len() {
        assert(!text::is_whitespace(s[start])) by {
            lemma_space_end_stops(s, 1);
        }
        lemma_word_end_shifts(s, 1, start + 1);
        assert(end >= start + 1);
        assert(fields::words_from(s, 0) == seq![s.subrange(start, end)] + fields::words_from(
            s,
            end,
        ));
        assert(fields::words_from(s, 1) == seq![s.subrange(start, end)] + fields::words_from(
            s,
            end,
        ));
    } else {
        assert(fields::words_from(s, 0) =~= Seq::<Seq<char>>::empty());
        assert(fields::words_from(s, 1) =~= Seq::<Seq<char>>::empty());
    }
}

proof fn lemma_space_end_stops(s: Seq<char>, from: int)
    requires
        0 <= from <= s.len(),
    ensures
        fields::space_end(s, from) < s.len() ==> !text::is_whitespace(
            s[fields::space_end(s, from)],
        ),
    decreases s.len() - from,
{
    if from < s.len() && text::is_whitespace(s[from]) {
        lemma_space_end_stops(s, from + 1);
    }
}

/// The first word that gives a number for a key gives the number of the message.
pub proof fn law_first_number_counts(
    word: Seq<char>,
    c: char,
    rest: Seq<char>,
    key: Seq<char>,
    optional: bool,
)
    requires
        word.len() > 0,
        forall|i: int| 0 <= i < word.len() ==> !text::is_whitespace(#[trigger] word[i]),
        text::is_whitespace(c),
    ensures
        fields::metric(Seq::empty(), key, optional) is None,
        fields::metric(word, key, optional) == fields::metric_in(word, key, optional),
        fields::metric(seq![c] + rest, key, optional) == fields::metric(rest, key, optional),
        fields::metric(word + seq![c] + rest, key, optional) == (match fields::metric_in(
            word,
            key,
            optional,
        ) {
            Some(n) => Some(n),
            None => fields::metric(rest, key, optional),
        }),
{
    law_words_are_parted_by_white_space(word, c, rest);
    let one = seq![word];
    assert(one.drop_first() =~= Seq::<Seq<char>>::empty());
    assert(fields::first_metric(one.drop_first(), key, optional) is None);
    let all = seq![word] + fields::words_from(rest, 0);
    assert(all.drop_first() =~= fields::words_from(rest, 0));
}

proof fn lemma_number_end(s: Seq<char>, from: int, end: int)
    requires
        0 <= from <= end <= s.len(),
        end < s.len() ==> !text::is_digit(s[end]) && s[end] != '-',
        forall|i: int| from <= i < end ==> text::is_digit(#[trigger] s[i]) || s[i] == '-',
    ensures
        fields::number_end(s, from) == end,
    decreases end - from,
{
    if from < end {
        assert(text::is_digit(s[from]) || s[from] == '-');
        lemma_number_end(s, from + 1, end);
    }
}

proof fn lemma_leading_number(n: int, rest: Seq<char>)
    requires
        i64::MIN <= n <= i64::MAX,
        rest.len() > 0 ==> !text::is_digit(rest[0]) && rest[0] != '-',
    ensures
        ({
            let s = text::signed_decimal(n) + rest;
            fields::small_int(s.take(fields::number_end(s, 0))) == Some(n as i64)
        }),
{
    let digits = text::signed_decimal(n);
    let s = digits + rest;
    let m = if n < 0 {
        (-n) as nat
    } else {
        n as nat
    };
    text::lemma_decimal_digits(m);
    text::laws::law_numbers_are_read_as_written(m);
    assert forall|i: int| 0 <= i < digits.len() implies text::is_digit(#[trigger] s[i]) || s[i]
        == '-' by {
        assert(s[i] == digits[i]);
        if n < 0 {
            if i > 0 {
                assert(digits[i] == text::decimal(m)[i - 1]);
            }
        } else {
            assert(digits[i] == text::decimal(m)[i]);
        }
    }
    if rest.len() > 0 {
        assert(s[digits.len() as int] == rest[0]);
    }
    lemma_number_end(s, 0, digits.len() as int);
    assert(s.take(digits.len() as int) =~= digits);
}

/// A number that was written behind its key is the number that is read, whatever
/// stands behind its digits. Written as an option it is read only where an option
/// is looked for.
pub proof fn law_numbers_are_read_behind_their_key(key: Seq<char>, n: int, rest: Seq<char>)
    requires
        i64::MIN <= n <= i64::MAX,
        rest.len() > 0 ==> !text::is_digit(rest[0]) && rest[0] != '-',
    ensures
        fields::metric_in(key + seq!['='] + text::signed_decimal(n) + rest, key, false) == Some(
            n as i64,
        ),
        fields::metric_in(key + seq!['='] + text::signed_decimal(n) + rest, key, true) == Some(
            n as i64,
        ),
        fields::metric_in(
            key + seq!['='] + ("Some("@ + text::signed_decimal(n) + rest),
            key,
            true,
        ) == Some(n as i64),
        fields::metric_in(
            key + seq!['='] + ("Some("@ + text::signed_decimal(n) + rest),
            key,
            false,
        ) is None,
{
    reveal_strlit("=");
    reveal_strlit("Some(");
    assert("="@ =~= seq!['=']);
    let some = "Some("@;
    let pattern = key + seq!['='];
    let k = pattern.len() as int;
    let digits = text::signed_decimal(n);
    lemma_leading_number(n, rest);
    let plain = pattern + digits + rest;
    assert(plain.subrange(0, k) =~= pattern);
    assert(plain.skip(k) =~= digits + rest);
    let value = digits + rest;
    if text::starts_with(value, some) {
        assert(value.subrange(0, 5)[0] == 'S');
        let m = if n < 0 {
            (-n) as nat
        } else {
            n as nat
        };
        text::lemma_decimal_digits(m);
        assert(value[0] == digits[0]);
        if n >= 0 {
            assert('0' <= text::decimal(m)[0] <= '9');
        }
    }
    let optional = pattern + (some + digits + rest);
    assert(optional.subrange(0, k) =~= pattern);
    assert(optional.skip(k) =~= some + digits + rest);
    let wrapped = some + digits + rest;
    assert(wrapped.subrange(0, 5) =~= some);
    assert(wrapped.skip(5) =~= digits + rest);
    assert(wrapped[0] == 'S');
    assert(fields::number_end(wrapped, 0) == 0);
    assert(wrapped.take(0) =~= Seq::<char>::empty());
    assert(text::parse_int(Seq::<char>::empty()) is None);
}

/// A word that does not begin with its key gives no number.
pub proof fn law_other_words_give_no_number(word: Seq<char>, key: Seq<char>, optional: bool)
    requires
        !(key + seq!['=']).is_prefix_of(word),
    ensures
        fields::metric_in(word, key, optional) is None,
{
    reveal_strlit("=");
    assert("="@ =~= seq!['=']);
}

} // verus!
