//! The fields in a line of the log.

use vstd::prelude::*;
use vstd::string::*;

use crate::text;

verus! {

/// A character that ends the value of a field.
pub open spec fn ends_value(c: char) -> bool {
    c == '"' || c == '}' || c == ':' || c == ')' || c == ',' || c == ' ' || c == '\t'
}

/// Where a value that begins at `from` ends.
pub open spec fn value_end(s: Seq<char>, from: int) -> int
    decreases s.len() - from,
{
    if 0 <= from < s.len() && !ends_value(s[from]) {
        value_end(s, from + 1)
    } else {
        from
    }
}

/// Where the next quotation mark is, or the end.
pub open spec fn quote_end(s: Seq<char>, from: int) -> int
    decreases s.len() - from,
{
    if 0 <= from < s.len() && s[from] != '"' {
        quote_end(s, from + 1)
    } else {
        from
    }
}

/// The value of a field: what stands behind the first `key=`, in quotation marks
/// or up to the next mark.
pub open spec fn field(message: Seq<char>, key: Seq<char>) -> Option<Seq<char>> {
    match text::after_first(message, key + "="@) {
        None => None,
        Some(value) => Some(
            if value.len() > 0 && value[0] == '"' {
                value.subrange(1, quote_end(value, 1))
            } else {
                value.take(value_end(value, 0))
            },
        ),
    }
}

/// The value of a field.
pub fn parse_field(message: &str, key: &str) -> (value: Option<String>)
    ensures
        value.deep_view() == field(message@, key@),
{
    let mut pattern = key.to_owned();
    pattern.append("=");
    let chars = text::chars_of(message);
    match text::rest_after(chars.as_slice(), pattern.as_str()) {
        None => None,
        Some(value) => {
            if value.len() > 0 && value[0] == '"' {
                let mut end: usize = 1;
                while end < value.len() && value[end] != '"'
                    invariant
                        1 <= end <= value@.len(),
                        quote_end(value@, 1) == quote_end(value@, end as int),
                    decreases value@.len() - end,
                {
                    end = end + 1;
                }
                let inner = vstd::slice::slice_subrange(value, 1, end);
                Some(text::string_of(inner))
            } else {
                let mut end: usize = 0;
                while end < value.len() && !is_value_end(value[end])
                    invariant
                        end <= value@.len(),
                        value_end(value@, 0) == value_end(value@, end as int),
                    decreases value@.len() - end,
                {
                    end = end + 1;
                }
                let inner = vstd::slice::slice_subrange(value, 0, end);
                assert(inner@ == value@.take(end as int));
                Some(text::string_of(inner))
            }
        },
    }
}

fn is_value_end(c: char) -> (r: bool)
    ensures
        r == ends_value(c),
{
    c == '"' || c == '}' || c == ':' || c == ')' || c == ',' || c == ' ' || c == '\t'
}

/// Where the white space from `from` on ends.
pub open spec fn space_end(s: Seq<char>, from: int) -> int
    decreases s.len() - from,
{
    if 0 <= from < s.len() && text::is_whitespace(s[from]) {
        space_end(s, from + 1)
    } else {
        from
    }
}

/// Where the word from `from` on ends.
pub open spec fn word_end(s: Seq<char>, from: int) -> int
    decreases s.len() - from,
{
    if 0 <= from < s.len() && !text::is_whitespace(s[from]) {
        word_end(s, from + 1)
    } else {
        from
    }
}

/// The words of a text from `from` on.
pub open spec fn words_from(s: Seq<char>, from: int) -> Seq<Seq<char>>
    decreases s.len() - from,
{
    let start = space_end(s, from);
    let end = word_end(s, start);
    if from < end <= s.len() && start < s.len() {
        seq![s.subrange(start, end)] + words_from(s, end)
    } else {
        Seq::empty()
    }
}

/// Where the digits and minus signs from `from` on end.
pub open spec fn number_end(s: Seq<char>, from: int) -> int
    decreases s.len() - from,
{
    if 0 <= from < s.len() && (text::is_digit(s[from]) || s[from] == '-') {
        number_end(s, from + 1)
    } else {
        from
    }
}

/// The number that a text is, where it fits.
pub open spec fn small_int(s: Seq<char>) -> Option<i64> {
    match text::parse_int(s) {
        Some(n) if i64::MIN <= n <= i64::MAX => Some(n as i64),
        _ => None,
    }
}

/// The number at the start of a value. It may be written as an option.
pub open spec fn leading_number(value: Seq<char>, optional: bool) -> Option<i64> {
    let bare = if optional {
        text::without_prefix(value, "Some("@)
    } else {
        value
    };
    small_int(bare.take(number_end(bare, 0)))
}

/// The number that a word `key=..` gives.
pub open spec fn metric_in(word: Seq<char>, key: Seq<char>, optional: bool) -> Option<i64> {
    let pattern = key + "="@;
    if text::starts_with(word, pattern) {
        leading_number(word.skip(pattern.len() as int), optional)
    } else {
        None
    }
}

/// The number that the first of some words gives that gives one.
pub open spec fn first_metric(words: Seq<Seq<char>>, key: Seq<char>, optional: bool) -> Option<i64>
    decreases words.len(),
{
    if words.len() == 0 {
        None
    } else {
        match metric_in(words[0], key, optional) {
            Some(n) => Some(n),
            None => first_metric(words.drop_first(), key, optional),
        }
    }
}

/// The number in a message, which may be written as an option.
pub open spec fn metric(message: Seq<char>, key: Seq<char>, optional: bool) -> Option<i64> {
    first_metric(words_from(message, 0), key, optional)
}

fn number_of_word(word: &[char], pattern: &[char], optional: bool) -> (n: Option<i64>)
    ensures
        n == (if text::starts_with(word@, pattern@) {
            leading_number(word@.skip(pattern@.len() as int), optional)
        } else {
            None
        }),
{
    if !text::matches_at(word, pattern, 0) {
        return None;
    }
    let value = vstd::slice::slice_subrange(word, pattern.len(), word.len());
    assert(value@ == word@.skip(pattern@.len() as int));
    proof {
        reveal_strlit("Some(");
    }
    let bare = if optional && text::has_prefix(value, "Some(") {
        let bare = vstd::slice::slice_subrange(value, 5, value.len());
        assert(bare@ == value@.skip(5));
        bare
    } else {
        value
    };
    let mut end: usize = 0;
    while end < bare.len() && (('0' <= bare[end] && bare[end] <= '9') || bare[end] == '-')
        invariant
            end <= bare@.len(),
            number_end(bare@, 0) == number_end(bare@, end as int),
        decreases bare@.len() - end,
    {
        end = end + 1;
    }
    let digits = vstd::slice::slice_subrange(bare, 0, end);
    assert(digits@ == bare@.take(end as int));
    text::parse_i64(digits)
}

fn find_metric(message: &str, key: &str, optional: bool) -> (n: Option<i64>)
    ensures
        n == metric(message@, key@, optional),
{
    let chars = text::chars_of(message);
    let mut pattern = text::chars_of(key);
    pattern.push('=');
    proof {
        reveal_strlit("=");
        assert(pattern@ =~= key@ + "="@);
    }
    let ghost all = words_from(message@, 0);
    let mut pos: usize = 0;
    loop
        invariant
            chars@ == message@,
            pattern@ == key@ + "="@,
            pos <= chars@.len(),
            metric(message@, key@, optional) == first_metric(
                words_from(message@, pos as int),
                key@,
                optional,
            ),
        decreases chars@.len() - pos,
    {
        let mut start: usize = pos;
        while start < chars.len() && text::char_is_whitespace(chars[start])
            invariant
                pos <= start <= chars@.len(),
                space_end(chars@, pos as int) == space_end(chars@, start as int),
            decreases chars@.len() - start,
        {
            start = start + 1;
        }
        if start >= chars.len() {
            assert(words_from(message@, pos as int) =~= Seq::empty());
            return None;
        }
        let mut end: usize = start;
        while end < chars.len() && !text::char_is_whitespace(chars[end])
            invariant
                start <= end <= chars@.len(),
                word_end(chars@, start as int) == word_end(chars@, end as int),
            decreases chars@.len() - end,
        {
            end = end + 1;
        }
        let word = vstd::slice::slice_subrange(chars.as_slice(), start, end);
        let ghost words = words_from(message@, pos as int);
        proof {
            assert(!text::is_whitespace(chars@[start as int]));
            assert(end > start) by {
                lemma_word_end(chars@, start as int);
            }
            assert(words[0] == word@);
            assert(words.drop_first() =~= words_from(message@, end as int));
        }
        if let Some(n) = number_of_word(word, pattern.as_slice(), optional) {
            return Some(n);
        }
        pos = end;
    }
}

proof fn lemma_word_end(s: Seq<char>, from: int)
    requires
        0 <= from < s.len(),
        !text::is_whitespace(s[from]),
    ensures
        word_end(s, from) > from,
{
    lemma_word_end_grows(s, from + 1);
}

proof fn lemma_word_end_grows(s: Seq<char>, from: int)
    requires
        0 <= from,
    ensures
        word_end(s, from) >= from,
    decreases s.len() - from,
{
    if from < s.len() && !text::is_whitespace(s[from]) {
        lemma_word_end_grows(s, from + 1);
    }
}

/// The number in a message.
pub fn parse_metric(message: &str, key: &str) -> (n: Option<i64>)
    ensures
        n == metric(message@, key@, false),
{
    find_metric(message, key, false)
}

/// The number in a message, which may be written as an option.
pub fn parse_optional_metric(message: &str, key: &str) -> (n: Option<i64>)
    ensures
        n == metric(message@, key@, true),
{
    find_metric(message, key, true)
}

} // verus!
