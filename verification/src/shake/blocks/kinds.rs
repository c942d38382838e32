//! What makes a block: two fences, or an opening tag and the tag that closes it.

use vstd::prelude::*;
use vstd::string::*;

use crate::shake::blocks::begins_line;
use crate::shake::blocks::block_spans;
use crate::shake::blocks::closing_tag;
use crate::shake::blocks::is_fence_line;
use crate::shake::blocks::is_tag_char;
use crate::shake::blocks::opening_tag;
use crate::shake::blocks::outermost;
use crate::shake::blocks::scan_from;
use crate::shake::blocks::scan_init;
use crate::shake::blocks::scan_line;
use crate::shake::blocks::spans_before;
use crate::shake::blocks::tag_name_len;
use crate::shake::blocks::ScanState;
use crate::text;

verus! {

/// The line that begins at `p`.
pub open spec fn line_from(s: Seq<char>, p: int) -> Seq<char> {
    s.subrange(p, text::line_end(s, p))
}

/// A line that begins with three backquotes or three tildes, however far it is
/// indented.
pub open spec fn is_fence(line: Seq<char>) -> bool {
    let words = text::trim_start(line);
    words.len() >= 3 && (words.take(3) == seq!['`', '`', '`'] || words.take(3) == seq![
        '~',
        '~',
        '~',
    ])
}

/// A character that the name of a tag may have: a letter, an underscore or a
/// hyphen.
pub open spec fn may_name_tag(c: char) -> bool {
    'a' <= c <= 'z' || c == '_' || c == '-'
}

/// A line that begins, without any indentation, with a tag of that name, in
/// whatever case.
pub open spec fn opens_tag(line: Seq<char>, name: Seq<char>) -> bool {
    let lower = text::to_ascii_lower(line);
    &&& name.len() > 0
    &&& forall|i: int| 0 <= i < name.len() ==> may_name_tag(#[trigger] name[i])
    &&& lower.len() > name.len() + 1
    &&& lower[0] == '<'
    &&& lower.subrange(1, 1 + name.len() as int) == name
    &&& !may_name_tag(lower[1 + name.len() as int])
    &&& lower.contains('>')
}

/// A line that begins with the tag that closes that name, in whatever case and
/// however far it is indented.
pub open spec fn closes_tag(line: Seq<char>, name: Seq<char>) -> bool {
    let lower = text::to_ascii_lower(text::trim_start(line));
    &&& lower.len() >= name.len() + 3
    &&& lower.take(2) == seq!['<', '/']
    &&& lower.subrange(2, 2 + name.len() as int) == name
    &&& lower[2 + name.len() as int] == '>'
}

proof fn lemma_fence(line: Seq<char>)
    ensures
        is_fence(line) == is_fence_line(text::trim_start(line)),
{
    reveal_strlit("```");
    reveal_strlit("~~~");
    let words = text::trim_start(line);
    assert("```"@ =~= seq!['`', '`', '`']);
    assert("~~~"@ =~= seq!['~', '~', '~']);
    if words.len() >= 3 {
        assert(words.subrange(0, 3) =~= words.take(3));
    }
}

proof fn lemma_unindented(line: Seq<char>)
    requires
        line.len() > 0,
        !text::is_whitespace(line[0]),
    ensures
        text::trim_start(line) == line,
{
}

/// A line that does not begin with a bracket opens no tag.
proof fn lemma_opens_nothing(line: Seq<char>)
    requires
        line.len() == 0 || line[0] != '<',
    ensures
        ({
            let trimmed = text::trim_start(line);
            trimmed.len() == line.len() ==> opening_tag(text::to_ascii_lower(trimmed)) is None
        }),
    decreases line.len(),
{
    let trimmed = text::trim_start(line);
    lemma_trim_start_len(line);
    if line.len() > 0 && text::is_whitespace(line[0]) {
        lemma_trim_start_len(line.drop_first());
    } else {
        let lower = text::to_ascii_lower(trimmed);
        if lower.len() > 0 {
            assert(lower[0] == text::ascii_lower(line[0]));
        }
    }
}

proof fn lemma_trim_start_len(s: Seq<char>)
    ensures
        text::trim_start(s).len() <= s.len(),
    decreases s.len(),
{
    if s.len() > 0 && text::is_whitespace(s[0]) {
        lemma_trim_start_len(s.drop_first());
    }
}

proof fn lemma_tag_name_len(s: Seq<char>, n: nat)
    requires
        n < s.len(),
        forall|i: int| 0 <= i < n ==> is_tag_char(#[trigger] s[i]),
        !is_tag_char(s[n as int]),
    ensures
        tag_name_len(s) == n,
    decreases n,
{
    if n > 0 {
        assert(is_tag_char(s[0]));
        let rest = s.drop_first();
        assert forall|i: int| 0 <= i < n - 1 implies is_tag_char(#[trigger] rest[i]) by {
            assert(is_tag_char(s[i + 1]));
        }
        lemma_tag_name_len(rest, (n - 1) as nat);
    }
}

proof fn lemma_opens(line: Seq<char>, name: Seq<char>)
    requires
        opens_tag(line, name),
    ensures
        text::trim_start(line) == line,
        opening_tag(text::to_ascii_lower(line)) == Some(name),
        !is_fence(line),
{
    let lower = text::to_ascii_lower(line);
    let n = name.len();
    assert(lower[0] == text::ascii_lower(line[0]));
    lemma_lower_bracket(line[0]);
    assert(line[0] == '<');
    lemma_unindented(line);
    let rest = lower.drop_first();
    assert forall|i: int| 0 <= i < n implies is_tag_char(#[trigger] rest[i]) by {
        assert(rest[i] == lower.subrange(1, 1 + n as int)[i]);
        assert(may_name_tag(name[i]));
    }
    lemma_tag_name_len(rest, n);
    assert(rest.take(n as int) =~= name);
    let k = choose|k: int| 0 <= k < lower.len() && lower[k] == '>';
    assert(rest[k - 1] == '>');
    if line.len() >= 3 {
        assert(line.take(3)[0] == '<');
    }
}

proof fn lemma_lower_bracket(c: char)
    ensures
        text::ascii_lower(c) == '<' ==> c == '<',
{
}

proof fn lemma_closes(line: Seq<char>, name: Seq<char>)
    requires
        closes_tag(line, name),
        forall|i: int| 0 <= i < name.len() ==> may_name_tag(#[trigger] name[i]),
    ensures
        ({
            let lower = text::to_ascii_lower(text::trim_start(line));
            &&& closing_tag(lower) == Some(name)
            &&& opening_tag(lower) is None
        }),
        !is_fence(line),
{
    reveal_strlit("</");
    reveal_strlit(">");
    let trimmed = text::trim_start(line);
    let lower = text::to_ascii_lower(trimmed);
    assert("</"@ =~= seq!['<', '/']);
    assert(lower.subrange(0, 2) =~= lower.take(2));
    let rest = lower.skip(2);
    let n = name.len() as int;
    assert(rest.subrange(n, n + 1) =~= ">"@);
    assert(text::occurs_at(rest, ">"@, n));
    text::lemma_find_from(rest, ">"@, 0);
    let at = text::find(rest, ">"@)->0;
    if at < n {
        assert(rest.subrange(at, at + 1)[0] == ">"@[0]);
        assert(rest[at] == '>');
        assert(lower.subrange(2, 2 + n)[at] == rest[at]);
        assert(may_name_tag(name[at]));
    }
    assert(rest.take(n) =~= name);
    assert(lower.take(2)[0] == '<' && lower.take(2)[1] == '/');
    assert(lower.drop_first()[0] == '/');
    assert(lower[0] == text::ascii_lower(trimmed[0]));
    lemma_lower_bracket(trimmed[0]);
    assert(trimmed.take(3)[0] == '<');
}

/// From one line to a later one, where no line in between makes a difference.
proof fn lemma_skip(s: Seq<char>, p: int, q: int, st: ScanState)
    requires
        0 <= p <= q <= s.len(),
        begins_line(s, p) || p == s.len(),
        begins_line(s, q) || q == s.len(),
        forall|r: int|
            p <= r < q && #[trigger] begins_line(s, r) ==> scan_line(
                st,
                s,
                r,
                text::line_end(s, r),
            ) == st,
    ensures
        scan_from(s, p, st) == scan_from(s, q, st),
    decreases q - p,
{
    if p < q {
        text::lemma_line_end(s, p);
        let next = text::next_line(s, p);
        if q < s.len() {
            assert(s[q - 1] == '\n');
            assert(text::line_end(s, p) <= q - 1);
        }
        assert(begins_line(s, p));
        assert(begins_line(s, next) || next == s.len());
        lemma_skip(s, next, q, st);
    }
}

/// One line on.
proof fn lemma_step(s: Seq<char>, p: int, st: ScanState)
    requires
        0 <= p < s.len(),
    ensures
        p < text::next_line(s, p) <= s.len(),
        begins_line(s, text::next_line(s, p)) || text::next_line(s, p) == s.len(),
        forall|q: int|
            p < q <= s.len() && (#[trigger] begins_line(s, q) || q == s.len()) ==> text::next_line(
                s,
                p,
            ) <= q,
        scan_from(s, p, st) == scan_from(
            s,
            text::next_line(s, p),
            scan_line(st, s, p, text::line_end(s, p)),
        ),
{
    text::lemma_line_end(s, p);
    assert forall|q: int|
        p < q <= s.len() && (#[trigger] begins_line(s, q) || q
            == s.len()) implies text::next_line(s, p) <= q by {
        if q < s.len() {
            assert(s[q - 1] == '\n');
        }
    }
}

/// A text in which no line is a fence and none begins with a bracket has no
/// blocks.
pub proof fn law_plain_texts_have_no_blocks(s: Seq<char>)
    requires
        forall|p: int|
            0 <= p < s.len() && #[trigger] begins_line(s, p) ==> !is_fence(line_from(s, p))
                && s[p] != '<',
    ensures
        block_spans(s).len() == 0,
{
    let st = scan_init();
    assert forall|r: int| 0 <= r < s.len() && #[trigger] begins_line(s, r) implies scan_line(
        st,
        s,
        r,
        text::line_end(s, r),
    ) == st by {
        lemma_dull_line(s, r, st);
    }
    if s.len() > 0 {
        assert(begins_line(s, 0));
    }
    lemma_skip(s, 0, s.len() as int, st);
}

/// A line that is no fence and begins with no bracket is passed over where no
/// tag is open.
proof fn lemma_dull_line(s: Seq<char>, r: int, st: ScanState)
    requires
        0 <= r < s.len(),
        !is_fence(line_from(s, r)),
        s[r] != '<',
        st.tags.len() == 0,
    ensures
        scan_line(st, s, r, text::line_end(s, r)) == st,
{
    text::lemma_line_end(s, r);
    let line = line_from(s, r);
    lemma_fence(line);
    if line.len() > 0 {
        assert(line[0] == s[r]);
    }
    lemma_opens_nothing(line);
}

proof fn lemma_one_block(x: (int, int))
    ensures
        outermost(seq![x]) == seq![x],
{
    assert(seq![x].drop_last() =~= Seq::<(int, int)>::empty());
    assert(outermost(Seq::<(int, int)>::empty()) =~= Seq::<(int, int)>::empty());
    assert(spans_before(Seq::<(int, int)>::empty(), x.0) =~= Seq::<(int, int)>::empty());
    assert(outermost(seq![x]) =~= Seq::<(int, int)>::empty().push(x));
}

/// Two fences make a block, from the beginning of the first to the end of the
/// second, whatever stands between them. This takes a text with no other fence,
/// and no tag outside.
pub proof fn law_fences_make_a_block(s: Seq<char>, a: int, b: int)
    requires
        0 <= a < b < s.len(),
        begins_line(s, a),
        begins_line(s, b),
        is_fence(line_from(s, a)),
        is_fence(line_from(s, b)),
        forall|p: int|
            0 <= p < s.len() && #[trigger] begins_line(s, p) && p != a && p != b ==> !is_fence(
                line_from(s, p),
            ),
        forall|p: int|
            0 <= p < s.len() && #[trigger] begins_line(s, p) && (p < a || p > b) ==> s[p] != '<',
    ensures
        block_spans(s) == seq![(a, text::line_end(s, b))],
{
    let st = scan_init();
    assert(begins_line(s, 0));
    assert forall|r: int| 0 <= r < a && #[trigger] begins_line(s, r) implies scan_line(
        st,
        s,
        r,
        text::line_end(s, r),
    ) == st by {
        lemma_dull_line(s, r, st);
    }
    lemma_skip(s, 0, a, st);
    lemma_step(s, a, st);
    lemma_fence(line_from(s, a));
    let inside = ScanState { fence: Some(a), ..st };
    assert(scan_line(st, s, a, text::line_end(s, a)) == inside);
    let next = text::next_line(s, a);
    assert(begins_line(s, b));
    assert forall|r: int| next <= r < b && #[trigger] begins_line(s, r) implies scan_line(
        inside,
        s,
        r,
        text::line_end(s, r),
    ) == inside by {
        lemma_fence(line_from(s, r));
    }
    lemma_skip(s, next, b, inside);
    lemma_step(s, b, inside);
    lemma_fence(line_from(s, b));
    let end = text::line_end(s, b);
    let done = ScanState { fence: None, found: st.found.push((a, end)), ..inside };
    assert(scan_line(inside, s, b, end) == done);
    let rest = text::next_line(s, b);
    assert forall|r: int| rest <= r < s.len() && #[trigger] begins_line(s, r) implies scan_line(
        done,
        s,
        r,
        text::line_end(s, r),
    ) == done by {
        lemma_dull_line(s, r, done);
    }
    lemma_skip(s, rest, s.len() as int, done);
    assert(st.found.push((a, end)) =~= seq![(a, end)]);
    lemma_one_block((a, end));
}

/// A fence that is never closed makes no block.
pub proof fn law_open_fences_make_no_block(s: Seq<char>, a: int)
    requires
        0 <= a < s.len(),
        begins_line(s, a),
        is_fence(line_from(s, a)),
        forall|p: int|
            0 <= p < s.len() && #[trigger] begins_line(s, p) && p != a ==> !is_fence(
                line_from(s, p),
            ),
        forall|p: int| 0 <= p < a && #[trigger] begins_line(s, p) ==> s[p] != '<',
    ensures
        block_spans(s).len() == 0,
{
    let st = scan_init();
    assert(begins_line(s, 0));
    assert forall|r: int| 0 <= r < a && #[trigger] begins_line(s, r) implies scan_line(
        st,
        s,
        r,
        text::line_end(s, r),
    ) == st by {
        lemma_dull_line(s, r, st);
    }
    lemma_skip(s, 0, a, st);
    lemma_step(s, a, st);
    lemma_fence(line_from(s, a));
    let inside = ScanState { fence: Some(a), ..st };
    let next = text::next_line(s, a);
    assert forall|r: int| next <= r < s.len() && #[trigger] begins_line(s, r) implies scan_line(
        inside,
        s,
        r,
        text::line_end(s, r),
    ) == inside by {
        lemma_fence(line_from(s, r));
    }
    lemma_skip(s, next, s.len() as int, inside);
}

/// A line that is no fence, begins with no bracket and does not close the tag
/// that is open is passed over.
proof fn lemma_inner_line(s: Seq<char>, r: int, st: ScanState, name: Seq<char>)
    requires
        0 <= r < s.len(),
        !is_fence(line_from(s, r)),
        s[r] != '<',
        st.fence is None,
        st.tags.len() > 0,
        st.tags.last() == name,
        name.len() > 0,
        !closes_tag(line_from(s, r), name),
    ensures
        scan_line(st, s, r, text::line_end(s, r)) == st,
{
    text::lemma_line_end(s, r);
    let line = line_from(s, r);
    lemma_fence(line);
    if line.len() > 0 {
        assert(line[0] == s[r]);
    }
    lemma_opens_nothing(line);
    let lower = text::to_ascii_lower(text::trim_start(line));
    if closing_tag(lower) == Some(name) {
        reveal_strlit("</");
        reveal_strlit(">");
        let rest = lower.skip(2);
        text::lemma_find_from(rest, ">"@, 0);
        let at = text::find(rest, ">"@)->0;
        assert(lower.subrange(0, 2) =~= "</"@);
        assert("</"@ =~= seq!['<', '/']);
        assert(lower.take(2) =~= lower.subrange(0, 2));
        assert(rest.take(at) =~= name);
        assert(lower.subrange(2, 2 + name.len() as int) =~= name);
        assert(rest.subrange(at, at + 1)[0] == ">"@[0]);
        assert(closes_tag(line, name));
    }
}

/// An opening tag and the tag that closes it make a block, from the beginning of
/// the one line to the end of the other. This takes a text without fences, in
/// which no other line begins with a bracket, and none in between closes the tag.
pub proof fn law_tags_make_a_block(s: Seq<char>, a: int, b: int, name: Seq<char>)
    requires
        0 <= a < b < s.len(),
        begins_line(s, a),
        begins_line(s, b),
        opens_tag(line_from(s, a), name),
        closes_tag(line_from(s, b), name),
        forall|p: int|
            0 <= p < s.len() && #[trigger] begins_line(s, p) && p != a && p != b ==> !is_fence(
                line_from(s, p),
            ) && s[p] != '<',
        forall|p: int|
            a < p < b && #[trigger] begins_line(s, p) ==> !closes_tag(line_from(s, p), name),
    ensures
        block_spans(s) == seq![(a, text::line_end(s, b))],
{
    let st = scan_init();
    assert(begins_line(s, 0));
    assert forall|r: int| 0 <= r < a && #[trigger] begins_line(s, r) implies scan_line(
        st,
        s,
        r,
        text::line_end(s, r),
    ) == st by {
        lemma_dull_line(s, r, st);
    }
    lemma_skip(s, 0, a, st);
    lemma_step(s, a, st);
    lemma_opens(line_from(s, a), name);
    lemma_fence(line_from(s, a));
    let inside = ScanState { tags: st.tags.push(name), xml_start: a, ..st };
    assert(scan_line(st, s, a, text::line_end(s, a)) == inside);
    let next = text::next_line(s, a);
    assert(begins_line(s, b));
    assert forall|r: int| next <= r < b && #[trigger] begins_line(s, r) implies scan_line(
        inside,
        s,
        r,
        text::line_end(s, r),
    ) == inside by {
        lemma_inner_line(s, r, inside, name);
    }
    lemma_skip(s, next, b, inside);
    lemma_step(s, b, inside);
    lemma_closes(line_from(s, b), name);
    lemma_fence(line_from(s, b));
    let end = text::line_end(s, b);
    let done = ScanState { tags: st.tags, found: st.found.push((a, end)), ..inside };
    assert(inside.tags.drop_last() =~= st.tags);
    assert(scan_line(inside, s, b, end) == done);
    let rest = text::next_line(s, b);
    assert forall|r: int| rest <= r < s.len() && #[trigger] begins_line(s, r) implies scan_line(
        done,
        s,
        r,
        text::line_end(s, r),
    ) == done by {
        lemma_dull_line(s, r, done);
    }
    lemma_skip(s, rest, s.len() as int, done);
    assert(st.found.push((a, end)) =~= seq![(a, end)]);
    lemma_one_block((a, end));
}

/// A tag inside another of any name belongs to it: the block goes from the outer
/// opening tag to the outer closing tag, although the inner one is closed before.
/// This takes a text without fences and without any other line that begins with a
/// bracket or closes one of the two.
pub proof fn law_inner_tags_belong_to_the_outer(
    s: Seq<char>,
    a: int,
    c: int,
    d: int,
    b: int,
    outer: Seq<char>,
    inner: Seq<char>,
)
    requires
        0 <= a < c < d < b < s.len(),
        begins_line(s, a),
        begins_line(s, c),
        begins_line(s, d),
        begins_line(s, b),
        opens_tag(line_from(s, a), outer),
        opens_tag(line_from(s, c), inner),
        closes_tag(line_from(s, d), inner),
        closes_tag(line_from(s, b), outer),
        forall|p: int|
            0 <= p < s.len() && #[trigger] begins_line(s, p) && p != a && p != c && p != d && p != b
                ==> !is_fence(line_from(s, p)) && s[p] != '<' && !closes_tag(
                line_from(s, p),
                outer,
            ) && !closes_tag(line_from(s, p), inner),
    ensures
        block_spans(s) == seq![(a, text::line_end(s, b))],
{
    let st = scan_init();
    assert(begins_line(s, 0));
    assert forall|r: int| 0 <= r < a && #[trigger] begins_line(s, r) implies scan_line(
        st,
        s,
        r,
        text::line_end(s, r),
    ) == st by {
        lemma_dull_line(s, r, st);
    }
    lemma_skip(s, 0, a, st);
    lemma_step(s, a, st);
    lemma_opens(line_from(s, a), outer);
    lemma_fence(line_from(s, a));
    let one = ScanState { tags: st.tags.push(outer), xml_start: a, ..st };
    assert(scan_line(st, s, a, text::line_end(s, a)) == one);
    let after_a = text::next_line(s, a);
    assert(begins_line(s, c));
    assert forall|r: int| after_a <= r < c && #[trigger] begins_line(s, r) implies scan_line(
        one,
        s,
        r,
        text::line_end(s, r),
    ) == one by {
        lemma_inner_line(s, r, one, outer);
    }
    lemma_skip(s, after_a, c, one);
    lemma_step(s, c, one);
    lemma_opens(line_from(s, c), inner);
    lemma_fence(line_from(s, c));
    let two = ScanState { tags: one.tags.push(inner), ..one };
    assert(scan_line(one, s, c, text::line_end(s, c)) == two);
    let after_c = text::next_line(s, c);
    assert(begins_line(s, d));
    assert forall|r: int| after_c <= r < d && #[trigger] begins_line(s, r) implies scan_line(
        two,
        s,
        r,
        text::line_end(s, r),
    ) == two by {
        lemma_inner_line(s, r, two, inner);
    }
    lemma_skip(s, after_c, d, two);
    lemma_step(s, d, two);
    lemma_closes(line_from(s, d), inner);
    lemma_fence(line_from(s, d));
    assert(two.tags.drop_last() =~= one.tags);
    assert(scan_line(two, s, d, text::line_end(s, d)) == one);
    let after_d = text::next_line(s, d);
    assert(begins_line(s, b));
    assert forall|r: int| after_d <= r < b && #[trigger] begins_line(s, r) implies scan_line(
        one,
        s,
        r,
        text::line_end(s, r),
    ) == one by {
        lemma_inner_line(s, r, one, outer);
    }
    lemma_skip(s, after_d, b, one);
    lemma_step(s, b, one);
    lemma_closes(line_from(s, b), outer);
    lemma_fence(line_from(s, b));
    let end = text::line_end(s, b);
    let done = ScanState { tags: st.tags, found: st.found.push((a, end)), ..one };
    assert(one.tags.drop_last() =~= st.tags);
    assert(scan_line(one, s, b, end) == done);
    let rest = text::next_line(s, b);
    assert forall|r: int| rest <= r < s.len() && #[trigger] begins_line(s, r) implies scan_line(
        done,
        s,
        r,
        text::line_end(s, r),
    ) == done by {
        lemma_dull_line(s, r, done);
    }
    lemma_skip(s, rest, s.len() as int, done);
    assert(st.found.push((a, end)) =~= seq![(a, end)]);
    lemma_one_block((a, end));
}

} // verus!
