//! Fenced and XML-like blocks inside a message text.
//!
//! A block is a run of whole lines. A fenced block goes from one fence line to
//! the next; an XML block goes from an unindented opening tag to the line that
//! closes it. Tags inside a fence are plain text, and a block that is never
//! closed is no block.

use vstd::prelude::*;

use crate::text;

pub mod kinds;
pub mod replaced;

verus! {

/// A range `[start, end)` of byte offsets into a text.
#[derive(Clone, Copy, Debug, PartialEq, Eq, Structural)]
pub struct TextRange {
    pub start: usize,
    pub end: usize,
}

/// A range `[start, end)` of character positions in a text.
#[derive(Clone, Copy, Debug, PartialEq, Eq, Structural)]
pub struct Span {
    pub start: usize,
    pub end: usize,
}

/// Characters of a tag name.
pub open spec fn is_tag_char(c: char) -> bool {
    'a' <= c <= 'z' || c == '_' || c == '-'
}

/// The number of tag-name characters at the start of `s`.
pub open spec fn tag_name_len(s: Seq<char>) -> nat
    decreases s.len(),
{
    if s.len() > 0 && is_tag_char(s[0]) {
        1 + tag_name_len(s.drop_first())
    } else {
        0
    }
}

/// The name of the tag that a line opens: `<`, a name, and a `>` somewhere
/// behind it.
pub open spec fn opening_tag(line: Seq<char>) -> Option<Seq<char>> {
    if line.len() > 0 && line[0] == '<' && tag_name_len(line.drop_first()) > 0
        && line.drop_first().contains('>') {
        Some(line.drop_first().take(tag_name_len(line.drop_first()) as int))
    } else {
        None
    }
}

/// The name of the tag that a line closes: what stands between `</` and `>`.
pub open spec fn closing_tag(line: Seq<char>) -> Option<Seq<char>> {
    if text::starts_with(line, "</"@) && text::find(line.skip(2), ">"@) is Some {
        Some(line.skip(2).take(text::find(line.skip(2), ">"@)->0))
    } else {
        None
    }
}

/// A line that opens or closes a fence, given without its indentation.
pub open spec fn is_fence_line(trimmed: Seq<char>) -> bool {
    text::starts_with(trimmed, "```"@) || text::starts_with(trimmed, "~~~"@)
}

/// Where the scan of a text stands between two lines.
pub struct ScanState {
    /// The start of the fence that is open, if one is.
    pub fence: Option<int>,
    /// The names of the tags that are open, outermost first.
    pub tags: Seq<Seq<char>>,
    /// The start of the outermost open tag.
    pub xml_start: int,
    /// The blocks closed so far, in the order in which they closed.
    pub found: Seq<(int, int)>,
}

/// The scan before the first line.
pub open spec fn scan_init() -> ScanState {
    ScanState { fence: None, tags: Seq::empty(), xml_start: 0, found: Seq::empty() }
}

/// The scan behind the line `s[start..end]`.
pub open spec fn scan_line(st: ScanState, s: Seq<char>, start: int, end: int) -> ScanState {
    let line = s.subrange(start, end);
    let trimmed = text::trim_start(line);
    let lower = text::to_ascii_lower(trimmed);
    if is_fence_line(trimmed) {
        match st.fence {
            None => ScanState { fence: Some(start), ..st },
            Some(from) => ScanState { fence: None, found: st.found.push((from, end)), ..st },
        }
    } else if st.fence is Some {
        st
    } else if trimmed.len() == line.len() && opening_tag(lower) is Some {
        ScanState {
            tags: st.tags.push(opening_tag(lower)->0),
            xml_start: if st.tags.len() == 0 { start } else { st.xml_start },
            ..st
        }
    } else if st.tags.len() > 0 && closing_tag(lower) == Some(st.tags.last()) {
        ScanState {
            tags: st.tags.drop_last(),
            found: if st.tags.len() == 1 { st.found.push((st.xml_start, end)) } else { st.found },
            ..st
        }
    } else {
        st
    }
}

/// The scan behind the last line, from the state before the line at `pos`.
pub open spec fn scan_from(s: Seq<char>, pos: int, st: ScanState) -> ScanState
    decreases s.len() - pos,
{
    if pos < 0 || pos >= s.len() {
        st
    } else {
        let end = text::line_end(s, pos);
        if text::next_line(s, pos) > pos {
            scan_from(s, text::next_line(s, pos), scan_line(st, s, pos, end))
        } else {
            st
        }
    }
}

/// Every block of a text, in the order in which the blocks close.
pub open spec fn found_blocks(s: Seq<char>) -> Seq<(int, int)> {
    scan_from(s, 0, scan_init()).found
}

/// The leading part of `spans` that starts before `at`.
pub open spec fn spans_before(spans: Seq<(int, int)>, at: int) -> Seq<(int, int)>
    decreases spans.len(),
{
    if spans.len() > 0 && spans.last().0 >= at {
        spans_before(spans.drop_last(), at)
    } else {
        spans
    }
}

/// The blocks that stand inside no other block: a block displaces those that
/// closed inside it.
pub open spec fn outermost(found: Seq<(int, int)>) -> Seq<(int, int)>
    decreases found.len(),
{
    if found.len() == 0 {
        Seq::empty()
    } else {
        spans_before(outermost(found.drop_last()), found.last().0).push(found.last())
    }
}

/// The outermost blocks of a text, as character positions.
pub open spec fn block_spans(s: Seq<char>) -> Seq<(int, int)> {
    outermost(found_blocks(s))
}

/// A span of positions as a range of byte offsets.
pub open spec fn byte_range(s: Seq<char>, span: (int, int)) -> (int, int) {
    (text::byte_len(s.take(span.0)) as int, text::byte_len(s.take(span.1)) as int)
}

pub open spec fn span_view(span: Span) -> (int, int) {
    (span.start as int, span.end as int)
}

pub open spec fn range_view(range: TextRange) -> (int, int) {
    (range.start as int, range.end as int)
}

/// Spans in order and without overlap, none of them empty, all inside a text
/// of `len` characters.
pub open spec fn spans_ordered(spans: Seq<(int, int)>, len: int) -> bool {
    &&& forall|i: int| 0 <= i < spans.len() ==> 0 <= (#[trigger] spans[i]).0 < spans[i].1 <= len
    &&& forall|i: int, j: int|
        #![trigger spans[i], spans[j]]
        0 <= i < j < spans.len() ==> spans[i].1 < spans[j].0
}

/// The name of the tag that a line opens, if it opens one.
pub fn parse_opening_xml_tag(trimmed: &[char]) -> (name: Option<Vec<char>>)
    ensures
        match name {
            Some(name) => opening_tag(trimmed@) == Some(name@),
            None => opening_tag(trimmed@) is None,
        },
{
    if trimmed.len() == 0 || trimmed[0] != '<' {
        return None;
    }
    let rest = vstd::slice::slice_subrange(trimmed, 1, trimmed.len());
    assert(rest@ == trimmed@.drop_first());
    let mut n: usize = 0;
    assert(rest@.skip(0) == rest@);
    while n < rest.len() && (('a' <= rest[n] && rest[n] <= 'z') || rest[n] == '_' || rest[n] == '-')
        invariant
            n <= rest@.len(),
            tag_name_len(rest@) == n + tag_name_len(rest@.skip(n as int)),
        decreases rest@.len() - n,
    {
        assert(rest@.skip(n as int).drop_first() == rest@.skip(n + 1));
        n = n + 1;
    }
    if n == 0 {
        return None;
    }
    let mut i: usize = 0;
    while i < rest.len()
        invariant
            i <= rest@.len(),
            n <= rest@.len(),
            n > 0,
            n == tag_name_len(rest@),
            rest@ == trimmed@.drop_first(),
            trimmed@.len() > 0,
            trimmed@[0] == '<',
            forall|k: int| 0 <= k < i ==> rest@[k] != '>',
        decreases rest@.len() - i,
    {
        if rest[i] == '>' {
            let name = vstd::slice::slice_subrange(rest, 0, n);
            assert(name@ == rest@.take(n as int));
            let ghost k = i as int;
            assert(rest@[k] == '>');
            return Some(vstd::slice::slice_to_vec(name));
        }
        i = i + 1;
    }
    None
}

/// The name of the tag that a line closes, if it closes one.
fn parse_closing_xml_tag(trimmed: &[char]) -> (name: Option<Vec<char>>)
    ensures
        match name {
            Some(name) => closing_tag(trimmed@) == Some(name@),
            None => closing_tag(trimmed@) is None,
        },
{
    if !text::has_prefix(trimmed, "</") {
        return None;
    }
    proof {
        reveal_strlit("</");
    }
    let rest = vstd::slice::slice_subrange(trimmed, 2, trimmed.len());
    assert(rest@ == trimmed@.skip(2));
    match text::position_of(rest, ">") {
        Some(end) => {
            let name = vstd::slice::slice_subrange(rest, 0, end);
            assert(name@ == rest@.take(end as int));
            Some(vstd::slice::slice_to_vec(name))
        },
        None => None,
    }
}

/// Closes a block: it displaces the spans that closed inside it.
fn close_block(spans: &mut Vec<Span>, start: usize, end: usize)
    ensures
        final(spans)@.map_values(|s: Span| span_view(s)) == spans_before(
            old(spans)@.map_values(|s: Span| span_view(s)),
            start as int,
        ).push((start as int, end as int)),
{
    let ghost before = spans@.map_values(|s: Span| span_view(s));
    while spans.len() > 0 && spans[spans.len() - 1].start >= start
        invariant
            spans_before(before, start as int) == spans_before(
                spans@.map_values(|s: Span| span_view(s)),
                start as int,
            ),
        decreases spans@.len(),
    {
        let ghost now = spans@.map_values(|s: Span| span_view(s));
        spans.pop();
        assert(spans@.map_values(|s: Span| span_view(s)) == now.drop_last());
    }
    let ghost kept = spans@.map_values(|s: Span| span_view(s));
    assert(spans_before(kept, start as int) == kept);
    spans.push(Span { start, end });
    assert(spans@.map_values(|s: Span| span_view(s)) == kept.push((start as int, end as int)));
}

/// What the executable scan remembers between two lines.
struct Scanner {
    fence: Option<usize>,
    tags: Vec<Vec<char>>,
    xml_start: usize,
    spans: Vec<Span>,
}

impl Scanner {
    /// The scanner stands where `st` does and holds the outermost blocks so far.
    spec fn stands_at(self, st: ScanState) -> bool {
        &&& match self.fence {
            Some(start) => st.fence == Some(start as int),
            None => st.fence is None,
        }
        &&& self.tags@.map_values(|t: Vec<char>| t@) == st.tags
        &&& self.xml_start == st.xml_start
        &&& self.spans@.map_values(|s: Span| span_view(s)) == outermost(st.found)
    }
}

/// The outermost blocks of a text, as character positions.
pub fn scan_block_spans(chars: &[char]) -> (spans: Vec<Span>)
    ensures
        spans@.map_values(|s: Span| span_view(s)) == block_spans(chars@),
{
    let mut sc = Scanner { fence: None, tags: Vec::new(), xml_start: 0, spans: Vec::new() };
    let ghost mut st = scan_init();
    let mut pos: usize = 0;
    proof {
        assert(sc.tags@.map_values(|t: Vec<char>| t@) == st.tags);
        assert(sc.spans@.map_values(|s: Span| span_view(s)) == outermost(st.found));
    }
    while pos < chars.len()
        invariant
            pos <= chars@.len(),
            sc.stands_at(st),
            scan_from(chars@, pos as int, st) == scan_from(chars@, 0, scan_init()),
        decreases chars@.len() - pos,
    {
        let end = text::line_end_of(chars, pos);
        let line = vstd::slice::slice_subrange(chars, pos, end);
        assert(line@ == chars@.subrange(pos as int, end as int));
        let ghost before = st;
        step_line(&mut sc, line, pos, end, Ghost(chars@), Ghost(st));
        proof {
            st = scan_line(before, chars@, pos as int, end as int);
        }
        pos = if end < chars.len() {
            end + 1
        } else {
            end
        };
    }
    assert(scan_from(chars@, pos as int, st) == st);
    sc.spans
}

/// Takes the scanner over one line.
fn step_line(
    sc: &mut Scanner,
    line: &[char],
    start: usize,
    end: usize,
    Ghost(s): Ghost<Seq<char>>,
    Ghost(st): Ghost<ScanState>,
)
    requires
        old(sc).stands_at(st),
        start <= end <= s.len(),
        line@ == s.subrange(start as int, end as int),
    ensures
        final(sc).stands_at(scan_line(st, s, start as int, end as int)),
{
    let trimmed = text::trimmed_start(line);
    if text::has_prefix(trimmed, "```") || text::has_prefix(trimmed, "~~~") {
        match sc.fence {
            None => {
                sc.fence = Some(start);
            },
            Some(from) => {
                sc.fence = None;
                close_block(&mut sc.spans, from, end);
                assert(st.found.push((from as int, end as int)).drop_last() == st.found);
            },
        }
        return ;
    }
    if sc.fence.is_some() {
        return ;
    }
    let lower = text::lower_chars(trimmed);
    if trimmed.len() == line.len() {
        if let Some(name) = parse_opening_xml_tag(lower.as_slice()) {
            if sc.tags.len() == 0 {
                sc.xml_start = start;
            }
            sc.tags.push(name);
            assert(sc.tags@.map_values(|t: Vec<char>| t@) == st.tags.push(name@));
            return ;
        }
    }
    if sc.tags.len() == 0 {
        return ;
    }
    if let Some(name) = parse_closing_xml_tag(lower.as_slice()) {
        let top = sc.tags.len() - 1;
        if text::same_chars(sc.tags[top].as_slice(), name.as_slice()) {
            sc.tags.pop();
            assert(sc.tags@.map_values(|t: Vec<char>| t@) == st.tags.drop_last());
            if sc.tags.len() == 0 {
                let from = sc.xml_start;
                close_block(&mut sc.spans, from, end);
                assert(st.found.push((from as int, end as int)).drop_last() == st.found);
            }
        }
    }
}

/// Position `i` begins a line of `s`.
pub open spec fn begins_line(s: Seq<char>, i: int) -> bool {
    i == 0 || (0 < i <= s.len() && s[i - 1] == '\n')
}

/// Position `i` ends a line of `s`.
pub open spec fn ends_line(s: Seq<char>, i: int) -> bool {
    i == s.len() || (0 <= i < s.len() && s[i] == '\n')
}

/// `inner` lies inside `outer`.
pub open spec fn within(inner: (int, int), outer: (int, int)) -> bool {
    outer.0 <= inner.0 && inner.1 <= outer.1
}

/// `x` lies inside one of `spans`.
pub open spec fn covered(x: (int, int), spans: Seq<(int, int)>) -> bool {
    exists|i: int| 0 <= i < spans.len() && within(x, #[trigger] spans[i])
}

/// The outermost blocks of `found` are runs of whole lines, stand in order, are
/// blocks of `found`, and cover all of them.
pub open spec fn blocks_in_order(s: Seq<char>, found: Seq<(int, int)>) -> bool {
    let kept = outermost(found);
    &&& spans_ordered(kept, s.len() as int)
    &&& forall|i: int|
        0 <= i < kept.len() ==> begins_line(s, (#[trigger] kept[i]).0) && ends_line(s, kept[i].1)
    &&& forall|i: int| 0 <= i < kept.len() ==> found.contains(#[trigger] kept[i])
    &&& forall|k: int| 0 <= k < found.len() ==> covered(#[trigger] found[k], kept)
}

/// What holds of the scan of `s` before the line at `pos`.
spec fn scan_inv(s: Seq<char>, pos: int, st: ScanState) -> bool {
    let kept = outermost(st.found);
    &&& 0 <= pos <= s.len()
    &&& begins_line(s, pos) || pos == s.len()
    &&& blocks_in_order(s, st.found)
    &&& pos < s.len() ==> forall|i: int| 0 <= i < kept.len() ==> (#[trigger] kept[i]).1 < pos
    &&& st.fence is Some ==> {
        &&& 0 <= st.fence->0 < pos
        &&& begins_line(s, st.fence->0)
        &&& forall|i: int| 0 <= i < kept.len() ==> (#[trigger] kept[i]).1 < st.fence->0
    }
    &&& st.tags.len() > 0 ==> {
        &&& 0 <= st.xml_start < pos
        &&& begins_line(s, st.xml_start)
        &&& st.fence is Some ==> st.xml_start < st.fence->0
        &&& forall|i: int|
            0 <= i < kept.len() ==> (#[trigger] kept[i]).1 < st.xml_start || kept[i].0
                >= st.xml_start
    }
}

proof fn lemma_spans_before(spans: Seq<(int, int)>, at: int, len: int)
    requires
        spans_ordered(spans, len),
    ensures
        spans_before(spans, at).len() <= spans.len(),
        spans_before(spans, at) == spans.take(spans_before(spans, at).len() as int),
        forall|i: int|
            0 <= i < spans_before(spans, at).len() ==> (#[trigger] spans[i]).0 < at,
        forall|i: int|
            spans_before(spans, at).len() <= i < spans.len() ==> (#[trigger] spans[i]).0 >= at,
    decreases spans.len(),
{
    if spans.len() > 0 && spans.last().0 >= at {
        assert(spans_ordered(spans.drop_last(), len)) by {
            assert forall|i: int| 0 <= i < spans.drop_last().len() implies 0 <= (
            #[trigger] spans.drop_last()[i]).0 < spans.drop_last()[i].1 <= len by {
                assert(spans.drop_last()[i] == spans[i]);
            }
            assert forall|i: int, j: int|
                #![trigger spans.drop_last()[i], spans.drop_last()[j]]
                0 <= i < j < spans.drop_last().len() implies spans.drop_last()[i].1
                < spans.drop_last()[j].0 by {
                assert(spans.drop_last()[i] == spans[i]);
                assert(spans.drop_last()[j] == spans[j]);
            }
        }
        lemma_spans_before(spans.drop_last(), at, len);
        let n = spans_before(spans, at).len() as int;
        assert(spans.drop_last().take(n) == spans.take(n));
        assert forall|i: int| 0 <= i < n implies (#[trigger] spans[i]).0 < at by {
            assert(spans.drop_last()[i] == spans[i]);
        }
        assert forall|i: int| n <= i < spans.len() implies (#[trigger] spans[i]).0 >= at by {
            if i < spans.len() - 1 {
                assert(spans.drop_last()[i] == spans[i]);
            }
        }
    } else {
        assert(spans.take(spans.len() as int) == spans);
        assert forall|i: int| 0 <= i < spans.len() implies (#[trigger] spans[i]).0 < at by {
            if i < spans.len() - 1 {
                assert(spans[i].1 < spans[spans.len() - 1].0);
            }
        }
    }
}

/// Closing the block `x` keeps the blocks in order.
proof fn lemma_close(s: Seq<char>, pos: int, found: Seq<(int, int)>, x: (int, int))
    requires
        blocks_in_order(s, found),
        0 <= x.0 < pos <= x.1 <= s.len(),
        begins_line(s, x.0),
        ends_line(s, x.1),
        forall|i: int|
            0 <= i < outermost(found).len() ==> (#[trigger] outermost(found)[i]).1 < pos,
        forall|i: int|
            0 <= i < outermost(found).len() ==> (#[trigger] outermost(found)[i]).1 < x.0
                || outermost(found)[i].0 >= x.0,
    ensures
        blocks_in_order(s, found.push(x)),
        ({
            let kept = outermost(found.push(x));
            &&& kept.len() > 0 && kept.last() == x
            &&& kept.len() - 1 <= outermost(found).len()
            &&& forall|i: int|
                0 <= i < kept.len() - 1 ==> (#[trigger] kept[i]) == outermost(found)[i]
                    && kept[i].1 < x.0
        }),
{
    let old_kept = outermost(found);
    let all = found.push(x);
    assert(all.drop_last() == found);
    let kept = outermost(all);
    lemma_spans_before(old_kept, x.0, s.len() as int);
    let n = spans_before(old_kept, x.0).len() as int;
    assert(kept == old_kept.take(n).push(x));
    assert forall|i: int| 0 <= i < n implies #[trigger] kept[i] == old_kept[i] && kept[i].1
        < x.0 by {
        assert(old_kept[i].0 < x.0);
    }
    assert(kept[n] == x);
    assert forall|i: int| 0 <= i < kept.len() implies all.contains(#[trigger] kept[i]) by {
        if i < n {
            assert(found.contains(old_kept[i]));
            let k = choose|k: int| 0 <= k < found.len() && found[k] == old_kept[i];
            assert(all[k] == kept[i]);
        } else {
            assert(all[found.len() as int] == x);
        }
    }
    assert forall|k: int| 0 <= k < all.len() implies covered(#[trigger] all[k], kept) by {
        if k < found.len() {
            assert(all[k] == found[k]);
            assert(covered(found[k], old_kept));
            let i = choose|i: int|
                0 <= i < old_kept.len() && within(found[k], #[trigger] old_kept[i]);
            if i < n {
                assert(within(all[k], kept[i]));
            } else {
                assert(old_kept[i].0 >= x.0);
                assert(within(all[k], kept[n]));
            }
        } else {
            assert(within(all[k], kept[n]));
        }
    }
}

proof fn lemma_scan_line_inv(s: Seq<char>, pos: int, st: ScanState)
    requires
        scan_inv(s, pos, st),
        pos < s.len(),
    ensures
        scan_inv(s, text::next_line(s, pos), scan_line(st, s, pos, text::line_end(s, pos))),
{
    text::lemma_line_end(s, pos);
    let end = text::line_end(s, pos);
    let after = scan_line(st, s, pos, end);
    let line = s.subrange(pos, end);
    let trimmed = text::trim_start(line);
    let lower = text::to_ascii_lower(trimmed);
    if is_fence_line(trimmed) {
        if st.fence is Some {
            lemma_close(s, pos, st.found, (st.fence->0, end));
        }
    } else if st.fence is Some {
    } else if trimmed.len() == line.len() && opening_tag(lower) is Some {
    } else if st.tags.len() == 1 && closing_tag(lower) == Some(st.tags.last()) {
        lemma_close(s, pos, st.found, (st.xml_start, end));
    }
}

proof fn lemma_scan_inv(s: Seq<char>, pos: int, st: ScanState)
    requires
        scan_inv(s, pos, st),
    ensures
        scan_inv(s, s.len() as int, scan_from(s, pos, st)),
    decreases s.len() - pos,
{
    if pos < s.len() {
        text::lemma_line_end(s, pos);
        lemma_scan_line_inv(s, pos, st);
        lemma_scan_inv(s, text::next_line(s, pos), scan_line(st, s, pos, text::line_end(s, pos)));
    }
}

/// The blocks that a scan reports are runs of whole lines, stand in order and
/// do not touch. Each is a block of the text, and every block of the text lies
/// inside one of them.
pub proof fn law_block_spans(s: Seq<char>)
    ensures
        blocks_in_order(s, found_blocks(s)),
{
    assert(scan_inv(s, 0, scan_init()));
    lemma_scan_inv(s, 0, scan_init());
}

/// The bytes of the characters from `from` up to `to`, added to `base`.
fn bytes_up_to(chars: &[char], from: usize, to: usize, base: usize) -> (n: usize)
    requires
        from <= to <= chars@.len(),
        base == text::byte_len(chars@.take(from as int)),
        text::byte_len(chars@) <= usize::MAX,
    ensures
        n == text::byte_len(chars@.take(to as int)),
{
    let mut i: usize = from;
    let mut n: usize = base;
    while i < to
        invariant
            from <= i <= to <= chars@.len(),
            n == text::byte_len(chars@.take(i as int)),
            text::byte_len(chars@) <= usize::MAX,
        decreases to - i,
    {
        assert(chars@.take(i + 1).drop_last() == chars@.take(i as int));
        proof {
            text::lemma_byte_len_concat(chars@.take(i + 1), chars@.skip(i + 1));
            assert(chars@ == chars@.take(i + 1) + chars@.skip(i + 1));
        }
        let width: usize = text::char_width(chars[i]);
        n = n + width;
        i = i + 1;
    }
    n
}

/// The outermost blocks of a text, as byte ranges that cover the block's lines
/// from the opening to the closing one, without the last newline.
pub fn scan_text_for_block_ranges(content: &str) -> (ranges: Vec<TextRange>)
    ensures
        ranges@.map_values(|r: TextRange| range_view(r)) == block_spans(content@).map_values(
            |span: (int, int)| byte_range(content@, span),
        ),
{
    let chars = text::chars_of(content);
    let total = text::text_bytes(content);
    let spans = scan_block_spans(chars.as_slice());
    proof {
        law_block_spans(chars@);
    }
    let ghost views = spans@.map_values(|s: Span| span_view(s));
    let mut ranges: Vec<TextRange> = Vec::new();
    let mut at: usize = 0;
    let mut bytes: usize = 0;
    let mut i: usize = 0;
    assert(chars@.take(0) == Seq::<char>::empty());
    while i < spans.len()
        invariant
            i <= spans@.len(),
            chars@ == content@,
            text::byte_len(chars@) <= usize::MAX,
            views == spans@.map_values(|s: Span| span_view(s)),
            views == block_spans(chars@),
            spans_ordered(views, chars@.len() as int),
            at <= chars@.len(),
            i < spans@.len() ==> at <= views[i as int].0,
            i > 0 ==> at == views[i - 1].1,
            bytes == text::byte_len(chars@.take(at as int)),
            ranges@.map_values(|r: TextRange| range_view(r)) == views.take(i as int).map_values(
                |span: (int, int)| byte_range(content@, span),
            ),
        decreases spans@.len() - i,
    {
        let span = spans[i];
        assert(span_view(span) == views[i as int]);
        let start = bytes_up_to(chars.as_slice(), at, span.start, bytes);
        let end = bytes_up_to(chars.as_slice(), span.start, span.end, start);
        ranges.push(TextRange { start, end });
        at = span.end;
        bytes = end;
        i = i + 1;
        assert(ranges@.last() == (TextRange { start, end }));
        assert(range_view(ranges@.last()) == byte_range(content@, views[i - 1]));
        assert(views.take(i as int) == views.take(i - 1).push(views[i - 1]));
        assert(ranges@.map_values(|r: TextRange| range_view(r)) == views.take(i - 1).map_values(
            |span: (int, int)| byte_range(content@, span),
        ).push(byte_range(content@, views[i - 1])));
        if i < spans.len() {
            assert(views[i - 1].1 < views[i as int].0);
        }
    }
    assert(views.take(views.len() as int) == views);
    ranges
}

} // verus!
