//! A text in which a block gave way to one plain line.
//!
//! A plain line takes the place of a block without a trace: the blocks before it
//! stay where they are, and those behind it move with their text.

use vstd::prelude::*;

use crate::shake::blocks::begins_line;
use crate::shake::blocks::block_spans;
use crate::shake::blocks::blocks_in_order;
use crate::shake::blocks::closing_tag;
use crate::shake::blocks::covered;
use crate::shake::blocks::ends_line;
use crate::shake::blocks::found_blocks;
use crate::shake::blocks::is_fence_line;
use crate::shake::blocks::law_block_spans;
use crate::shake::blocks::lemma_scan_line_inv;
use crate::shake::blocks::opening_tag;
use crate::shake::blocks::outermost;
use crate::shake::blocks::scan_from;
use crate::shake::blocks::scan_init;
use crate::shake::blocks::scan_inv;
use crate::shake::blocks::scan_line;
use crate::shake::blocks::spans_before;
use crate::shake::blocks::spans_ordered;
use crate::shake::blocks::within;
use crate::shake::blocks::ScanState;
use crate::shake::elide;
use crate::text;

verus! {

/// One line that neither opens nor closes a block.
pub open spec fn is_plain_line(line: Seq<char>) -> bool {
    let trimmed = text::trim_start(line);
    let lower = text::to_ascii_lower(trimmed);
    &&& line.len() > 0
    &&& !line.contains('\n')
    &&& !is_fence_line(trimmed)
    &&& opening_tag(lower) is None
    &&& closing_tag(lower) is None
}

/// Spans moved by `d` positions.
pub open spec fn shifted(spans: Seq<(int, int)>, d: int) -> Seq<(int, int)> {
    spans.map_values(|x: (int, int)| (x.0 + d, x.1 + d))
}

proof fn lemma_line_end_is(s: Seq<char>, from: int, end: int)
    requires
        0 <= from <= end <= s.len(),
        end == s.len() || s[end] == '\n',
        forall|i: int| from <= i < end ==> s[i] != '\n',
    ensures
        text::line_end(s, from) == end,
{
    text::lemma_line_end(s, from);
}

/// The scan of what is behind `pos` sees one line, and goes on behind it.
proof fn lemma_step(s: Seq<char>, pos: int, st: ScanState)
    requires
        0 <= pos < s.len(),
    ensures
        pos <= text::line_end(s, pos) <= s.len(),
        pos < text::next_line(s, pos) <= s.len(),
        scan_from(s, pos, st) == scan_from(
            s,
            text::next_line(s, pos),
            scan_line(st, s, pos, text::line_end(s, pos)),
        ),
{
    text::lemma_line_end(s, pos);
}

/// No block that starts at `a` can close any more.
spec fn past(st: ScanState, a: int) -> bool {
    &&& st.fence != Some(a)
    &&& st.tags.len() > 0 ==> st.xml_start != a
}

proof fn lemma_past(s: Seq<char>, pos: int, st: ScanState, x: (int, int))
    requires
        x.0 < pos,
        past(st, x.0),
        !st.found.contains(x),
    ensures
        !scan_from(s, pos, st).found.contains(x),
    decreases s.len() - pos,
{
    if 0 <= pos < s.len() {
        lemma_step(s, pos, st);
        let end = text::line_end(s, pos);
        let next = scan_line(st, s, pos, end);
        assert(!next.found.contains(x)) by {
            if next.found.contains(x) {
                let k = choose|k: int| 0 <= k < next.found.len() && next.found[k] == x;
                if k < st.found.len() {
                    assert(st.found[k] == x);
                }
            }
        }
        lemma_past(s, text::next_line(s, pos), next, x);
    }
}

/// Blocks that were found stay found.
proof fn lemma_found_stays(s: Seq<char>, pos: int, st: ScanState, x: (int, int))
    requires
        st.found.contains(x),
    ensures
        scan_from(s, pos, st).found.contains(x),
    decreases s.len() - pos,
{
    if 0 <= pos < s.len() {
        lemma_step(s, pos, st);
        let next = scan_line(st, s, pos, text::line_end(s, pos));
        assert(next.found.contains(x)) by {
            let k = choose|k: int| 0 <= k < st.found.len() && st.found[k] == x;
            assert(next.found[k] == x);
        }
        lemma_found_stays(s, text::next_line(s, pos), next, x);
    }
}

/// Where the line that ends at `end` gives way to the next.
spec fn behind(s: Seq<char>, end: int) -> int {
    if end < s.len() {
        end + 1
    } else {
        s.len() as int
    }
}

/// From inside a fence to the line that closes it.
proof fn lemma_through_fence(s: Seq<char>, pos: int, st: ScanState, x: (int, int))
    requires
        x.0 < pos <= s.len(),
        st.fence == Some(x.0),
        st.tags.len() > 0 ==> st.xml_start != x.0,
        !st.found.contains(x),
        scan_from(s, pos, st).found.contains(x),
    ensures
        scan_from(s, pos, st) == scan_from(
            s,
            behind(s, x.1),
            ScanState { fence: None, found: st.found.push(x), ..st },
        ),
        pos <= x.1 <= s.len(),
        ends_line(s, x.1),
    decreases s.len() - pos,
{
    if pos < s.len() {
        lemma_step(s, pos, st);
        text::lemma_line_end(s, pos);
        let end = text::line_end(s, pos);
        let next = scan_line(st, s, pos, end);
        if is_fence_line(text::trim_start(s.subrange(pos, end))) {
            if end != x.1 {
                assert(!next.found.contains(x)) by {
                    if next.found.contains(x) {
                        let k = choose|k: int| 0 <= k < next.found.len() && next.found[k] == x;
                        assert(st.found[k] == x);
                    }
                }
                lemma_past(s, text::next_line(s, pos), next, x);
            }
        } else {
            lemma_through_fence(s, text::next_line(s, pos), next, x);
        }
    }
}

/// All spans start before `at`.
spec fn all_before(spans: Seq<(int, int)>, at: int) -> bool {
    forall|i: int| 0 <= i < spans.len() ==> (#[trigger] spans[i]).0 < at
}

/// All spans start behind `at`.
spec fn all_behind(spans: Seq<(int, int)>, at: int) -> bool {
    forall|i: int| 0 <= i < spans.len() ==> (#[trigger] spans[i]).0 > at
}

/// Spans that all start before `at` are displaced by nothing from `at` on.
proof fn lemma_keeps_front(front: Seq<(int, int)>, back: Seq<(int, int)>, at: int)
    requires
        all_before(front, at),
    ensures
        spans_before(front + back, at) == front + spans_before(back, at),
        spans_before(back, at).len() <= back.len(),
        spans_before(back, at) == back.take(spans_before(back, at).len() as int),
    decreases back.len(),
{
    if back.len() == 0 {
        assert(front + back == front);
        assert(spans_before(front, at) == front) by {
            if front.len() > 0 {
                assert(front[front.len() - 1].0 < at);
            }
        }
        assert(back.take(0) == back);
        assert(front + spans_before(back, at) == front);
    } else {
        assert((front + back).last() == back.last());
        if back.last().0 >= at {
            assert((front + back).drop_last() == front + back.drop_last());
            lemma_keeps_front(front, back.drop_last(), at);
            let n = spans_before(back, at).len() as int;
            assert(back.drop_last().take(n) == back.take(n));
        } else {
            assert(back.take(back.len() as int) == back);
        }
    }
}

proof fn lemma_shifted_before(spans: Seq<(int, int)>, at: int, d: int)
    ensures
        spans_before(shifted(spans, d), at + d) == shifted(spans_before(spans, at), d),
    decreases spans.len(),
{
    if spans.len() > 0 && spans.last().0 >= at {
        assert(shifted(spans, d).drop_last() == shifted(spans.drop_last(), d));
        lemma_shifted_before(spans.drop_last(), at, d);
    }
}

/// From inside a tag to the line that closes the outermost one.
proof fn lemma_through_tags(
    s: Seq<char>,
    pos: int,
    st: ScanState,
    x: (int, int),
    front: Seq<(int, int)>,
    inner: Seq<(int, int)>,
) -> (after: ScanState)
    requires
        x.0 < pos <= s.len(),
        st.tags.len() > 0,
        st.xml_start == x.0,
        st.fence matches Some(from) ==> from > x.0,
        !st.found.contains(x),
        scan_from(s, pos, st).found.contains(x),
        outermost(st.found) == front + inner,
        all_before(front, x.0),
        all_behind(inner, x.0),
    ensures
        scan_from(s, pos, st) == scan_from(s, behind(s, x.1), after),
        after.fence is None,
        after.tags.len() == 0,
        outermost(after.found) == front.push(x),
        pos <= x.1 <= s.len(),
        ends_line(s, x.1),
    decreases s.len() - pos,
{
    if pos < s.len() {
        lemma_step(s, pos, st);
        text::lemma_line_end(s, pos);
        let end = text::line_end(s, pos);
        let next = scan_line(st, s, pos, end);
        let to = text::next_line(s, pos);
        let line = s.subrange(pos, end);
        let trimmed = text::trim_start(line);
        let lower = text::to_ascii_lower(trimmed);
        if is_fence_line(trimmed) && st.fence is Some {
            let from = st.fence->0;
            let y = (from, end);
            assert(next.found.drop_last() == st.found);
            lemma_front_stays_before(front, x.0, from);
            lemma_keeps_front(front, inner, from);
            let inner2 = spans_before(inner, from).push(y);
            assert(outermost(next.found) == front + inner2);
            lemma_not_pushed(st.found, x, y);
            lemma_through_tags(s, to, next, x, front, inner2)
        } else if st.fence is None && !is_fence_line(trimmed) && !(trimmed.len() == line.len()
            && opening_tag(lower) is Some) && closing_tag(lower) == Some(st.tags.last())
            && st.tags.len() == 1 {
            let y = (x.0, end);
            assert(next.found.drop_last() == st.found);
            lemma_keeps_front(front, inner, x.0);
            assert(outermost(next.found) == (front + spans_before(inner, x.0)).push(y));
            lemma_all_displaced(inner, x.0);
            assert(front + Seq::<(int, int)>::empty() == front);
            if end != x.1 {
                lemma_not_pushed(st.found, x, y);
                lemma_past(s, to, next, x);
            }
            next
        } else {
            lemma_through_tags(s, to, next, x, front, inner)
        }
    } else {
        st
    }
}

proof fn lemma_front_stays_before(front: Seq<(int, int)>, a: int, b: int)
    requires
        all_before(front, a),
        a <= b,
    ensures
        all_before(front, b),
{
}

proof fn lemma_not_pushed(found: Seq<(int, int)>, x: (int, int), y: (int, int))
    requires
        !found.contains(x),
        x != y,
    ensures
        !found.push(y).contains(x),
{
    if found.push(y).contains(x) {
        let k = choose|k: int| 0 <= k < found.push(y).len() && found.push(y)[k] == x;
        assert(found[k] == x);
    }
}

proof fn lemma_all_displaced(spans: Seq<(int, int)>, at: int)
    requires
        all_behind(spans, at),
    ensures
        spans_before(spans, at) == Seq::<(int, int)>::empty(),
    decreases spans.len(),
{
    if spans.len() > 0 {
        assert(spans[spans.len() - 1].0 > at);
        lemma_all_displaced(spans.drop_last(), at);
    }
}

/// Up to the line at `a` two texts that begin alike are scanned alike.
proof fn lemma_up_to(s: Seq<char>, t: Seq<char>, pos: int, a: int, st: ScanState) -> (at: ScanState)
    requires
        0 <= pos <= a < s.len(),
        a <= t.len(),
        s.take(a) == t.take(a),
        begins_line(s, a),
        scan_inv(s, pos, st),
    ensures
        scan_from(s, pos, st) == scan_from(s, a, at),
        scan_from(t, pos, st) == scan_from(t, a, at),
        scan_inv(s, a, at),
    decreases a - pos,
{
    if pos == a {
        st
    } else {
        lemma_step(s, pos, st);
        lemma_step(t, pos, st);
        text::lemma_line_end(s, pos);
        let end = text::line_end(s, pos);
        assert forall|i: int| 0 <= i < a implies s[i] == t[i] by {
            assert(s.take(a)[i] == s[i] && t.take(a)[i] == t[i]);
        }
        assert(s[a - 1] == '\n');
        assert(end <= a - 1);
        lemma_line_end_is(t, pos, end);
        assert(s.subrange(pos, end) == t.subrange(pos, end));
        lemma_scan_line_inv(s, pos, st);
        lemma_up_to(s, t, end + 1, a, scan_line(st, s, pos, end))
    }
}

/// Two scans behind a block that one of the two texts has: `s` has the block
/// `x`, and in `t` everything behind it stands `d` positions further on.
spec fn in_step(
    x: (int, int),
    d: int,
    st: ScanState,
    su: ScanState,
    front: Seq<(int, int)>,
    back: Seq<(int, int)>,
) -> bool {
    &&& match st.fence {
        None => su.fence is None,
        Some(from) => from > x.1 && su.fence == Some(from + d),
    }
    &&& su.tags == st.tags
    &&& st.tags.len() > 0 ==> {
        ||| st.xml_start < x.0 && su.xml_start == st.xml_start
        ||| st.xml_start > x.1 && su.xml_start == st.xml_start + d
    }
    &&& outermost(st.found) == front.push(x) + back
    &&& outermost(su.found) == front + shifted(back, d)
    &&& all_before(front, x.0)
    &&& all_behind(back, x.1)
}

/// The block that closes at the line from `pos` to `end`, on both sides.
proof fn lemma_close_in_step(
    x: (int, int),
    d: int,
    found: Seq<(int, int)>,
    found2: Seq<(int, int)>,
    y: (int, int),
    front: Seq<(int, int)>,
    back: Seq<(int, int)>,
) -> (back2: Seq<(int, int)>)
    requires
        outermost(found) == front.push(x) + back,
        outermost(found2) == front + shifted(back, d),
        all_before(front, x.0),
        all_behind(back, x.1),
        x.0 < x.1 < y.0,
        x.0 < y.0 + d,
    ensures
        outermost(found.push(y)) == front.push(x) + back2,
        outermost(found2.push((y.0 + d, y.1 + d))) == front + shifted(back2, d),
        all_behind(back2, x.1),
{
    let z = (y.0 + d, y.1 + d);
    assert(found.push(y).drop_last() == found);
    assert(found2.push(z).drop_last() == found2);
    let kept = spans_before(back, y.0);
    assert(all_before(front.push(x), y.0)) by {
        assert forall|i: int| 0 <= i < front.push(x).len() implies (#[trigger] front.push(x)[i]).0
            < y.0 by {
            if i < front.len() {
                assert(front[i].0 < x.0);
            }
        }
    }
    lemma_keeps_front(front.push(x), back, y.0);
    lemma_front_stays_before(front, x.0, z.0);
    lemma_keeps_front(front, shifted(back, d), z.0);
    lemma_shifted_before(back, y.0, d);
    let back2 = kept.push(y);
    assert(outermost(found.push(y)) == front.push(x) + back2);
    assert(shifted(back2, d) == shifted(kept, d).push(z));
    assert(outermost(found2.push(z)) == front + shifted(back2, d));
    assert forall|i: int| 0 <= i < back2.len() implies (#[trigger] back2[i]).0 > x.1 by {
        if i < kept.len() {
            assert(kept[i] == back[i]);
        }
    }
    back2
}

/// Two texts that go on alike have the same next line.
proof fn lemma_same_line(s: Seq<char>, t: Seq<char>, pos: int, d: int)
    requires
        0 <= pos < s.len(),
        0 <= pos + d <= t.len(),
        s.skip(pos) == t.skip(pos + d),
    ensures
        pos + d < t.len(),
        text::line_end(t, pos + d) == text::line_end(s, pos) + d,
        text::next_line(t, pos + d) == text::next_line(s, pos) + d,
        pos < text::next_line(s, pos) <= s.len(),
        text::next_line(s, pos) + d <= t.len(),
        s.subrange(pos, text::line_end(s, pos)) == t.subrange(
            pos + d,
            text::line_end(s, pos) + d,
        ),
        s.skip(text::next_line(s, pos)) == t.skip(text::next_line(s, pos) + d),
{
    assert(s.skip(pos).len() == s.len() - pos);
    assert(t.skip(pos + d).len() == t.len() - (pos + d));
    text::lemma_line_end(s, pos);
    let end = text::line_end(s, pos);
    let to = text::next_line(s, pos);
    assert forall|i: int| pos <= i < s.len() implies s[i] == #[trigger] t[i + d] by {
        assert(s.skip(pos)[i - pos] == s[i]);
        assert(t.skip(pos + d)[i - pos] == t[i + d]);
    }
    assert forall|i: int| pos + d <= i < end + d implies t[i] != '\n' by {
        assert(s[i - d] == t[i - d + d]);
    }
    if end < s.len() {
        assert(s[end] == t[end + d]);
    }
    lemma_line_end_is(t, pos + d, end + d);
    assert forall|i: int| 0 <= i < end - pos implies s.subrange(pos, end)[i] == t.subrange(
        pos + d,
        end + d,
    )[i] by {
        assert(s[pos + i] == t[pos + i + d]);
    }
    assert(s.subrange(pos, end) =~= t.subrange(pos + d, end + d));
    assert forall|i: int| 0 <= i < s.skip(to).len() implies s.skip(to)[i] == t.skip(to + d)[i] by {
        assert(s[to + i] == t[to + i + d]);
    }
    assert(s.skip(to) =~= t.skip(to + d));
}

/// The scan behind a line closes the outermost tag, which opened before `x`.
spec fn closes_around(st: ScanState, x: (int, int), next: ScanState) -> bool {
    &&& st.fence is None
    &&& st.tags.len() == 1
    &&& st.xml_start < x.0
    &&& next.found.len() > st.found.len()
}

/// One line, on both sides.
proof fn lemma_line_in_step(
    s: Seq<char>,
    t: Seq<char>,
    pos: int,
    end: int,
    x: (int, int),
    d: int,
    st: ScanState,
    su: ScanState,
    front: Seq<(int, int)>,
    back: Seq<(int, int)>,
) -> (back2: Seq<(int, int)>)
    requires
        0 <= x.0 < x.1 < pos <= end,
        x.0 <= x.1 + d,
        s.subrange(pos, end) == t.subrange(pos + d, end + d),
        in_step(x, d, st, su, front, back),
        !closes_around(st, x, scan_line(st, s, pos, end)),
    ensures
        in_step(
            x,
            d,
            scan_line(st, s, pos, end),
            scan_line(su, t, pos + d, end + d),
            front,
            back2,
        ),
{
    let next = scan_line(st, s, pos, end);
    let line = s.subrange(pos, end);
    let trimmed = text::trim_start(line);
    let lower = text::to_ascii_lower(trimmed);
    if is_fence_line(trimmed) {
        if st.fence is Some {
            lemma_close_in_step(x, d, st.found, su.found, (st.fence->0, end), front, back)
        } else {
            back
        }
    } else if st.fence is None && !(trimmed.len() == line.len() && opening_tag(lower) is Some)
        && st.tags.len() == 1 && closing_tag(lower) == Some(st.tags.last()) {
        assert(next.found.len() > st.found.len());
        lemma_close_in_step(x, d, st.found, su.found, (st.xml_start, end), front, back)
    } else {
        back
    }
}

/// From behind the block on, the two texts are scanned in step.
proof fn lemma_in_step(
    s: Seq<char>,
    t: Seq<char>,
    pos: int,
    x: (int, int),
    d: int,
    st: ScanState,
    su: ScanState,
    front: Seq<(int, int)>,
    back: Seq<(int, int)>,
) -> (rest: Seq<(int, int)>)
    requires
        0 <= x.0 < x.1 <= pos <= s.len(),
        pos < s.len() ==> x.1 < pos,
        x.0 <= x.1 + d,
        0 <= pos + d <= t.len(),
        s.skip(pos) == t.skip(pos + d),
        in_step(x, d, st, su, front, back),
        outermost(scan_from(s, pos, st).found).contains(x),
        blocks_in_order(s, scan_from(s, pos, st).found),
    ensures
        outermost(scan_from(s, pos, st).found) == front.push(x) + rest,
        outermost(scan_from(t, pos + d, su).found) == front + shifted(rest, d),
    decreases s.len() - pos,
{
    assert(s.skip(pos).len() == s.len() - pos);
    assert(t.skip(pos + d).len() == t.len() - (pos + d));
    if pos < s.len() {
        lemma_same_line(s, t, pos, d);
        lemma_step(s, pos, st);
        lemma_step(t, pos + d, su);
        let end = text::line_end(s, pos);
        let to = text::next_line(s, pos);
        let next = scan_line(st, s, pos, end);
        let next2 = scan_line(su, t, pos + d, end + d);
        if closes_around(st, x, next) {
            let y = (st.xml_start, end);
            assert(next.found[st.found.len() as int] == y);
            lemma_found_stays(s, to, next, y);
            lemma_not_inside(s, scan_from(s, pos, st).found, x, y);
        }
        let back2 = lemma_line_in_step(s, t, pos, end, x, d, st, su, front, back);
        lemma_in_step(s, t, to, x, d, next, next2, front, back2)
    } else {
        back
    }
}

/// An outermost block stands inside no other block.
proof fn lemma_not_inside(s: Seq<char>, found: Seq<(int, int)>, x: (int, int), y: (int, int))
    requires
        blocks_in_order(s, found),
        outermost(found).contains(x),
        found.contains(y),
    ensures
        y.0 < x.0 ==> y.1 < x.1,
{
    let kept = outermost(found);
    let k = choose|k: int| 0 <= k < found.len() && found[k] == y;
    assert(covered(found[k], kept));
    let i = choose|i: int| 0 <= i < kept.len() && within(found[k], #[trigger] kept[i]);
    let j = choose|j: int| 0 <= j < kept.len() && kept[j] == x;
    assert(kept[j].0 < kept[j].1);
    if i < j {
        assert(kept[i].1 < kept[j].0);
    } else if j < i {
        assert(kept[j].1 < kept[i].0);
    }
}

/// A plain line changes nothing for the scan of the text behind it.
proof fn lemma_over_line(s: Seq<char>, x: (int, int), line: Seq<char>, st: ScanState)
    requires
        0 <= x.0 < x.1 <= s.len(),
        ends_line(s, x.1),
        is_plain_line(line),
        st.fence is None,
    ensures
        ({
            let t = elide::splice(s, x, line);
            let d = line.len() - (x.1 - x.0);
            &&& t.len() == s.len() + d
            &&& scan_from(t, x.0, st) == scan_from(t, behind(s, x.1) + d, st)
            &&& s.skip(behind(s, x.1)) == t.skip(behind(s, x.1) + d)
        }),
{
    let t = elide::splice(s, x, line);
    let d = line.len() - (x.1 - x.0);
    let a = x.0;
    let end = a + line.len() as int;
    assert forall|k: int| a <= k < end implies t[k] != '\n' by {
        assert(t[k] == line[k - a]);
        assert(line.contains(line[k - a]));
    }
    assert(t.len() == s.len() + d);
    assert forall|k: int| x.1 <= k < s.len() implies #[trigger] s[k] == t[k + d] by {}
    lemma_line_end_is(t, a, end);
    lemma_step(t, a, st);
    assert(t.subrange(a, end) =~= line);
    assert(scan_line(st, t, a, end) == st);
    assert(s.skip(behind(s, x.1)) =~= t.skip(behind(s, x.1) + d));
}

/// A plain line in the place of an outermost block leaves the other outermost
/// blocks as they are: those before it where they were, those behind it moved by
/// the difference of the two lengths.
pub proof fn law_plain_line_replaces_block(s: Seq<char>, i: int, line: Seq<char>)
    requires
        0 <= i < block_spans(s).len(),
        is_plain_line(line),
    ensures
        ({
            let spans = block_spans(s);
            let d = line.len() - (spans[i].1 - spans[i].0);
            block_spans(elide::splice(s, spans[i], line)) == spans.take(i) + shifted(
                spans.skip(i + 1),
                d,
            )
        }),
{
    let spans = block_spans(s);
    let x = spans[i];
    let d = line.len() - (x.1 - x.0);
    let t = elide::splice(s, x, line);
    law_block_spans(s);
    assert(0 <= x.0 < x.1 <= s.len());
    assert(begins_line(s, x.0) && ends_line(s, x.1));
    assert(s.take(x.0) =~= t.take(x.0));
    assert(scan_inv(s, 0, scan_init()));
    let st = lemma_up_to(s, t, 0, x.0, scan_init());
    let front = outermost(st.found);
    lemma_before_block(s, st, x);
    assert(found_blocks(s).contains(x));
    let after = lemma_through_block(s, st, x);
    lemma_over_line(s, x, line, st);
    let none = Seq::<(int, int)>::empty();
    assert(front.push(x) + none =~= front.push(x));
    assert(front + shifted(none, d) =~= front);
    assert(spans.contains(x));
    let rest = lemma_in_step(s, t, behind(s, x.1), x, d, after, st, front, none);
    lemma_same_place(spans, s.len() as int, front, x, rest, i);
    assert(spans.take(i) =~= front);
    assert(spans.skip(i + 1) =~= rest);
}

/// Before the first line of a block, nothing of it was found.
proof fn lemma_before_block(s: Seq<char>, st: ScanState, x: (int, int))
    requires
        0 <= x.0 < x.1 <= s.len(),
        scan_inv(s, x.0, st),
    ensures
        all_before(outermost(st.found), x.0),
        !st.found.contains(x),
{
    let front = outermost(st.found);
    assert forall|k: int| 0 <= k < front.len() implies (#[trigger] front[k]).0 < x.0 by {
        assert(front[k].0 < front[k].1);
    }
    if st.found.contains(x) {
        let k = choose|k: int| 0 <= k < st.found.len() && st.found[k] == x;
        assert(covered(st.found[k], front));
        let m = choose|m: int| 0 <= m < front.len() && within(st.found[k], #[trigger] front[m]);
        assert(front[m].1 < x.0);
    }
}

/// `x` stands in a list of spans in order at one place only.
proof fn lemma_same_place(
    spans: Seq<(int, int)>,
    len: int,
    front: Seq<(int, int)>,
    x: (int, int),
    rest: Seq<(int, int)>,
    i: int,
)
    requires
        spans_ordered(spans, len),
        spans == front.push(x) + rest,
        0 <= i < spans.len(),
        spans[i] == x,
    ensures
        i == front.len(),
{
    let k = front.len() as int;
    assert(spans[k] == x);
    if i < k {
        assert(spans[i].1 < spans[k].0);
    } else if k < i {
        assert(spans[k].1 < spans[i].0);
    }
}

/// From the first line of the block `x` to the line behind it.
proof fn lemma_through_block(s: Seq<char>, st: ScanState, x: (int, int)) -> (after: ScanState)
    requires
        0 <= x.0 < x.1 <= s.len(),
        scan_inv(s, x.0, st),
        !st.found.contains(x),
        scan_from(s, x.0, st).found.contains(x),
        all_before(outermost(st.found), x.0),
    ensures
        st.fence is None,
        scan_from(s, x.0, st) == scan_from(s, behind(s, x.1), after),
        after.fence is None,
        after.tags == st.tags,
        st.tags.len() > 0 ==> after.xml_start == st.xml_start,
        st.tags.len() > 0 ==> st.xml_start < x.0,
        outermost(after.found) == outermost(st.found).push(x),
{
    let a = x.0;
    let front = outermost(st.found);
    lemma_step(s, a, st);
    text::lemma_line_end(s, a);
    let end = text::line_end(s, a);
    let to = text::next_line(s, a);
    let next = scan_line(st, s, a, end);
    let line = s.subrange(a, end);
    let trimmed = text::trim_start(line);
    let lower = text::to_ascii_lower(trimmed);
    if is_fence_line(trimmed) && st.fence is None {
        lemma_through_fence(s, to, next, x);
        let after = ScanState { fence: None, found: st.found.push(x), ..st };
        assert(after == (ScanState { fence: None, found: next.found.push(x), ..next }));
        assert(after.found.drop_last() == st.found);
        let none = Seq::<(int, int)>::empty();
        lemma_keeps_front(front, none, a);
        assert(front + none == front);
        after
    } else if !is_fence_line(trimmed) && st.fence is None && trimmed.len() == line.len()
        && opening_tag(lower) is Some && st.tags.len() == 0 {
        let none = Seq::<(int, int)>::empty();
        assert(front + none == front);
        let after = lemma_through_tags(s, to, next, x, front, none);
        assert(after.tags =~= st.tags);
        after
    } else {
        assert(past(next, a));
        assert(!next.found.contains(x)) by {
            if next.found.contains(x) {
                let k = choose|k: int| 0 <= k < next.found.len() && next.found[k] == x;
                if k < st.found.len() {
                    assert(st.found[k] == x);
                }
            }
        }
        lemma_past(s, to, next, x);
        st
    }
}

} // verus!
