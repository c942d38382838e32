//! A second elision finds nothing to do.
//!
//! What the first one replaced is a placeholder now, which no elision touches.
//! What it left was too small, or too recent: eliding only makes items smaller,
//! so that what was recent stays so.

use vstd::prelude::*;

use crate::items::ContentItemView;
use crate::items::FunctionCallOutputBodyView;
use crate::items::FunctionCallOutputContentItemView;
use crate::items::FunctionCallOutputPayloadView;
use crate::items::ResponseItemEnvelopeView;
use crate::items::ResponseItemView;
use crate::shake::blocks;
use crate::shake::blocks::replaced;
use crate::shake::elide;
use crate::shake::elide::ElideRegionView;
use crate::shake::elide_laws::is_region_of;
use crate::shake::elide_laws::law_elided_output_stays;
use crate::shake::elide_laws::law_items_keep_their_identity;
use crate::shake::elide_laws::law_saved_regions_are_replaced;
use crate::shake::elide_laws::lemma_plan;
use crate::shake::elide_laws::same_identity;
use crate::shake::protection;
use crate::shake::recovery;
use crate::shake::sizes;
use crate::text;

verus! {

/// The placeholder of a region saved at `path`.
pub open spec fn placeholder_of(region: ElideRegionView, path: Seq<char>) -> Seq<char> {
    recovery::placeholder_text(region.tokens, region.label, path)
}

/// The region was saved at a path that is not empty. Its placeholder is one
/// line of fewer than 200 tokens.
pub open spec fn saved_in_short(region: ElideRegionView, path: Option<Seq<char>>) -> bool {
    &&& path is Some
    &&& path->0.len() > 0
    &&& !path->0.contains('\n')
    &&& !region.label.contains('\n')
    &&& sizes::token_count(placeholder_of(region, path->0)) < 200
}

proof fn lemma_placeholder_is_plain(tokens: nat, label: Seq<char>, path: Seq<char>)
    requires
        !label.contains('\n'),
        !path.contains('\n'),
    ensures
        replaced::is_plain_line(recovery::placeholder_text(tokens, label, path)),
{
    let line = recovery::placeholder_text(tokens, label, path);
    recovery::law_placeholder_is_one_line(tokens, label, path);
    reveal_strlit("[shaken ~");
    reveal_strlit("```");
    reveal_strlit("~~~");
    reveal_strlit("</");
    assert(line[0] == '[');
    assert(text::trim_start(line) == line);
    let lower = text::to_ascii_lower(line);
    assert(lower[0] == '[');
    if text::starts_with(line, "```"@) {
        assert(line.subrange(0, 3)[0] == line[0]);
    }
    if text::starts_with(line, "~~~"@) {
        assert(line.subrange(0, 3)[0] == line[0]);
    }
    if text::starts_with(lower, "</"@) {
        assert(lower.subrange(0, 2)[0] == lower[0]);
    }
}

/// The last of the first `n` blocks that is worth eliding.
proof fn lemma_last_worthy(
    item: int,
    part: int,
    content: Seq<char>,
    role: Seq<char>,
    n: int,
) -> (q: int)
    requires
        0 <= n,
        elide::text_regions(item, part, content, role, n).len() > 0,
    ensures
        0 <= q < n,
        elide::text_regions(item, part, content, role, n) == elide::text_regions(
            item,
            part,
            content,
            role,
            q + 1,
        ),
        elide::text_regions(item, part, content, role, q + 1).drop_last() == elide::text_regions(
            item,
            part,
            content,
            role,
            q,
        ),
        elide::text_regions(item, part, content, role, n).last().block->0.part == part,
        elide::text_regions(item, part, content, role, n).last().block->0.span
            == blocks::block_spans(content)[q],
        elide::text_regions(item, part, content, role, n).last().item == item,
        elide::text_regions(item, part, content, role, n).last().block is Some,
        forall|m: int|
            #![trigger blocks::block_spans(content)[m]]
            q < m < n ==> !elide::is_worth_eliding(
                content.subrange(
                    blocks::block_spans(content)[m].0,
                    blocks::block_spans(content)[m].1,
                ),
            ),
    decreases n,
{
    let span = blocks::block_spans(content)[n - 1];
    if elide::is_worth_eliding(content.subrange(span.0, span.1)) {
        assert(elide::text_regions(item, part, content, role, n).drop_last()
            =~= elide::text_regions(item, part, content, role, n - 1));
        n - 1
    } else {
        lemma_last_worthy(item, part, content, role, n - 1)
    }
}

/// Where a text had its blocks, and where it has them behind a replacement.
spec fn blocks_moved(
    content: Seq<char>,
    changed: Seq<char>,
    q: int,
    d: int,
) -> bool {
    let spans = blocks::block_spans(content);
    let moved = blocks::block_spans(changed);
    &&& 0 <= q < spans.len()
    &&& moved.len() == spans.len() - 1
    &&& forall|m: int|
        0 <= m < q ==> #[trigger] moved[m] == spans[m] && changed.subrange(
            moved[m].0,
            moved[m].1,
        ) == content.subrange(spans[m].0, spans[m].1)
    &&& forall|m: int|
        q <= m < moved.len() ==> #[trigger] moved[m] == (spans[m + 1].0 + d, spans[m + 1].1 + d)
            && changed.subrange(moved[m].0, moved[m].1) == content.subrange(
            spans[m + 1].0,
            spans[m + 1].1,
        )
}

proof fn lemma_blocks_moved(content: Seq<char>, q: int, placeholder: Seq<char>)
    requires
        0 <= q < blocks::block_spans(content).len(),
        replaced::is_plain_line(placeholder),
    ensures
        ({
            let span = blocks::block_spans(content)[q];
            blocks_moved(
                content,
                elide::splice(content, span, placeholder),
                q,
                placeholder.len() - (span.1 - span.0),
            )
        }),
{
    let spans = blocks::block_spans(content);
    let span = spans[q];
    let d = placeholder.len() - (span.1 - span.0);
    let changed = elide::splice(content, span, placeholder);
    let moved = blocks::block_spans(changed);
    blocks::law_block_spans(content);
    replaced::law_plain_line_replaces_block(content, q, placeholder);
    assert(0 <= span.0 < span.1 <= content.len());
    assert(moved.len() == spans.len() - 1);
    assert forall|m: int| 0 <= m < q implies #[trigger] moved[m] == spans[m] && changed.subrange(
        moved[m].0,
        moved[m].1,
    ) == content.subrange(spans[m].0, spans[m].1) by {
        assert(moved[m] == spans.take(q)[m]);
        assert(0 <= spans[m].0 < spans[m].1 <= content.len());
        assert(spans[m].1 < spans[q].0);
        assert(changed.subrange(spans[m].0, spans[m].1) =~= content.subrange(
            spans[m].0,
            spans[m].1,
        ));
    }
    assert forall|m: int| q <= m < moved.len() implies #[trigger] moved[m] == (
        spans[m + 1].0 + d,
        spans[m + 1].1 + d,
    ) && changed.subrange(moved[m].0, moved[m].1) == content.subrange(
        spans[m + 1].0,
        spans[m + 1].1,
    ) by {
        assert(moved[m] == replaced::shifted(spans.skip(q + 1), d)[m - q]);
        assert(spans.skip(q + 1)[m - q] == spans[m + 1]);
        let y = spans[m + 1];
        assert(0 <= y.0 < y.1 <= content.len());
        assert(spans[q].1 < y.0);
        assert(changed.subrange(y.0 + d, y.1 + d) =~= content.subrange(y.0, y.1));
    }
}

/// The blocks before the replaced one make the same regions.
proof fn lemma_front_regions(
    item: int,
    part: int,
    content: Seq<char>,
    changed: Seq<char>,
    role: Seq<char>,
    q: int,
    d: int,
    n: int,
)
    requires
        blocks_moved(content, changed, q, d),
        0 <= n <= q,
    ensures
        elide::text_regions(item, part, changed, role, n) == elide::text_regions(
            item,
            part,
            content,
            role,
            n,
        ),
    decreases n,
{
    if n > 0 {
        lemma_front_regions(item, part, content, changed, role, q, d, n - 1);
        assert(blocks::block_spans(changed)[n - 1] == blocks::block_spans(content)[n - 1]);
    }
}

/// The blocks behind the last one worth eliding make no regions.
proof fn lemma_back_regions(
    item: int,
    part: int,
    content: Seq<char>,
    changed: Seq<char>,
    role: Seq<char>,
    q: int,
    d: int,
    n: int,
)
    requires
        blocks_moved(content, changed, q, d),
        q <= n <= blocks::block_spans(changed).len(),
        forall|m: int|
            #![trigger blocks::block_spans(content)[m]]
            q < m < blocks::block_spans(content).len() ==> !elide::is_worth_eliding(
                content.subrange(
                    blocks::block_spans(content)[m].0,
                    blocks::block_spans(content)[m].1,
                ),
            ),
    ensures
        elide::text_regions(item, part, changed, role, n) == elide::text_regions(
            item,
            part,
            content,
            role,
            q,
        ),
    decreases n,
{
    if n == q {
        lemma_front_regions(item, part, content, changed, role, q, d, q);
    } else {
        lemma_back_regions(item, part, content, changed, role, q, d, n - 1);
        let y = blocks::block_spans(content)[n];
        assert(!elide::is_worth_eliding(content.subrange(y.0, y.1)));
        let z = blocks::block_spans(changed)[n - 1];
        assert(changed.subrange(z.0, z.1) == content.subrange(y.0, y.1));
    }
}

/// All regions of one message part.
spec fn part_regions(item: int, part: int, role: Seq<char>, content: ContentItemView) -> Seq<
    ElideRegionView,
> {
    match elide::part_text(content) {
        Some(words) => elide::text_regions(
            item,
            part,
            words,
            role,
            blocks::block_spans(words).len() as int,
        ),
        None => Seq::empty(),
    }
}

/// Replacing the last region of a part leaves the others.
proof fn lemma_part_without_last(
    item: int,
    part: int,
    role: Seq<char>,
    content: ContentItemView,
    placeholder: Seq<char>,
)
    requires
        part_regions(item, part, role, content).len() > 0,
        replaced::is_plain_line(placeholder),
    ensures
        ({
            let regions = part_regions(item, part, role, content);
            let span = regions.last().block->0.span;
            &&& regions.last().item == item
            &&& regions.last().block is Some
            &&& regions.last().block->0.part == part
            &&& part_regions(
                item,
                part,
                role,
                elide::with_part_text(
                    content,
                    elide::splice(elide::part_text(content)->0, span, placeholder),
                ),
            ) == regions.drop_last()
        }),
{
    let words = elide::part_text(content)->0;
    let n = blocks::block_spans(words).len() as int;
    let q = lemma_last_worthy(item, part, words, role, n);
    let span = blocks::block_spans(words)[q];
    let changed = elide::splice(words, span, placeholder);
    lemma_blocks_moved(words, q, placeholder);
    lemma_back_regions(
        item,
        part,
        words,
        changed,
        role,
        q,
        placeholder.len() - (span.1 - span.0),
        n - 1,
    );
    assert(elide::part_text(elide::with_part_text(content, changed)) == Some(changed));
}

proof fn lemma_same_parts(
    item: int,
    role: Seq<char>,
    content: Seq<ContentItemView>,
    changed: Seq<ContentItemView>,
    n: int,
)
    requires
        0 <= n <= content.len(),
        n <= changed.len(),
        forall|j: int| 0 <= j < n ==> content[j] == changed[j],
    ensures
        elide::message_regions(item, role, changed, n) == elide::message_regions(
            item,
            role,
            content,
            n,
        ),
    decreases n,
{
    if n > 0 {
        lemma_same_parts(item, role, content, changed, n - 1);
        assert(content[n - 1] == changed[n - 1]);
    }
}

/// Replacing the last region of a message leaves the others.
proof fn lemma_message_without_last(
    item: int,
    role: Seq<char>,
    content: Seq<ContentItemView>,
    n: int,
    placeholder: Seq<char>,
)
    requires
        0 <= n <= content.len(),
        elide::message_regions(item, role, content, n).len() > 0,
        replaced::is_plain_line(placeholder),
    ensures
        ({
            let regions = elide::message_regions(item, role, content, n);
            let place = regions.last().block->0;
            &&& regions.last().item == item
            &&& regions.last().block is Some
            &&& 0 <= place.part < n
            &&& elide::message_regions(
                item,
                role,
                content.update(
                    place.part,
                    elide::with_part_text(
                        content[place.part],
                        elide::splice(
                            elide::part_text(content[place.part])->0,
                            place.span,
                            placeholder,
                        ),
                    ),
                ),
                n,
            ) == regions.drop_last()
        }),
    decreases n,
{
    let regions = elide::message_regions(item, role, content, n);
    let front = elide::message_regions(item, role, content, n - 1);
    let back = part_regions(item, n - 1, role, content[n - 1]);
    assert(regions == front + back);
    if back.len() > 0 {
        lemma_part_without_last(item, n - 1, role, content[n - 1], placeholder);
        assert(regions.last() == back.last());
        let place = regions.last().block->0;
        let changed = content.update(
            place.part,
            elide::with_part_text(
                content[place.part],
                elide::splice(elide::part_text(content[place.part])->0, place.span, placeholder),
            ),
        );
        lemma_same_parts(item, role, content, changed, n - 1);
        assert(elide::message_regions(item, role, changed, n) == front + part_regions(
            item,
            n - 1,
            role,
            changed[n - 1],
        ));
        assert(front + back.drop_last() =~= regions.drop_last());
    } else {
        assert(regions =~= front);
        lemma_message_without_last(item, role, content, n - 1, placeholder);
        let place = regions.last().block->0;
        let changed = content.update(
            place.part,
            elide::with_part_text(
                content[place.part],
                elide::splice(elide::part_text(content[place.part])->0, place.span, placeholder),
            ),
        );
        assert(changed[n - 1] == content[n - 1]);
        assert(elide::message_regions(item, role, changed, n) == elide::message_regions(
            item,
            role,
            changed,
            n - 1,
        ) + back);
        assert(elide::message_regions(item, role, changed, n) =~= regions.drop_last());
    }
}

/// The block regions of item `i` of `now`, where it was old in `items`.
spec fn marked_item(
    items: Seq<ResponseItemEnvelopeView>,
    protect_tokens: nat,
    now: Seq<ResponseItemEnvelopeView>,
    i: int,
) -> Seq<ElideRegionView> {
    if !elide::is_old(items, protect_tokens, i) {
        Seq::empty()
    } else {
        match now[i].item {
            ResponseItemView::Message { role, content, .. } => elide::message_regions(
                i,
                role,
                content,
                content.len() as int,
            ),
            _ => Seq::empty(),
        }
    }
}

/// The block regions of the first `n` items of `now`, where they were old in
/// `items`.
spec fn marked(
    items: Seq<ResponseItemEnvelopeView>,
    protect_tokens: nat,
    now: Seq<ResponseItemEnvelopeView>,
    n: int,
) -> Seq<ElideRegionView>
    decreases n,
{
    if n <= 0 {
        Seq::empty()
    } else {
        marked(items, protect_tokens, now, n - 1) + marked_item(items, protect_tokens, now, n - 1)
    }
}

proof fn lemma_marked_start(items: Seq<ResponseItemEnvelopeView>, protect_tokens: nat, n: int)
    ensures
        marked(items, protect_tokens, items, n) == elide::block_regions(items, protect_tokens, n),
    decreases n,
{
    if n > 0 {
        lemma_marked_start(items, protect_tokens, n - 1);
    }
}

proof fn lemma_marked_same(
    items: Seq<ResponseItemEnvelopeView>,
    protect_tokens: nat,
    now: Seq<ResponseItemEnvelopeView>,
    changed: Seq<ResponseItemEnvelopeView>,
    n: int,
)
    requires
        forall|i: int|
            0 <= i < n && (now[i].item is Message || changed[i].item is Message)
                ==> #[trigger] changed[i] == now[i],
    ensures
        marked(items, protect_tokens, changed, n) == marked(items, protect_tokens, now, n),
    decreases n,
{
    if n > 0 {
        lemma_marked_same(items, protect_tokens, now, changed, n - 1);
        assert(now[n - 1].item is Message || changed[n - 1].item is Message ==> changed[n - 1]
            == now[n - 1]);
    }
}

/// Replacing the last block of a history leaves the others.
proof fn lemma_marked_without_last(
    items: Seq<ResponseItemEnvelopeView>,
    protect_tokens: nat,
    now: Seq<ResponseItemEnvelopeView>,
    n: int,
    path: Seq<char>,
)
    requires
        0 <= n <= now.len(),
        marked(items, protect_tokens, now, n).len() > 0,
        elide::region_fits(now, marked(items, protect_tokens, now, n).last()),
        replaced::is_plain_line(
            placeholder_of(marked(items, protect_tokens, now, n).last(), path),
        ),
    ensures
        marked(
            items,
            protect_tokens,
            elide::apply_region(now, marked(items, protect_tokens, now, n).last(), Some(path)),
            n,
        ) == marked(items, protect_tokens, now, n).drop_last(),
        0 <= marked(items, protect_tokens, now, n).last().item < n,
    decreases n,
{
    let regions = marked(items, protect_tokens, now, n);
    let front = marked(items, protect_tokens, now, n - 1);
    let back = marked_item(items, protect_tokens, now, n - 1);
    let region = regions.last();
    let changed = elide::apply_region(now, region, Some(path));
    assert(regions == front + back);
    if back.len() > 0 {
        assert(region == back.last());
        let role = now[n - 1].item->Message_role;
        let content = now[n - 1].item->Message_content;
        lemma_message_without_last(
            n - 1,
            role,
            content,
            content.len() as int,
            placeholder_of(region, path),
        );
        lemma_marked_same(items, protect_tokens, now, changed, n - 1);
        assert(marked_item(items, protect_tokens, changed, n - 1) == back.drop_last());
        assert(front + back.drop_last() =~= regions.drop_last());
    } else {
        assert(regions =~= front);
        lemma_marked_without_last(items, protect_tokens, now, n - 1, path);
        assert(changed[n - 1] == now[n - 1]);
        assert(marked_item(items, protect_tokens, changed, n - 1) == back);
        assert(marked(items, protect_tokens, changed, n) =~= regions.drop_last());
    }
}

/// Every block region that was replaced is gone, and no other came up.
proof fn lemma_blocks_left(
    items: Seq<ResponseItemEnvelopeView>,
    protect_tokens: nat,
    paths: Seq<Option<Seq<char>>>,
    n: int,
)
    requires
        paths.len() == elide::elision_plan(items, protect_tokens).len(),
        0 <= n <= paths.len(),
        forall|k: int|
            0 <= k < paths.len() ==> saved_in_short(
                elide::elision_plan(items, protect_tokens)[k],
                #[trigger] paths[k],
            ),
    ensures
        ({
            let plan = elide::elision_plan(items, protect_tokens);
            let now = elide::apply_regions(items, plan, paths, n);
            let len = items.len() as int;
            let found = elide::block_regions(items, protect_tokens, len);
            let left = if plan.len() - n < found.len() {
                plan.len() - n
            } else {
                found.len() as int
            };
            &&& now.len() == items.len()
            &&& marked(items, protect_tokens, now, len) == found.take(left)
        }),
    decreases n,
{
    let plan = elide::elision_plan(items, protect_tokens);
    let len = items.len() as int;
    let found = elide::block_regions(items, protect_tokens, len);
    let tools = elide::tool_regions(items, protect_tokens, len);
    let now = elide::apply_regions(items, plan, paths, n);
    law_items_keep_their_identity(items, plan, paths, n);
    assert(plan.len() == tools.len() + found.len());
    if n == 0 {
        lemma_marked_start(items, protect_tokens, len);
        assert(found.take(found.len() as int) =~= found);
    } else {
        lemma_blocks_left(items, protect_tokens, paths, n - 1);
        lemma_plan(items, protect_tokens);
        let before = elide::apply_regions(items, plan, paths, n - 1);
        let region = plan[n - 1];
        law_saved_regions_are_replaced(items, protect_tokens, paths, n - 1);
        assert(saved_in_short(region, paths[n - 1]));
        assert(is_region_of(before, region));
        if n - 1 < tools.len() {
            assert(region.block is None);
            assert(!(before[region.item].item is Message));
            lemma_marked_same(items, protect_tokens, before, now, len);
        } else {
            let left = plan.len() - (n - 1);
            assert(region == found[left - 1]);
            assert(found.take(left).last() == region);
            assert(found.take(left).drop_last() =~= found.take(left - 1));
            lemma_placeholder_is_plain(region.tokens, region.label, paths[n - 1]->0);
            lemma_marked_without_last(items, protect_tokens, before, len, paths[n - 1]->0);
        }
    }
}

/// The bytes of the texts among some output parts.
spec fn text_bytes(items: Seq<FunctionCallOutputContentItemView>) -> nat
    decreases items.len(),
{
    if items.len() == 0 {
        0
    } else {
        text_bytes(items.drop_last()) + (match items.last() {
            FunctionCallOutputContentItemView::InputText { text } => text::byte_len(text),
            _ => 0,
        })
    }
}

/// The bytes of some output parts.
spec fn part_bytes(items: Seq<FunctionCallOutputContentItemView>) -> nat {
    text::total(
        items.map_values(|part: FunctionCallOutputContentItemView| sizes::output_item_bytes(part)),
    )
}

proof fn lemma_part_bytes(items: Seq<FunctionCallOutputContentItemView>)
    ensures
        items.len() == 0 ==> part_bytes(items) == 0,
        items.len() > 0 ==> part_bytes(items) == part_bytes(items.drop_last())
            + sizes::output_item_bytes(items.last()),
{
    let all = items.map_values(
        |part: FunctionCallOutputContentItemView| sizes::output_item_bytes(part),
    );
    if items.len() > 0 {
        assert(all.drop_last() =~= items.drop_last().map_values(
            |part: FunctionCallOutputContentItemView| sizes::output_item_bytes(part),
        ));
    }
}

proof fn lemma_part_bytes_push(
    items: Seq<FunctionCallOutputContentItemView>,
    part: FunctionCallOutputContentItemView,
)
    ensures
        part_bytes(items.push(part)) == part_bytes(items) + sizes::output_item_bytes(part),
{
    lemma_part_bytes(items.push(part));
    assert(items.push(part).drop_last() =~= items);
}

/// Replacing the texts takes away their bytes and adds those of the placeholder.
proof fn lemma_replaced_bytes(
    items: Seq<FunctionCallOutputContentItemView>,
    placeholder: Seq<char>,
)
    ensures
        part_bytes(elide::replace_text(items, placeholder)) + text_bytes(items) <= part_bytes(items)
            + text::byte_len(placeholder),
        !elide::has_text_part(items) ==> part_bytes(elide::replace_text(items, placeholder))
            + text_bytes(items) == part_bytes(items),
    decreases items.len(),
{
    lemma_part_bytes(items);
    if items.len() == 0 {
        lemma_part_bytes(elide::replace_text(items, placeholder));
    } else {
        let front = elide::replace_text(items.drop_last(), placeholder);
        lemma_replaced_bytes(items.drop_last(), placeholder);
        if elide::has_text_part(items.drop_last()) {
            let i = choose|i: int|
                0 <= i < items.drop_last().len() && (
                #[trigger] items.drop_last()[i]) is InputText;
            assert(items[i] is InputText);
        }
        match items.last() {
            FunctionCallOutputContentItemView::InputText { .. } => {
                assert(items[items.len() - 1] is InputText);
                lemma_part_bytes_push(
                    front,
                    FunctionCallOutputContentItemView::InputText { text: placeholder },
                );
            },
            other => {
                lemma_part_bytes_push(front, other);
            },
        }
    }
}

/// The texts joined are at most twice as long as the texts.
proof fn lemma_fragment_bytes(items: Seq<FunctionCallOutputContentItemView>)
    ensures
        ({
            let fragments = elide::text_fragments(items);
            &&& fragments.len() <= text_bytes(items)
            &&& fragments.len() > 0 ==> text::byte_len(text::join(fragments, "\n"@)) + 1
                <= text_bytes(items) + fragments.len()
        }),
    decreases items.len(),
{
    if items.len() > 0 {
        let front = elide::text_fragments(items.drop_last());
        lemma_fragment_bytes(items.drop_last());
        if let FunctionCallOutputContentItemView::InputText { text } = items.last() {
            if text.len() > 0 {
                let all = front.push(text);
                text::lemma_byte_len_bounds(text);
                assert(all.drop_last() =~= front);
                if front.len() > 0 {
                    let joined = text::join(front, "\n"@);
                    text::lemma_byte_len_concat(joined, "\n"@);
                    text::lemma_byte_len_concat(joined + "\n"@, text);
                    lemma_newline_is_a_byte();
                }
            }
        }
    }
}

proof fn lemma_newline_is_a_byte()
    ensures
        text::byte_len("\n"@) == 1,
{
    reveal_strlit("\n");
    let none = "\n"@.drop_last();
    assert(none.len() == 0);
    assert(text::byte_len(none) == 0);
}

/// A tool output is no larger behind an elision than before.
proof fn lemma_smaller_output(
    output: FunctionCallOutputPayloadView,
    content: Seq<char>,
    placeholder: Seq<char>,
)
    requires
        elide::payload_text(output) == Some(content),
        elide::is_worth_eliding(content),
        sizes::token_count(placeholder) < 200,
    ensures
        sizes::payload_bytes(elide::elided_payload(output, placeholder)) <= sizes::payload_bytes(
            output,
        ),
{
    if let FunctionCallOutputBodyView::ContentItems(items) = output.body {
        lemma_replaced_bytes(items, placeholder);
        lemma_fragment_bytes(items);
    }
}

/// The bytes of the parts of a message.
spec fn message_bytes(content: Seq<ContentItemView>) -> nat {
    text::total(content.map_values(|part: ContentItemView| sizes::content_item_bytes(part)))
}

proof fn lemma_total_update(all: Seq<nat>, i: int, by: nat)
    requires
        0 <= i < all.len(),
        by <= all[i],
    ensures
        text::total(all.update(i, by)) <= text::total(all),
    decreases all.len(),
{
    if i == all.len() - 1 {
        assert(all.update(i, by).drop_last() =~= all.drop_last());
    } else {
        assert(all.update(i, by).drop_last() =~= all.drop_last().update(i, by));
        lemma_total_update(all.drop_last(), i, by);
    }
}

/// A message is no larger behind an elision than before.
proof fn lemma_smaller_message(
    content: Seq<ContentItemView>,
    part: int,
    span: (int, int),
    placeholder: Seq<char>,
)
    requires
        0 <= part < content.len(),
        elide::part_text(content[part]) is Some,
        0 <= span.0 <= span.1 <= elide::part_text(content[part])->0.len(),
        elide::is_worth_eliding(
            elide::part_text(content[part])->0.subrange(span.0, span.1),
        ),
        sizes::token_count(placeholder) < 200,
    ensures
        message_bytes(
            content.update(
                part,
                elide::with_part_text(
                    content[part],
                    elide::splice(elide::part_text(content[part])->0, span, placeholder),
                ),
            ),
        ) <= message_bytes(content),
{
    let words = elide::part_text(content[part])->0;
    let changed = elide::splice(words, span, placeholder);
    let mid = words.subrange(span.0, span.1);
    assert(words =~= words.take(span.0) + mid + words.skip(span.1));
    text::lemma_byte_len_concat(words.take(span.0), mid);
    text::lemma_byte_len_concat(words.take(span.0) + mid, words.skip(span.1));
    text::lemma_byte_len_concat(words.take(span.0), placeholder);
    text::lemma_byte_len_concat(words.take(span.0) + placeholder, words.skip(span.1));
    let all = content.map_values(|part: ContentItemView| sizes::content_item_bytes(part));
    let now = elide::with_part_text(content[part], changed);
    lemma_total_update(all, part, sizes::content_item_bytes(now));
    assert(content.update(part, now).map_values(
        |part: ContentItemView| sizes::content_item_bytes(part),
    ) =~= all.update(part, sizes::content_item_bytes(now)));
}

/// No item is larger behind an elision than before.
proof fn lemma_no_item_grows(
    items: Seq<ResponseItemEnvelopeView>,
    protect_tokens: nat,
    paths: Seq<Option<Seq<char>>>,
    n: int,
    i: int,
)
    requires
        paths.len() == elide::elision_plan(items, protect_tokens).len(),
        0 <= n <= paths.len(),
        0 <= i < items.len(),
        forall|k: int|
            0 <= k < paths.len() ==> saved_in_short(
                elide::elision_plan(items, protect_tokens)[k],
                #[trigger] paths[k],
            ),
    ensures
        sizes::item_bytes(
            elide::apply_regions(items, elide::elision_plan(items, protect_tokens), paths, n)[i].item,
        ) <= sizes::item_bytes(items[i].item),
    decreases n,
{
    if n > 0 {
        let plan = elide::elision_plan(items, protect_tokens);
        let region = plan[n - 1];
        let before = elide::apply_regions(items, plan, paths, n - 1);
        lemma_no_item_grows(items, protect_tokens, paths, n - 1, i);
        law_items_keep_their_identity(items, plan, paths, n - 1);
        if region.item == i {
            lemma_plan(items, protect_tokens);
            law_saved_regions_are_replaced(items, protect_tokens, paths, n - 1);
            assert(saved_in_short(region, paths[n - 1]));
            assert(elide::is_worth_eliding(region.content));
            assert(is_region_of(before, region));
            let placeholder = placeholder_of(region, paths[n - 1]->0);
            match region.block {
                None => {
                    let output = elide::output_of(before[i].item)->0;
                    lemma_smaller_output(output, region.content, placeholder);
                },
                Some(place) => {
                    let content = before[i].item->Message_content;
                    lemma_smaller_message(content, place.part, place.span, placeholder);
                },
            }
        }
    }
}

/// What is old behind an elision was old before.
proof fn lemma_nothing_ages(
    items: Seq<ResponseItemEnvelopeView>,
    now: Seq<ResponseItemEnvelopeView>,
    i: int,
)
    requires
        now.len() == items.len(),
        forall|k: int|
            0 <= k < items.len() ==> sizes::item_bytes((#[trigger] now[k]).item)
                <= sizes::item_bytes(items[k].item),
        -1 <= i,
    ensures
        elide::tokens_after(now, i) <= elide::tokens_after(items, i),
    decreases items.len() - i,
{
    if i + 1 < items.len() {
        lemma_nothing_ages(items, now, i + 1);
        assert(sizes::item_bytes(now[i + 1].item) <= sizes::item_bytes(items[i + 1].item));
    }
}

/// The history from region `m` on, at an item that none of the regions touches.
proof fn lemma_kept_from(
    items: Seq<ResponseItemEnvelopeView>,
    regions: Seq<ElideRegionView>,
    paths: Seq<Option<Seq<char>>>,
    m: int,
    n: int,
    i: int,
)
    requires
        0 <= m <= n <= regions.len(),
        regions.len() == paths.len(),
        0 <= i < items.len(),
        forall|k: int| m <= k < n ==> (#[trigger] regions[k]).item != i,
    ensures
        elide::apply_regions(items, regions, paths, n)[i] == elide::apply_regions(
            items,
            regions,
            paths,
            m,
        )[i],
    decreases n - m,
{
    if m < n {
        lemma_kept_from(items, regions, paths, m, n - 1, i);
        law_items_keep_their_identity(items, regions, paths, n - 1);
        assert(regions[n - 1].item != i);
    }
}

/// The place of a tool output among the regions.
pub(crate) proof fn lemma_output_is_listed(
    items: Seq<ResponseItemEnvelopeView>,
    protect_tokens: nat,
    i: int,
    n: int,
) -> (k: int)
    requires
        0 <= i < n <= items.len(),
        elide::tool_region(items, protect_tokens, i) is Some,
    ensures
        0 <= k < elide::tool_regions(items, protect_tokens, n).len(),
        elide::tool_regions(items, protect_tokens, n)[k] == elide::tool_region(
            items,
            protect_tokens,
            i,
        )->0,
    decreases n,
{
    if i == n - 1 {
        elide::tool_regions(items, protect_tokens, n).len() - 1
    } else {
        lemma_output_is_listed(items, protect_tokens, i, n - 1)
    }
}

/// An elision changes no protection.
proof fn lemma_same_protection(
    items: Seq<ResponseItemEnvelopeView>,
    now: Seq<ResponseItemEnvelopeView>,
    i: int,
)
    requires
        now.len() == items.len(),
        0 <= i < items.len(),
        forall|k: int| 0 <= k < items.len() ==> same_identity(items[k], #[trigger] now[k]),
    ensures
        protection::is_protected_output(now, i) == protection::is_protected_output(items, i),
{
    assert forall|id: Seq<char>| #[trigger] protection::is_protected_call(now, id)
        == protection::is_protected_call(items, id) by {
        if protection::is_protected_call(items, id) {
            let k = choose|k: int|
                0 <= k < items.len() && protection::calls_protected((#[trigger] items[k]).item)
                    == Some(id);
            assert(same_identity(items[k], now[k]));
            assert(protection::calls_protected(now[k].item) == Some(id));
        }
        if protection::is_protected_call(now, id) {
            let k = choose|k: int|
                0 <= k < now.len() && protection::calls_protected((#[trigger] now[k]).item) == Some(
                    id,
                );
            assert(same_identity(items[k], now[k]));
            assert(protection::calls_protected(items[k].item) == Some(id));
        }
    }
    assert(same_identity(items[i], now[i]));
}

/// No tool output is left to elide.
proof fn lemma_no_output_left(
    items: Seq<ResponseItemEnvelopeView>,
    protect_tokens: nat,
    paths: Seq<Option<Seq<char>>>,
    i: int,
)
    requires
        paths.len() == elide::elision_plan(items, protect_tokens).len(),
        0 <= i < items.len(),
        forall|k: int|
            0 <= k < paths.len() ==> saved_in_short(
                elide::elision_plan(items, protect_tokens)[k],
                #[trigger] paths[k],
            ),
    ensures
        ({
            let plan = elide::elision_plan(items, protect_tokens);
            let now = elide::apply_regions(items, plan, paths, paths.len() as int);
            elide::is_old(items, protect_tokens, i) ==> elide::tool_region(
                now,
                protect_tokens,
                i,
            ) is None
        }),
{
    let plan = elide::elision_plan(items, protect_tokens);
    let n = paths.len() as int;
    let len = items.len() as int;
    let now = elide::apply_regions(items, plan, paths, n);
    let tools = elide::tool_regions(items, protect_tokens, len);
    lemma_plan(items, protect_tokens);
    law_items_keep_their_identity(items, plan, paths, n);
    lemma_same_protection(items, now, i);
    assert(same_identity(items[i], now[i]));
    if elide::is_old(items, protect_tokens, i) && !protection::is_protected_output(items, i)
        && elide::output_of(items[i].item) is Some {
        assert forall|k: int| tools.len() <= k < n implies (#[trigger] plan[k]).item != i by {
            assert(is_region_of(items, plan[k]));
        }
        if elide::tool_region(items, protect_tokens, i) is Some {
            let k = lemma_output_is_listed(items, protect_tokens, i, len);
            assert(plan[k] == tools[k]);
            assert(plan[k].item == i);
            assert forall|j: int| 0 <= j < n && j != k implies (#[trigger] plan[j]).item != i by {
                if j < k {
                    assert(plan[j].item < plan[k].item);
                } else if j < tools.len() {
                    assert(plan[k].item < plan[j].item);
                }
            }
            assert(saved_in_short(plan[k], paths[k]));
            law_saved_regions_are_replaced(items, protect_tokens, paths, k);
            law_items_keep_their_identity(items, plan, paths, k);
            lemma_kept_from(items, plan, paths, 0, k, i);
            lemma_kept_from(items, plan, paths, k + 1, n, i);
            let output = elide::output_of(items[i].item)->0;
            let placeholder = placeholder_of(plan[k], paths[k]->0);
            assert(elide::output_of(now[i].item) == Some(
                elide::elided_payload(output, placeholder),
            ));
            law_elided_output_stays(output, plan[k].tokens, plan[k].label, paths[k]->0);
        } else {
            assert forall|j: int| 0 <= j < n implies (#[trigger] plan[j]).item != i by {
                if j < tools.len() && plan[j].item == i {
                    assert(is_region_of(items, plan[j]));
                    assert(elide::is_worth_eliding(plan[j].content));
                }
            }
            lemma_kept_from(items, plan, paths, 0, n, i);
        }
    }
}

proof fn lemma_no_tools(items: Seq<ResponseItemEnvelopeView>, protect_tokens: nat, n: int)
    requires
        forall|i: int|
            0 <= i < n ==> (#[trigger] elide::tool_region(items, protect_tokens, i)) is None,
    ensures
        elide::tool_regions(items, protect_tokens, n).len() == 0,
    decreases n,
{
    if n > 0 {
        lemma_no_tools(items, protect_tokens, n - 1);
        assert(elide::tool_region(items, protect_tokens, n - 1) is None);
    }
}

/// Where nothing is marked, there is no block among what is old by now.
proof fn lemma_no_blocks(
    items: Seq<ResponseItemEnvelopeView>,
    protect_tokens: nat,
    now: Seq<ResponseItemEnvelopeView>,
    n: int,
)
    requires
        marked(items, protect_tokens, now, n).len() == 0,
        forall|i: int|
            0 <= i < n && #[trigger] elide::is_old(now, protect_tokens, i) ==> elide::is_old(
                items,
                protect_tokens,
                i,
            ),
    ensures
        elide::block_regions(now, protect_tokens, n).len() == 0,
    decreases n,
{
    if n > 0 {
        lemma_no_blocks(items, protect_tokens, now, n - 1);
        assert(elide::is_old(now, protect_tokens, n - 1) ==> elide::is_old(
            items,
            protect_tokens,
            n - 1,
        ));
    }
}

/// An elision is done at once: with every region saved, a second elision with
/// the same window finds nothing to replace. It asks for nothing to be saved,
/// leaves the history as it is and counts nothing. This takes paths that are not
/// empty, and placeholders of one line and of fewer than 200 tokens: a longer one
/// could outgrow what it stands for, and push other items out of the window.
pub proof fn law_second_elision_finds_nothing(
    items: Seq<ResponseItemEnvelopeView>,
    protect_tokens: nat,
    paths: Seq<Option<Seq<char>>>,
    again: Seq<Option<Seq<char>>>,
)
    requires
        paths.len() == elide::elision_plan(items, protect_tokens).len(),
        forall|k: int|
            0 <= k < paths.len() ==> saved_in_short(
                elide::elision_plan(items, protect_tokens)[k],
                #[trigger] paths[k],
            ),
    ensures
        ({
            let plan = elide::elision_plan(items, protect_tokens);
            let now = elide::apply_regions(items, plan, paths, plan.len() as int);
            let next = elide::elision_plan(now, protect_tokens);
            &&& next.len() == 0
            &&& elide::apply_regions(now, next, again, next.len() as int) == now
            &&& elide::count_replaced(now, next, again, false, next.len() as int) == 0
            &&& elide::count_replaced(now, next, again, true, next.len() as int) == 0
            &&& elide::total_freed(now, next, again, next.len() as int) == 0
        }),
{
    let plan = elide::elision_plan(items, protect_tokens);
    let n = plan.len() as int;
    let len = items.len() as int;
    let now = elide::apply_regions(items, plan, paths, n);
    lemma_blocks_left(items, protect_tokens, paths, n);
    assert forall|k: int| 0 <= k < items.len() implies sizes::item_bytes((#[trigger] now[k]).item)
        <= sizes::item_bytes(items[k].item) by {
        lemma_no_item_grows(items, protect_tokens, paths, n, k);
    }
    assert forall|i: int| 0 <= i < len && #[trigger] elide::is_old(
        now,
        protect_tokens,
        i,
    ) implies elide::is_old(items, protect_tokens, i) by {
        lemma_nothing_ages(items, now, i);
    }
    assert forall|i: int| 0 <= i < len implies (#[trigger] elide::tool_region(
        now,
        protect_tokens,
        i,
    )) is None by {
        lemma_no_output_left(items, protect_tokens, paths, i);
        assert(elide::is_old(now, protect_tokens, i) ==> elide::is_old(items, protect_tokens, i));
    }
    lemma_no_tools(now, protect_tokens, len);
    lemma_no_blocks(items, protect_tokens, now, len);
}

} // verus!
