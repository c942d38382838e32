//! What every elision keeps, and what every saved region becomes.

use vstd::prelude::*;

use crate::items::ContentItemView;
use crate::items::FunctionCallOutputBodyView;
use crate::items::FunctionCallOutputContentItemView;
use crate::items::FunctionCallOutputPayloadView;
use crate::items::ResponseItemEnvelopeView;
use crate::items::ResponseItemView;
use crate::shake::blocks;
use crate::shake::elide;
use crate::shake::elide::BlockPlaceView;
use crate::shake::elide::ElideRegionView;
use crate::shake::protection;
use crate::shake::recovery;
use crate::shake::sizes;
use crate::text;

pub mod again;
pub mod complete;

verus! {

/// A region names a real place of the history and holds the text of that place.
pub open spec fn is_region_of(
    items: Seq<ResponseItemEnvelopeView>,
    region: ElideRegionView,
) -> bool {
    &&& elide::region_fits(items, region)
    &&& match region.block {
        None => elide::payload_text(elide::output_of(items[region.item].item)->0) == Some(
            region.content,
        ),
        Some(BlockPlaceView { part, span }) => match items[region.item].item {
            ResponseItemView::Message { content, .. } => elide::part_text(
                content[part],
            )->0.subrange(span.0, span.1) == region.content,
            _ => false,
        },
    }
}

/// Block region `a` stands before block region `b`.
pub open spec fn stands_before(a: ElideRegionView, b: ElideRegionView) -> bool {
    ||| a.item < b.item
    ||| a.item == b.item && a.block is Some && b.block is Some && (a.block->0.part < b.block->0.part
        || a.block->0.part == b.block->0.part && a.block->0.span.1 < b.block->0.span.0)
}

/// Block regions of `items`, in order, all of them in old items.
spec fn ordered_blocks(
    items: Seq<ResponseItemEnvelopeView>,
    protect_tokens: nat,
    regions: Seq<ElideRegionView>,
) -> bool {
    &&& forall|p: int|
        0 <= p < regions.len() ==> (#[trigger] regions[p]).block is Some && is_region_of(
            items,
            regions[p],
        ) && elide::is_old(items, protect_tokens, regions[p].item) && elide::is_worth_eliding(
            regions[p].content,
        ) && regions[p].tokens == sizes::token_count(regions[p].content)
    &&& forall|p: int, q: int|
        #![trigger regions[p], regions[q]]
        0 <= p < q < regions.len() ==> stands_before(regions[p], regions[q])
}

proof fn lemma_text_regions(
    items: Seq<ResponseItemEnvelopeView>,
    protect_tokens: nat,
    item: int,
    part: int,
    n: int,
)
    requires
        0 <= item < items.len(),
        elide::is_old(items, protect_tokens, item),
        items[item].item is Message,
        0 <= part < items[item].item->Message_content.len(),
        elide::part_text(items[item].item->Message_content[part]) is Some,
        0 <= n <= blocks::block_spans(
            elide::part_text(items[item].item->Message_content[part])->0,
        ).len(),
    ensures
        ({
            let content = elide::part_text(items[item].item->Message_content[part])->0;
            let regions = elide::text_regions(
                item,
                part,
                content,
                items[item].item->Message_role,
                n,
            );
            &&& ordered_blocks(items, protect_tokens, regions)
            &&& forall|p: int|
                0 <= p < regions.len() ==> (#[trigger] regions[p]).item == item
                    && regions[p].block->0.part == part
            &&& forall|p: int|
                0 <= p < regions.len() ==> exists|m: int|
                    0 <= m < n && (#[trigger] regions[p]).block->0.span
                        == #[trigger] blocks::block_spans(content)[m]
        }),
    decreases n,
{
    let content = elide::part_text(items[item].item->Message_content[part])->0;
    let role = items[item].item->Message_role;
    blocks::law_block_spans(content);
    if n > 0 {
        lemma_text_regions(items, protect_tokens, item, part, n - 1);
        let front = elide::text_regions(item, part, content, role, n - 1);
        let all = elide::text_regions(item, part, content, role, n);
        let spans = blocks::block_spans(content);
        let span = spans[n - 1];
        assert(0 <= span.0 < span.1 <= content.len());
        if elide::is_worth_eliding(content.subrange(span.0, span.1)) {
            assert(all.drop_last() == front);
            assert forall|p: int| 0 <= p < all.len() implies exists|m: int|
                0 <= m < n && (#[trigger] all[p]).block->0.span == #[trigger] spans[m] by {
                if p < front.len() {
                    assert(all[p] == front[p]);
                    let m = choose|m: int|
                        0 <= m < n - 1 && front[p].block->0.span == #[trigger] spans[m];
                    assert(all[p].block->0.span == spans[m]);
                } else {
                    assert(all[p].block->0.span == spans[n - 1]);
                }
            }
            assert forall|p: int| 0 <= p < all.len() implies (#[trigger] all[p]).block is Some
                && is_region_of(items, all[p]) && elide::is_old(items, protect_tokens, all[p].item)
                && elide::is_worth_eliding(all[p].content) && all[p].tokens == sizes::token_count(
                all[p].content,
            ) && all[p].item == item && all[p].block->0.part == part by {
                if p < front.len() {
                    assert(all[p] == front[p]);
                }
            }
            assert forall|p: int, q: int|
                #![trigger all[p], all[q]]
                0 <= p < q < all.len() implies stands_before(all[p], all[q]) by {
                assert(all[p] == front[p]);
                if q < front.len() {
                    assert(all[q] == front[q]);
                } else {
                    let m = choose|m: int|
                        0 <= m < n - 1 && front[p].block->0.span == #[trigger] spans[m];
                    assert(spans[m].1 < spans[n - 1].0);
                }
            }
        } else {
            assert forall|p: int| 0 <= p < all.len() implies exists|m: int|
                0 <= m < n && (#[trigger] all[p]).block->0.span == #[trigger] spans[m] by {
                let m = choose|m: int|
                    0 <= m < n - 1 && front[p].block->0.span == #[trigger] spans[m];
                assert(all[p].block->0.span == spans[m]);
            }
        }
    }
}

proof fn lemma_message_regions(
    items: Seq<ResponseItemEnvelopeView>,
    protect_tokens: nat,
    item: int,
    n: int,
)
    requires
        0 <= item < items.len(),
        elide::is_old(items, protect_tokens, item),
        items[item].item is Message,
        0 <= n <= items[item].item->Message_content.len(),
    ensures
        ({
            let regions = elide::message_regions(
                item,
                items[item].item->Message_role,
                items[item].item->Message_content,
                n,
            );
            &&& ordered_blocks(items, protect_tokens, regions)
            &&& forall|p: int|
                0 <= p < regions.len() ==> (#[trigger] regions[p]).item == item
                    && regions[p].block->0.part < n
        }),
    decreases n,
{
    let role = items[item].item->Message_role;
    let content = items[item].item->Message_content;
    if n > 0 {
        lemma_message_regions(items, protect_tokens, item, n - 1);
        let front = elide::message_regions(item, role, content, n - 1);
        let all = elide::message_regions(item, role, content, n);
        if elide::part_text(content[n - 1]) is Some {
            let words = elide::part_text(content[n - 1])->0;
            let count = blocks::block_spans(words).len() as int;
            lemma_text_regions(items, protect_tokens, item, n - 1, count);
            let back = elide::text_regions(item, n - 1, words, role, count);
            assert(all == front + back);
            lemma_ordered_concat(items, protect_tokens, front, back);
        } else {
            assert(all == front);
        }
    }
}

proof fn lemma_ordered_concat(
    items: Seq<ResponseItemEnvelopeView>,
    protect_tokens: nat,
    front: Seq<ElideRegionView>,
    back: Seq<ElideRegionView>,
)
    requires
        ordered_blocks(items, protect_tokens, front),
        ordered_blocks(items, protect_tokens, back),
        forall|p: int, q: int|
            #![trigger front[p], back[q]]
            0 <= p < front.len() && 0 <= q < back.len() ==> stands_before(front[p], back[q]),
    ensures
        ordered_blocks(items, protect_tokens, front + back),
        forall|p: int|
            0 <= p < (front + back).len() ==> #[trigger] (front + back)[p] == if p < front.len() {
                front[p]
            } else {
                back[p - front.len()]
            },
{
    let all = front + back;
    assert forall|p: int, q: int|
        #![trigger all[p], all[q]]
        0 <= p < q < all.len() implies stands_before(all[p], all[q]) by {
        if q < front.len() {
            assert(all[p] == front[p] && all[q] == front[q]);
        } else if p < front.len() {
            assert(all[p] == front[p] && all[q] == back[q - front.len()]);
        } else {
            assert(all[p] == back[p - front.len()] && all[q] == back[q - front.len()]);
        }
    }
}

proof fn lemma_block_regions(
    items: Seq<ResponseItemEnvelopeView>,
    protect_tokens: nat,
    n: int,
)
    requires
        0 <= n <= items.len(),
    ensures
        ordered_blocks(items, protect_tokens, elide::block_regions(items, protect_tokens, n)),
        forall|p: int|
            0 <= p < elide::block_regions(items, protect_tokens, n).len()
                ==> (#[trigger] elide::block_regions(items, protect_tokens, n)[p]).item < n,
    decreases n,
{
    if n > 0 {
        lemma_block_regions(items, protect_tokens, n - 1);
        let front = elide::block_regions(items, protect_tokens, n - 1);
        let back = elide::item_block_regions(items, protect_tokens, n - 1);
        if elide::is_old(items, protect_tokens, n - 1) && items[n - 1].item is Message {
            lemma_message_regions(
                items,
                protect_tokens,
                n - 1,
                items[n - 1].item->Message_content.len() as int,
            );
        }
        lemma_ordered_concat(items, protect_tokens, front, back);
    }
}

/// Tool-output regions of `items`, from the oldest on, all of them in old items
/// that are not protected.
spec fn ordered_outputs(
    items: Seq<ResponseItemEnvelopeView>,
    protect_tokens: nat,
    regions: Seq<ElideRegionView>,
) -> bool {
    &&& forall|p: int|
        0 <= p < regions.len() ==> (#[trigger] regions[p]).block is None && is_region_of(
            items,
            regions[p],
        ) && elide::is_old(items, protect_tokens, regions[p].item)
            && !protection::is_protected_output(items, regions[p].item) && elide::is_worth_eliding(
            regions[p].content,
        ) && regions[p].tokens == sizes::token_count(regions[p].content)
    &&& forall|p: int, q: int|
        #![trigger regions[p], regions[q]]
        0 <= p < q < regions.len() ==> regions[p].item < regions[q].item
}

proof fn lemma_tool_regions(items: Seq<ResponseItemEnvelopeView>, protect_tokens: nat, n: int)
    requires
        0 <= n <= items.len(),
    ensures
        ordered_outputs(items, protect_tokens, elide::tool_regions(items, protect_tokens, n)),
        forall|p: int|
            0 <= p < elide::tool_regions(items, protect_tokens, n).len()
                ==> (#[trigger] elide::tool_regions(items, protect_tokens, n)[p]).item < n,
    decreases n,
{
    if n > 0 {
        lemma_tool_regions(items, protect_tokens, n - 1);
        let front = elide::tool_regions(items, protect_tokens, n - 1);
        let all = elide::tool_regions(items, protect_tokens, n);
        if elide::tool_region(items, protect_tokens, n - 1) is Some {
            assert forall|p: int| 0 <= p < front.len() implies all[p] == front[p] by {}
        }
    }
}

/// What a plan consists of.
proof fn lemma_plan(items: Seq<ResponseItemEnvelopeView>, protect_tokens: nat)
    ensures
        ({
            let plan = elide::elision_plan(items, protect_tokens);
            let tools = elide::tool_regions(items, protect_tokens, items.len() as int).len() as int;
            &&& 0 <= tools <= plan.len()
            &&& forall|k: int|
                0 <= k < plan.len() ==> ((#[trigger] plan[k]).block is None) == (k < tools)
            &&& forall|k: int|
                0 <= k < plan.len() ==> is_region_of(items, #[trigger] plan[k]) && elide::is_old(
                    items,
                    protect_tokens,
                    plan[k].item,
                ) && elide::is_worth_eliding(plan[k].content) && plan[k].tokens
                    == sizes::token_count(plan[k].content)
            &&& forall|k: int|
                0 <= k < tools ==> !protection::is_protected_output(
                    items,
                    (#[trigger] plan[k]).item,
                )
            &&& forall|p: int, q: int|
                #![trigger plan[p], plan[q]]
                0 <= p < q < tools ==> plan[p].item < plan[q].item
            &&& forall|p: int, q: int|
                #![trigger plan[p], plan[q]]
                tools <= p < q < plan.len() ==> stands_before(plan[q], plan[p])
        }),
{
    let n = items.len() as int;
    lemma_tool_regions(items, protect_tokens, n);
    lemma_block_regions(items, protect_tokens, n);
    let tools = elide::tool_regions(items, protect_tokens, n);
    let found = elide::block_regions(items, protect_tokens, n);
    let plan = elide::elision_plan(items, protect_tokens);
    let t = tools.len() as int;
    assert forall|k: int| 0 <= k < t implies plan[k] == tools[k] by {}
    assert forall|k: int| t <= k < plan.len() implies plan[k] == found[found.len() - 1 - (k
        - t)] by {}
}

/// What is handed out to be saved: the whole text of a tool output that is not
/// protected, or a block of a message. It is large, it was not saved or read
/// back before, and it stands outside the protected recent window.
pub proof fn law_regions_are_worth_saving(
    items: Seq<ResponseItemEnvelopeView>,
    protect_tokens: nat,
    k: int,
)
    requires
        0 <= k < elide::elision_plan(items, protect_tokens).len(),
    ensures
        ({
            let region = elide::elision_plan(items, protect_tokens)[k];
            &&& is_region_of(items, region)
            &&& elide::is_old(items, protect_tokens, region.item)
            &&& region.tokens == sizes::token_count(region.content)
            &&& region.tokens >= elide::FENCE_MIN_TOKENS
            &&& !recovery::is_recovery_output(region.content)
            &&& region.block is None ==> !protection::is_protected_output(items, region.item)
        }),
{
    lemma_plan(items, protect_tokens);
    assert(is_region_of(items, elide::elision_plan(items, protect_tokens)[k]));
}

/// Where item `i` of the history cannot be reached by any of the first `n`
/// saved regions, it stays as it is. The history keeps its length.
pub proof fn law_other_items_are_kept(
    items: Seq<ResponseItemEnvelopeView>,
    regions: Seq<ElideRegionView>,
    paths: Seq<Option<Seq<char>>>,
    n: int,
    i: int,
)
    requires
        0 <= n <= regions.len(),
        regions.len() == paths.len(),
        0 <= i < items.len(),
        forall|k: int|
            0 <= k < n && (#[trigger] paths[k]) is Some ==> regions[k].item != i,
    ensures
        elide::apply_regions(items, regions, paths, n).len() == items.len(),
        elide::apply_regions(items, regions, paths, n)[i] == items[i],
    decreases n,
{
    if n > 0 {
        law_other_items_are_kept(items, regions, paths, n - 1, i);
        assert(paths[n - 1] is Some ==> regions[n - 1].item != i);
    }
}

/// An elision never changes an item inside the protected recent window.
pub proof fn law_recent_items_are_kept(
    items: Seq<ResponseItemEnvelopeView>,
    protect_tokens: nat,
    paths: Seq<Option<Seq<char>>>,
    i: int,
)
    requires
        paths.len() == elide::elision_plan(items, protect_tokens).len(),
        0 <= i < items.len(),
        !elide::is_old(items, protect_tokens, i),
    ensures
        elide::apply_regions(
            items,
            elide::elision_plan(items, protect_tokens),
            paths,
            paths.len() as int,
        )[i] == items[i],
{
    let plan = elide::elision_plan(items, protect_tokens);
    lemma_plan(items, protect_tokens);
    assert forall|k: int| 0 <= k < plan.len() && (#[trigger] paths[k]) is Some implies plan[k].item
        != i by {
        assert(elide::is_old(items, protect_tokens, plan[k].item));
    }
    law_other_items_are_kept(items, plan, paths, plan.len() as int, i);
}

/// An elision never changes the output of a protected tool.
pub proof fn law_protected_outputs_are_kept(
    items: Seq<ResponseItemEnvelopeView>,
    protect_tokens: nat,
    paths: Seq<Option<Seq<char>>>,
    i: int,
)
    requires
        paths.len() == elide::elision_plan(items, protect_tokens).len(),
        0 <= i < items.len(),
        protection::is_protected_output(items, i),
    ensures
        elide::apply_regions(
            items,
            elide::elision_plan(items, protect_tokens),
            paths,
            paths.len() as int,
        )[i] == items[i],
{
    let plan = elide::elision_plan(items, protect_tokens);
    lemma_plan(items, protect_tokens);
    assert forall|k: int| 0 <= k < plan.len() && (#[trigger] paths[k]) is Some implies plan[k].item
        != i by {
        assert(is_region_of(items, plan[k]));
        if plan[k].block is Some {
            assert(items[plan[k].item].item is Message);
        }
    }
    law_other_items_are_kept(items, plan, paths, plan.len() as int, i);
}

/// An elision that saved nothing changes nothing and counts nothing.
pub proof fn law_unsaved_regions_are_kept(
    items: Seq<ResponseItemEnvelopeView>,
    regions: Seq<ElideRegionView>,
    paths: Seq<Option<Seq<char>>>,
    n: int,
)
    requires
        0 <= n <= regions.len(),
        regions.len() == paths.len(),
        forall|k: int| 0 <= k < n ==> (#[trigger] paths[k]) is None,
    ensures
        elide::apply_regions(items, regions, paths, n) == items,
        elide::count_replaced(items, regions, paths, false, n) == 0,
        elide::count_replaced(items, regions, paths, true, n) == 0,
        elide::total_freed(items, regions, paths, n) == 0,
    decreases n,
{
    if n > 0 {
        law_unsaved_regions_are_kept(items, regions, paths, n - 1);
        assert(paths[n - 1] is None);
    }
}

/// The output parts that are no texts.
pub open spec fn other_parts(items: Seq<FunctionCallOutputContentItemView>) -> Seq<
    FunctionCallOutputContentItemView,
>
    decreases items.len(),
{
    if items.len() == 0 {
        Seq::empty()
    } else if items.last() is InputText {
        other_parts(items.drop_last())
    } else {
        other_parts(items.drop_last()).push(items.last())
    }
}

/// Two outputs that differ in their texts only.
pub open spec fn same_but_texts(
    a: FunctionCallOutputPayloadView,
    b: FunctionCallOutputPayloadView,
) -> bool {
    &&& a.success == b.success
    &&& match (a.body, b.body) {
        (FunctionCallOutputBodyView::Text(_), FunctionCallOutputBodyView::Text(_)) => true,
        (
            FunctionCallOutputBodyView::ContentItems(items),
            FunctionCallOutputBodyView::ContentItems(items2),
        ) => other_parts(items) == other_parts(items2),
        _ => false,
    }
}

/// Two message parts that differ in their text only.
pub open spec fn same_but_text(a: ContentItemView, b: ContentItemView) -> bool {
    match (a, b) {
        (ContentItemView::InputText { .. }, ContentItemView::InputText { .. }) => true,
        (ContentItemView::OutputText { .. }, ContentItemView::OutputText { .. }) => true,
        _ => a == b,
    }
}

/// What no elision changes about an item: its kind, the ids that pair a call
/// with its output, every part that is no text, and what is kept beside it.
pub open spec fn same_identity(
    a: ResponseItemEnvelopeView,
    b: ResponseItemEnvelopeView,
) -> bool {
    &&& a.metadata == b.metadata
    &&& match (a.item, b.item) {
        (
            ResponseItemView::FunctionCallOutput {
                id,
                call_id,
                name,
                namespace,
                output,
                internal_chat_message_metadata_passthrough: noted,
            },
            ResponseItemView::FunctionCallOutput {
                id: id2,
                call_id: call_id2,
                name: name2,
                namespace: namespace2,
                output: output2,
                internal_chat_message_metadata_passthrough: noted2,
            },
        ) => id == id2 && call_id == call_id2 && name == name2 && namespace == namespace2 && noted
            == noted2 && same_but_texts(output, output2),
        (
            ResponseItemView::CustomToolCallOutput {
                id,
                call_id,
                name,
                output,
                internal_chat_message_metadata_passthrough: noted,
            },
            ResponseItemView::CustomToolCallOutput {
                id: id2,
                call_id: call_id2,
                name: name2,
                output: output2,
                internal_chat_message_metadata_passthrough: noted2,
            },
        ) => id == id2 && call_id == call_id2 && name == name2 && noted == noted2
            && same_but_texts(output, output2),
        (
            ResponseItemView::Message {
                id,
                role,
                content,
                phase,
                internal_chat_message_metadata_passthrough: noted,
            },
            ResponseItemView::Message {
                id: id2,
                role: role2,
                content: content2,
                phase: phase2,
                internal_chat_message_metadata_passthrough: noted2,
            },
        ) => {
            &&& id == id2 && role == role2 && phase == phase2 && noted == noted2
            &&& content.len() == content2.len()
            &&& forall|j: int|
                #![trigger content[j]]
                #![trigger content2[j]]
                0 <= j < content.len() ==> same_but_text(content[j], content2[j])
        },
        _ => a.item == b.item,
    }
}

proof fn lemma_other_parts(
    items: Seq<FunctionCallOutputContentItemView>,
    placeholder: Seq<char>,
)
    ensures
        other_parts(elide::replace_text(items, placeholder)) == other_parts(items),
    decreases items.len(),
{
    if items.len() > 0 {
        lemma_other_parts(items.drop_last(), placeholder);
        let front = elide::replace_text(items.drop_last(), placeholder);
        match items.last() {
            FunctionCallOutputContentItemView::InputText { .. } => {
                let text = FunctionCallOutputContentItemView::InputText { text: placeholder };
                assert(front.push(text).drop_last() == front);
            },
            other => {
                assert(front.push(other).drop_last() == front);
            },
        }
    }
}

/// Replacing one region keeps every item what it is.
proof fn lemma_region_keeps_identity(
    items: Seq<ResponseItemEnvelopeView>,
    region: ElideRegionView,
    path: Option<Seq<char>>,
    i: int,
)
    requires
        0 <= i < items.len(),
    ensures
        same_identity(items[i], elide::apply_region(items, region, path)[i]),
{
    if let Some(path) = path {
        if elide::region_fits(items, region) && region.item == i && region.block is None {
            let placeholder = recovery::placeholder_text(region.tokens, region.label, path);
            let output = elide::output_of(items[i].item)->0;
            if let FunctionCallOutputBodyView::ContentItems(parts) = output.body {
                lemma_other_parts(parts, placeholder);
            }
        }
    }
}

/// An elision keeps every item in its place, with its kind, its ids and every
/// part that is no text.
pub proof fn law_items_keep_their_identity(
    items: Seq<ResponseItemEnvelopeView>,
    regions: Seq<ElideRegionView>,
    paths: Seq<Option<Seq<char>>>,
    n: int,
)
    requires
        0 <= n <= regions.len(),
        regions.len() == paths.len(),
    ensures
        elide::apply_regions(items, regions, paths, n).len() == items.len(),
        forall|i: int|
            0 <= i < items.len() ==> same_identity(
                items[i],
                #[trigger] elide::apply_regions(items, regions, paths, n)[i],
            ),
    decreases n,
{
    if n > 0 {
        law_items_keep_their_identity(items, regions, paths, n - 1);
        let before = elide::apply_regions(items, regions, paths, n - 1);
        let after = elide::apply_regions(items, regions, paths, n);
        assert forall|i: int| 0 <= i < items.len() implies same_identity(
            items[i],
            #[trigger] after[i],
        ) by {
            assert(same_identity(items[i], before[i]));
            lemma_region_keeps_identity(before, regions[n - 1], paths[n - 1], i);
        }
    }
}

/// What the regions still to come find in the history `cur`: the place of each
/// is as it was at the start, at least up to the region's end.
spec fn still_there(
    items: Seq<ResponseItemEnvelopeView>,
    cur: Seq<ResponseItemEnvelopeView>,
    region: ElideRegionView,
) -> bool {
    &&& cur.len() == items.len()
    &&& 0 <= region.item < items.len()
    &&& match region.block {
        None => cur[region.item] == items[region.item],
        Some(BlockPlaceView { part, span }) => match (items[region.item].item, cur[region.item].item) {
            (
                ResponseItemView::Message { content, .. },
                ResponseItemView::Message { content: content2, .. },
            ) => {
                &&& content.len() == content2.len()
                &&& 0 <= part < content.len()
                &&& elide::part_text(content[part]) is Some
                &&& elide::part_text(content2[part]) is Some
                &&& 0 <= span.0 <= span.1 <= elide::part_text(content[part])->0.len()
                &&& span.1 <= elide::part_text(content2[part])->0.len()
                &&& elide::part_text(content2[part])->0.take(span.1) == elide::part_text(
                    content[part],
                )->0.take(span.1)
            },
            _ => false,
        },
    }
}

proof fn lemma_still_there_step(
    items: Seq<ResponseItemEnvelopeView>,
    cur: Seq<ResponseItemEnvelopeView>,
    now: ElideRegionView,
    later: ElideRegionView,
    path: Option<Seq<char>>,
)
    requires
        still_there(items, cur, now),
        still_there(items, cur, later),
        elide::region_fits(items, now),
        elide::region_fits(items, later),
        now.item != later.item || (now.block is Some && later.block is Some && stands_before(
            later,
            now,
        )),
    ensures
        still_there(items, elide::apply_region(cur, now, path), later),
{
    let after = elide::apply_region(cur, now, path);
    if path is Some && now.item == later.item {
        let part = now.block->0.part;
        let span = now.block->0.span;
        let part2 = later.block->0.part;
        let span2 = later.block->0.span;
        let placeholder = recovery::placeholder_text(now.tokens, now.label, path->0);
        let content = cur[now.item].item->Message_content;
        let before_text = elide::part_text(content[part])->0;
        if elide::region_fits(cur, now) && part == part2 {
            let spliced = elide::splice(before_text, span, placeholder);
            assert(span2.1 < span.0);
            assert(spliced.take(span2.1) == before_text.take(span2.1));
        }
    }
}

/// After the first `n` regions of a plan, those still to come are in place.
proof fn lemma_plan_in_place(
    items: Seq<ResponseItemEnvelopeView>,
    protect_tokens: nat,
    paths: Seq<Option<Seq<char>>>,
    n: int,
)
    requires
        paths.len() == elide::elision_plan(items, protect_tokens).len(),
        0 <= n <= paths.len(),
    ensures
        ({
            let plan = elide::elision_plan(items, protect_tokens);
            forall|j: int|
                n <= j < plan.len() ==> still_there(
                    items,
                    elide::apply_regions(items, plan, paths, n),
                    #[trigger] plan[j],
                )
        }),
    decreases n,
{
    let plan = elide::elision_plan(items, protect_tokens);
    lemma_plan(items, protect_tokens);
    if n > 0 {
        lemma_plan_in_place(items, protect_tokens, paths, n - 1);
        let cur = elide::apply_regions(items, plan, paths, n - 1);
        assert forall|j: int| n <= j < plan.len() implies still_there(
            items,
            elide::apply_regions(items, plan, paths, n),
            #[trigger] plan[j],
        ) by {
            assert(is_region_of(items, plan[n - 1]));
            assert(is_region_of(items, plan[j]));
            assert(still_there(items, cur, plan[n - 1]));
            lemma_still_there_step(items, cur, plan[n - 1], plan[j], paths[n - 1]);
        }
    } else {
        assert forall|j: int| 0 <= j < plan.len() implies still_there(
            items,
            items,
            #[trigger] plan[j],
        ) by {
            assert(is_region_of(items, plan[j]));
        }
    }
}

/// Every region of a plan that was saved is replaced, and what is replaced is
/// the text that was saved: at its turn the region's place still holds it.
pub proof fn law_saved_regions_are_replaced(
    items: Seq<ResponseItemEnvelopeView>,
    protect_tokens: nat,
    paths: Seq<Option<Seq<char>>>,
    k: int,
)
    requires
        paths.len() == elide::elision_plan(items, protect_tokens).len(),
        0 <= k < paths.len(),
    ensures
        ({
            let plan = elide::elision_plan(items, protect_tokens);
            &&& elide::is_replaced(items, plan, paths, k) == (paths[k] is Some)
            &&& is_region_of(elide::apply_regions(items, plan, paths, k), plan[k])
        }),
{
    let plan = elide::elision_plan(items, protect_tokens);
    lemma_plan(items, protect_tokens);
    lemma_plan_in_place(items, protect_tokens, paths, k);
    let cur = elide::apply_regions(items, plan, paths, k);
    assert(is_region_of(items, plan[k]));
    assert(still_there(items, cur, plan[k]));
    if plan[k].block is Some {
        let part = plan[k].block->0.part;
        let span = plan[k].block->0.span;
        let a = elide::part_text(items[plan[k].item].item->Message_content[part])->0;
        let b = elide::part_text(cur[plan[k].item].item->Message_content[part])->0;
        assert(a.take(span.1).subrange(span.0, span.1) == a.subrange(span.0, span.1));
        assert(b.take(span.1).subrange(span.0, span.1) == b.subrange(span.0, span.1));
    }
}

/// An item with the text of a region put back in the place of its placeholder.
pub open spec fn restored_item(
    item: ResponseItemView,
    region: ElideRegionView,
    placeholder: Seq<char>,
) -> ResponseItemView {
    match (item, region.block) {
        (
            ResponseItemView::FunctionCallOutput {
                id,
                call_id,
                name,
                namespace,
                output,
                internal_chat_message_metadata_passthrough,
            },
            None,
        ) => ResponseItemView::FunctionCallOutput {
            id,
            call_id,
            name,
            namespace,
            output: FunctionCallOutputPayloadView {
                body: FunctionCallOutputBodyView::Text(region.content),
                success: output.success,
            },
            internal_chat_message_metadata_passthrough,
        },
        (
            ResponseItemView::CustomToolCallOutput {
                id,
                call_id,
                name,
                output,
                internal_chat_message_metadata_passthrough,
            },
            None,
        ) => ResponseItemView::CustomToolCallOutput {
            id,
            call_id,
            name,
            output: FunctionCallOutputPayloadView {
                body: FunctionCallOutputBodyView::Text(region.content),
                success: output.success,
            },
            internal_chat_message_metadata_passthrough,
        },
        (
            ResponseItemView::Message {
                id,
                role,
                content,
                phase,
                internal_chat_message_metadata_passthrough,
            },
            Some(BlockPlaceView { part, span }),
        ) => ResponseItemView::Message {
            id,
            role,
            content: content.update(
                part,
                elide::with_part_text(
                    content[part],
                    elide::splice(
                        elide::part_text(content[part])->0,
                        (span.0, span.0 + placeholder.len()),
                        region.content,
                    ),
                ),
            ),
            phase,
            internal_chat_message_metadata_passthrough,
        },
        _ => item,
    }
}

/// A history with the text of a region put back, where it was saved.
pub open spec fn restore_region(
    items: Seq<ResponseItemEnvelopeView>,
    region: ElideRegionView,
    path: Option<Seq<char>>,
) -> Seq<ResponseItemEnvelopeView> {
    match path {
        Some(path) => items.update(
            region.item,
            ResponseItemEnvelopeView {
                item: restored_item(
                    items[region.item].item,
                    region,
                    recovery::placeholder_text(region.tokens, region.label, path),
                ),
                metadata: items[region.item].metadata,
            },
        ),
        None => items,
    }
}

/// A history with the texts of the first `n` regions put back, the last one
/// first.
pub open spec fn restore_regions(
    items: Seq<ResponseItemEnvelopeView>,
    regions: Seq<ElideRegionView>,
    paths: Seq<Option<Seq<char>>>,
    n: int,
) -> Seq<ResponseItemEnvelopeView>
    decreases n,
{
    if n <= 0 {
        items
    } else {
        restore_regions(
            restore_region(items, regions[n - 1], paths[n - 1]),
            regions,
            paths,
            n - 1,
        )
    }
}

/// The region is a block, or a tool output that is one text.
pub open spec fn is_one_text(
    items: Seq<ResponseItemEnvelopeView>,
    region: ElideRegionView,
) -> bool {
    region.block is None ==> elide::output_of(items[region.item].item) is Some
        && elide::output_of(items[region.item].item)->0.body is Text
}

proof fn lemma_splice_back(content: Seq<char>, span: (int, int), by: Seq<char>)
    requires
        0 <= span.0 <= span.1 <= content.len(),
    ensures
        elide::splice(
            elide::splice(content, span, by),
            (span.0, span.0 + by.len()),
            content.subrange(span.0, span.1),
        ) == content,
{
    let spliced = elide::splice(content, span, by);
    assert(spliced.take(span.0) == content.take(span.0));
    assert(spliced.skip(span.0 + by.len()) == content.skip(span.1));
    assert(content.take(span.0) + content.subrange(span.0, span.1) + content.skip(span.1)
        == content);
}

proof fn lemma_restore_region(
    items: Seq<ResponseItemEnvelopeView>,
    region: ElideRegionView,
    path: Option<Seq<char>>,
)
    requires
        is_region_of(items, region),
        is_one_text(items, region),
    ensures
        restore_region(elide::apply_region(items, region, path), region, path) == items,
{
    if path is Some {
        let placeholder = recovery::placeholder_text(region.tokens, region.label, path->0);
        let before = items[region.item];
        let after = elide::apply_region(items, region, path);
        let back = restore_region(after, region, path);
        match (before.item, region.block) {
            (ResponseItemView::Message { content, .. }, Some(place)) => {
                let words = elide::part_text(content[place.part])->0;
                let changed = after[region.item].item->Message_content;
                lemma_splice_back(words, place.span, placeholder);
                assert(elide::part_text(changed[place.part]) == Some(
                    elide::splice(words, place.span, placeholder),
                ));
                assert(back[region.item].item->Message_content == content);
            },
            _ => {},
        }
        assert(back[region.item].item == before.item);
        assert(back[region.item] == before);
        assert(back =~= items);
    }
}

/// An elision can be undone: with the saved texts put back, the last one first,
/// the history is what it was. This takes tool outputs that are one text; the
/// texts of an output with several parts are saved as one.
pub proof fn law_elision_can_be_undone(
    items: Seq<ResponseItemEnvelopeView>,
    protect_tokens: nat,
    paths: Seq<Option<Seq<char>>>,
    n: int,
)
    requires
        paths.len() == elide::elision_plan(items, protect_tokens).len(),
        0 <= n <= paths.len(),
        forall|k: int|
            0 <= k < paths.len() ==> is_one_text(
                items,
                #[trigger] elide::elision_plan(items, protect_tokens)[k],
            ),
    ensures
        ({
            let plan = elide::elision_plan(items, protect_tokens);
            restore_regions(elide::apply_regions(items, plan, paths, n), plan, paths, n) == items
        }),
    decreases n,
{
    if n > 0 {
        let plan = elide::elision_plan(items, protect_tokens);
        let before = elide::apply_regions(items, plan, paths, n - 1);
        law_saved_regions_are_replaced(items, protect_tokens, paths, n - 1);
        lemma_plan_in_place(items, protect_tokens, paths, n - 1);
        assert(still_there(items, before, plan[n - 1]));
        assert(is_one_text(items, plan[n - 1]));
        lemma_restore_region(before, plan[n - 1], paths[n - 1]);
        law_elision_can_be_undone(items, protect_tokens, paths, n - 1);
    }
}

/// How many of the first `n` paths stand for a saved tool output, or for a
/// saved block.
pub open spec fn count_saved(
    regions: Seq<ElideRegionView>,
    paths: Seq<Option<Seq<char>>>,
    blocks: bool,
    n: int,
) -> nat
    decreases n,
{
    if n <= 0 {
        0
    } else {
        count_saved(regions, paths, blocks, n - 1) + if paths[n - 1] is Some && (regions[n
            - 1].block is Some) == blocks {
            1nat
        } else {
            0nat
        }
    }
}

/// The counts that an elision reports are the counts of the regions it saved.
pub proof fn law_counts_are_saves(
    items: Seq<ResponseItemEnvelopeView>,
    protect_tokens: nat,
    paths: Seq<Option<Seq<char>>>,
    blocks: bool,
    n: int,
)
    requires
        paths.len() == elide::elision_plan(items, protect_tokens).len(),
        0 <= n <= paths.len(),
    ensures
        elide::count_replaced(
            items,
            elide::elision_plan(items, protect_tokens),
            paths,
            blocks,
            n,
        ) == count_saved(elide::elision_plan(items, protect_tokens), paths, blocks, n),
    decreases n,
{
    if n > 0 {
        law_counts_are_saves(items, protect_tokens, paths, blocks, n - 1);
        law_saved_regions_are_replaced(items, protect_tokens, paths, n - 1);
    }
}

/// Two runs of one elision that save the same regions, at paths of the same
/// length, report the same: a preview with stand-in paths promises what the
/// elision then does.
pub proof fn law_preview_matches_elision(
    items: Seq<ResponseItemEnvelopeView>,
    protect_tokens: nat,
    paths: Seq<Option<Seq<char>>>,
    stand_ins: Seq<Option<Seq<char>>>,
    n: int,
)
    requires
        paths.len() == elide::elision_plan(items, protect_tokens).len(),
        stand_ins.len() == paths.len(),
        0 <= n <= paths.len(),
        forall|k: int|
            #![trigger paths[k]]
            #![trigger stand_ins[k]]
            0 <= k < paths.len() ==> (paths[k] is Some) == (stand_ins[k] is Some) && (
            paths[k] is Some ==> text::byte_len(paths[k]->0) == text::byte_len(stand_ins[k]->0)),
    ensures
        ({
            let plan = elide::elision_plan(items, protect_tokens);
            &&& elide::count_replaced(items, plan, paths, false, n) == elide::count_replaced(
                items,
                plan,
                stand_ins,
                false,
                n,
            )
            &&& elide::count_replaced(items, plan, paths, true, n) == elide::count_replaced(
                items,
                plan,
                stand_ins,
                true,
                n,
            )
            &&& elide::total_freed(items, plan, paths, n) == elide::total_freed(
                items,
                plan,
                stand_ins,
                n,
            )
        }),
    decreases n,
{
    if n > 0 {
        let plan = elide::elision_plan(items, protect_tokens);
        law_preview_matches_elision(items, protect_tokens, paths, stand_ins, n - 1);
        law_saved_regions_are_replaced(items, protect_tokens, paths, n - 1);
        law_saved_regions_are_replaced(items, protect_tokens, stand_ins, n - 1);
        assert((paths[n - 1] is Some) == (stand_ins[n - 1] is Some));
        if paths[n - 1] is Some {
            lemma_placeholder_bytes(
                plan[n - 1].tokens,
                plan[n - 1].label,
                paths[n - 1]->0,
                stand_ins[n - 1]->0,
            );
        }
    }
}

proof fn lemma_placeholder_bytes(
    tokens: nat,
    label: Seq<char>,
    path: Seq<char>,
    stand_in: Seq<char>,
)
    requires
        text::byte_len(path) == text::byte_len(stand_in),
    ensures
        text::byte_len(recovery::placeholder_text(tokens, label, path)) == text::byte_len(
            recovery::placeholder_text(tokens, label, stand_in),
        ),
{
    let front = "[shaken ~"@ + text::decimal(tokens) + " tokens from "@ + label + ". original: "@;
    text::lemma_byte_len_concat(front, path);
    text::lemma_byte_len_concat(front, stand_in);
    text::lemma_byte_len_concat(front + path, "]"@);
    text::lemma_byte_len_concat(front + stand_in, "]"@);
}

proof fn lemma_replaced_fragments(
    items: Seq<FunctionCallOutputContentItemView>,
    placeholder: Seq<char>,
)
    requires
        placeholder.len() > 0,
    ensures
        elide::text_fragments(elide::replace_text(items, placeholder)) == if elide::has_text_part(
            items,
        ) {
            seq![placeholder]
        } else {
            Seq::<Seq<char>>::empty()
        },
    decreases items.len(),
{
    if items.len() > 0 {
        let front_items = items.drop_last();
        let front = elide::replace_text(front_items, placeholder);
        lemma_replaced_fragments(front_items, placeholder);
        if elide::has_text_part(front_items) {
            let i = choose|i: int|
                0 <= i < front_items.len() && (#[trigger] front_items[i]) is InputText;
            assert(items[i] is InputText);
        }
        match items.last() {
            FunctionCallOutputContentItemView::InputText { .. } => {
                assert(items[items.len() - 1] is InputText);
                if !elide::has_text_part(front_items) {
                    let last = FunctionCallOutputContentItemView::InputText { text: placeholder };
                    assert(front.push(last).drop_last() == front);
                    assert(elide::text_fragments(front).push(placeholder) == seq![placeholder]);
                }
            },
            other => {
                assert(front.push(other).drop_last() == front);
                if elide::has_text_part(items) {
                    let i = choose|i: int|
                        0 <= i < items.len() && (#[trigger] items[i]) is InputText;
                    assert(front_items[i] is InputText);
                }
            },
        }
    }
}

/// A tool output that was replaced is nothing but its placeholder to the next
/// elision, which leaves it alone whatever its window: the same text is never
/// saved twice. This takes a path that is not empty, and a label and a path
/// without line breaks.
pub proof fn law_elided_output_stays(
    output: FunctionCallOutputPayloadView,
    tokens: nat,
    label: Seq<char>,
    path: Seq<char>,
)
    requires
        elide::payload_text(output) is Some,
        path.len() > 0,
        !label.contains('\n'),
        !path.contains('\n'),
    ensures
        ({
            let placeholder = recovery::placeholder_text(tokens, label, path);
            let after = elide::elided_payload(output, placeholder);
            &&& elide::payload_text(after) == Some(placeholder)
            &&& !elide::is_worth_eliding(placeholder)
        }),
{
    let placeholder = recovery::placeholder_text(tokens, label, path);
    recovery::law_placeholder_is_recognized(tokens, label, path);
    assert(placeholder.len() > 0) by {
        reveal_strlit("]");
    }
    if let FunctionCallOutputBodyView::ContentItems(items) = output.body {
        lemma_replaced_fragments(items, placeholder);
        lemma_fragments_need_text(items);
    }
}

proof fn lemma_fragments_need_text(items: Seq<FunctionCallOutputContentItemView>)
    ensures
        elide::text_fragments(items).len() > 0 ==> elide::has_text_part(items),
    decreases items.len(),
{
    if items.len() > 0 {
        lemma_fragments_need_text(items.drop_last());
        if elide::has_text_part(items.drop_last()) {
            let i = choose|i: int|
                0 <= i < items.drop_last().len() && (
                #[trigger] items.drop_last()[i]) is InputText;
            assert(items[i] is InputText);
        }
        if items.last() is InputText {
            assert(items[items.len() - 1] is InputText);
        }
    }
}

} // verus!
