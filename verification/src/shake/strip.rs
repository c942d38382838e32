//! Removing images and reasoning outright.

use vstd::prelude::*;

use crate::items::ContentItem;
use crate::items::ContentItemView;
use crate::items::FunctionCallOutputBody;
use crate::items::FunctionCallOutputBodyView;
use crate::items::FunctionCallOutputContentItem;
use crate::items::FunctionCallOutputContentItemView;
use crate::items::FunctionCallOutputPayload;
use crate::items::FunctionCallOutputPayloadView;
use crate::items::ResponseItem;
use crate::items::ResponseItemEnvelope;
use crate::items::ResponseItemEnvelopeView;
use crate::items::ResponseItemView;
use crate::shake::ShakeResult;
use crate::text;

verus! {

/// Message parts without the images.
pub open spec fn content_without_images(content: Seq<ContentItemView>) -> Seq<ContentItemView> {
    content.filter(|part: ContentItemView| !(part is InputImage))
}

/// Output parts without the images. Where nothing else is left, a note takes
/// their place, so that the model still sees an output.
pub open spec fn output_without_images(
    items: Seq<FunctionCallOutputContentItemView>,
) -> Seq<FunctionCallOutputContentItemView> {
    let kept = items.filter(|part: FunctionCallOutputContentItemView| !(part is InputImage));
    if kept.len() == 0 && items.len() > 0 {
        seq![FunctionCallOutputContentItemView::InputText { text: "[image removed]"@ }]
    } else {
        kept
    }
}

pub open spec fn payload_without_images(
    output: FunctionCallOutputPayloadView,
) -> FunctionCallOutputPayloadView {
    match output.body {
        FunctionCallOutputBodyView::Text(_) => output,
        FunctionCallOutputBodyView::ContentItems(items) => FunctionCallOutputPayloadView {
            body: FunctionCallOutputBodyView::ContentItems(output_without_images(items)),
            success: output.success,
        },
    }
}

/// An item without its images.
pub open spec fn item_without_images(item: ResponseItemView) -> ResponseItemView {
    match item {
        ResponseItemView::Message {
            id,
            role,
            content,
            phase,
            internal_chat_message_metadata_passthrough,
        } => ResponseItemView::Message {
            id,
            role,
            content: content_without_images(content),
            phase,
            internal_chat_message_metadata_passthrough,
        },
        ResponseItemView::FunctionCallOutput {
            id,
            call_id,
            name,
            namespace,
            output,
            internal_chat_message_metadata_passthrough,
        } => ResponseItemView::FunctionCallOutput {
            id,
            call_id,
            name,
            namespace,
            output: payload_without_images(output),
            internal_chat_message_metadata_passthrough,
        },
        ResponseItemView::CustomToolCallOutput {
            id,
            call_id,
            name,
            output,
            internal_chat_message_metadata_passthrough,
        } => ResponseItemView::CustomToolCallOutput {
            id,
            call_id,
            name,
            output: payload_without_images(output),
            internal_chat_message_metadata_passthrough,
        },
        other => other,
    }
}

pub open spec fn payload_images(output: FunctionCallOutputPayloadView) -> nat {
    match output.body {
        FunctionCallOutputBodyView::Text(_) => 0,
        FunctionCallOutputBodyView::ContentItems(items) => items.filter(
            |part: FunctionCallOutputContentItemView| part is InputImage,
        ).len(),
    }
}

/// The number of images of an item.
pub open spec fn item_images(item: ResponseItemView) -> nat {
    match item {
        ResponseItemView::Message { content, .. } => content.filter(
            |part: ContentItemView| part is InputImage,
        ).len(),
        ResponseItemView::FunctionCallOutput { output, .. } => payload_images(output),
        ResponseItemView::CustomToolCallOutput { output, .. } => payload_images(output),
        _ => 0,
    }
}

/// A history without its images.
pub open spec fn history_without_images(
    items: Seq<ResponseItemEnvelopeView>,
) -> Seq<ResponseItemEnvelopeView> {
    items.map_values(
        |envelope: ResponseItemEnvelopeView|
            ResponseItemEnvelopeView {
                item: item_without_images(envelope.item),
                metadata: envelope.metadata,
            },
    )
}

/// The number of images of a history.
pub open spec fn history_images(items: Seq<ResponseItemEnvelopeView>) -> nat {
    text::total(items.map_values(|envelope: ResponseItemEnvelopeView| item_images(envelope.item)))
}

/// A history without its reasoning.
pub open spec fn history_without_reasoning(
    items: Seq<ResponseItemEnvelopeView>,
) -> Seq<ResponseItemEnvelopeView> {
    items.filter(|envelope: ResponseItemEnvelopeView| !(envelope.item is Reasoning))
}

/// A filter of one element more.
proof fn lemma_filter_take<A>(s: Seq<A>, pred: spec_fn(A) -> bool, n: int)
    requires
        0 <= n < s.len(),
    ensures
        s.take(n + 1).filter(pred) == if pred(s[n]) {
            s.take(n).filter(pred).push(s[n])
        } else {
            s.take(n).filter(pred)
        },
{
    reveal(Seq::filter);
    assert(s.take(n + 1).drop_last() == s.take(n));
    assert(s.take(n + 1).last() == s[n]);
}

/// Splits message parts into those that stay and the count of those that go.
fn keep_content(parts: Vec<ContentItem>) -> (r: (Vec<ContentItem>, usize))
    ensures
        r.0.deep_view() == content_without_images(parts.deep_view()),
        r.1 == parts.deep_view().filter(|part: ContentItemView| part is InputImage).len(),
{
    let ghost views = parts.deep_view();
    let ghost stays = |part: ContentItemView| !(part is InputImage);
    let ghost goes = |part: ContentItemView| part is InputImage;
    let mut kept: Vec<ContentItem> = Vec::new();
    let mut removed: usize = 0;
    let ghost mut n: int = 0;
    let len = parts.len();
    proof {
        reveal(Seq::filter);
        assert(views.take(0).filter(stays) == Seq::<ContentItemView>::empty());
        assert(views.take(0).filter(goes) == Seq::<ContentItemView>::empty());
    }
    for part in it: parts
        invariant
            n == it.index(),
            it.seq() == parts@,
            len == parts@.len(),
            views == parts.deep_view(),
            kept.deep_view() == views.take(n).filter(stays),
            removed == views.take(n).filter(goes).len(),
            removed <= n,
            stays == (|part: ContentItemView| !(part is InputImage)),
            goes == (|part: ContentItemView| part is InputImage),
    {
        let ghost view = part.deep_view();
        let ghost before = kept.deep_view();
        proof {
            assert(view == views[n]);
            lemma_filter_take(views, stays, n);
            lemma_filter_take(views, goes, n);
        }
        match part {
            ContentItem::InputImage { .. } => {
                removed = removed + 1;
            },
            other => {
                kept.push(other);
                assert(kept.deep_view() == before.push(view));
            },
        }
        proof {
            n = n + 1;
        }
    }
    assert(views.take(n) == views);
    (kept, removed)
}

/// Splits output parts into those that stay and the count of those that go.
fn keep_output(parts: Vec<FunctionCallOutputContentItem>) -> (r: (
    Vec<FunctionCallOutputContentItem>,
    usize,
))
    ensures
        r.0.deep_view() == output_without_images(parts.deep_view()),
        r.1 == parts.deep_view().filter(
            |part: FunctionCallOutputContentItemView| part is InputImage,
        ).len(),
{
    let ghost views = parts.deep_view();
    let ghost stays = |part: FunctionCallOutputContentItemView| !(part is InputImage);
    let ghost goes = |part: FunctionCallOutputContentItemView| part is InputImage;
    let mut kept: Vec<FunctionCallOutputContentItem> = Vec::new();
    let mut removed: usize = 0;
    let ghost mut n: int = 0;
    let len = parts.len();
    proof {
        reveal(Seq::filter);
        assert(views.take(0).filter(stays) == Seq::<FunctionCallOutputContentItemView>::empty());
        assert(views.take(0).filter(goes) == Seq::<FunctionCallOutputContentItemView>::empty());
    }
    for part in it: parts
        invariant
            n == it.index(),
            it.seq() == parts@,
            len == parts@.len(),
            views == parts.deep_view(),
            kept.deep_view() == views.take(n).filter(stays),
            removed == views.take(n).filter(goes).len(),
            removed + kept@.len() == n,
            stays == (|part: FunctionCallOutputContentItemView| !(part is InputImage)),
            goes == (|part: FunctionCallOutputContentItemView| part is InputImage),
    {
        let ghost view = part.deep_view();
        let ghost before = kept.deep_view();
        proof {
            assert(view == views[n]);
            lemma_filter_take(views, stays, n);
            lemma_filter_take(views, goes, n);
        }
        match part {
            FunctionCallOutputContentItem::InputImage { .. } => {
                removed = removed + 1;
            },
            other => {
                kept.push(other);
                assert(kept.deep_view() == before.push(view));
            },
        }
        proof {
            n = n + 1;
        }
    }
    assert(views.take(n) == views);
    if kept.len() == 0 && removed > 0 {
        kept.push(
            FunctionCallOutputContentItem::InputText { text: "[image removed]".to_owned() },
        );
        assert(kept.deep_view() == output_without_images(views));
    }
    (kept, removed)
}

/// Removes the images of a tool output; returns how many there were.
fn strip_payload_images(output: &mut FunctionCallOutputPayload) -> (removed: usize)
    ensures
        final(output).deep_view() == payload_without_images(old(output).deep_view()),
        removed == payload_images(old(output).deep_view()),
{
    match &mut output.body {
        FunctionCallOutputBody::Text(_) => 0,
        FunctionCallOutputBody::ContentItems(items) => {
            let mut parts: Vec<FunctionCallOutputContentItem> = Vec::new();
            core::mem::swap(items, &mut parts);
            let (kept, removed) = keep_output(parts);
            *items = kept;
            removed
        },
    }
}

/// Removes the images of an item; returns how many there were.
pub fn strip_item_images(item: &mut ResponseItem) -> (removed: usize)
    ensures
        final(item).deep_view() == item_without_images(old(item).deep_view()),
        removed == item_images(old(item).deep_view()),
{
    match item {
        ResponseItem::Message { content, .. } => {
            let mut parts: Vec<ContentItem> = Vec::new();
            core::mem::swap(content, &mut parts);
            let (kept, removed) = keep_content(parts);
            *content = kept;
            removed
        },
        ResponseItem::FunctionCallOutput { output, .. } => strip_payload_images(output),
        ResponseItem::CustomToolCallOutput { output, .. } => strip_payload_images(output),
        _ => 0,
    }
}

/// Removes every image of a history.
pub fn shake_images(items: &mut Vec<ResponseItemEnvelope>) -> (result: ShakeResult)
    ensures
        final(items).deep_view() == history_without_images(old(items).deep_view()),
        result == (ShakeResult {
            tool_outputs_elided: 0,
            blocks_elided: 0,
            images_dropped: text::capped(history_images(old(items).deep_view())) as usize,
            thinking_dropped: 0,
            tokens_freed: 0,
        }),
{
    let ghost start = items.deep_view();
    let ghost counts = start.map_values(
        |envelope: ResponseItemEnvelopeView| item_images(envelope.item),
    );
    let mut images_dropped: usize = 0;
    let mut i: usize = 0;
    while i < items.len()
        invariant
            i <= items@.len(),
            items@.len() == start.len(),
            counts == start.map_values(
                |envelope: ResponseItemEnvelopeView| item_images(envelope.item),
            ),
            items.deep_view() == history_without_images(start.take(i as int)) + start.skip(
                i as int,
            ),
            images_dropped == text::capped(text::total(counts.take(i as int))),
        decreases start.len() - i,
    {
        let ghost before = items.deep_view();
        assert(before[i as int] == start[i as int]);
        assert(before[i as int] == items@[i as int].deep_view());
        let removed = strip_item_images(&mut items[i].item);
        images_dropped = images_dropped.saturating_add(removed);
        proof {
            let stripped = ResponseItemEnvelopeView {
                item: item_without_images(start[i as int].item),
                metadata: start[i as int].metadata,
            };
            assert(items.deep_view() == before.update(i as int, stripped));
            assert(history_without_images(start.take(i + 1)) == history_without_images(
                start.take(i as int),
            ).push(stripped));
            assert(counts.take(i + 1) == counts.take(i as int).push(counts[i as int]));
            text::lemma_total_push(counts.take(i as int), counts[i as int]);
        }
        i = i + 1;
    }
    assert(start.take(i as int) == start);
    assert(counts.take(i as int) == counts);
    ShakeResult {
        tool_outputs_elided: 0,
        blocks_elided: 0,
        images_dropped,
        thinking_dropped: 0,
        tokens_freed: 0,
    }
}

/// Removes the reasoning of a history.
pub fn shake_thinking(items: &mut Vec<ResponseItemEnvelope>) -> (result: ShakeResult)
    ensures
        final(items).deep_view() == history_without_reasoning(old(items).deep_view()),
        result == (ShakeResult {
            tool_outputs_elided: 0,
            blocks_elided: 0,
            images_dropped: 0,
            thinking_dropped: (old(items)@.len() - final(items)@.len()) as usize,
            tokens_freed: 0,
        }),
        final(items)@.len() <= old(items)@.len(),
{
    let ghost start = items.deep_view();
    let ghost stays = |envelope: ResponseItemEnvelopeView| !(envelope.item is Reasoning);
    let before = items.len();
    let mut all: Vec<ResponseItemEnvelope> = Vec::new();
    core::mem::swap(items, &mut all);
    let mut kept: Vec<ResponseItemEnvelope> = Vec::new();
    let ghost mut n: int = 0;
    proof {
        reveal(Seq::filter);
        assert(start.take(0).filter(stays) == Seq::<ResponseItemEnvelopeView>::empty());
    }
    for envelope in it: all
        invariant
            n == it.index(),
            it.seq() == all@,
            start == all.deep_view(),
            stays == (|envelope: ResponseItemEnvelopeView| !(envelope.item is Reasoning)),
            kept.deep_view() == start.take(n).filter(stays),
            kept@.len() <= n,
    {
        let ghost view = envelope.deep_view();
        let ghost so_far = kept.deep_view();
        proof {
            assert(view == start[n]);
            lemma_filter_take(start, stays, n);
        }
        match &envelope.item {
            ResponseItem::Reasoning { .. } => {},
            _ => {
                kept.push(envelope);
                assert(kept.deep_view() == so_far.push(view));
            },
        }
        proof {
            n = n + 1;
        }
    }
    assert(start.take(n) == start);
    let after = kept.len();
    *items = kept;
    ShakeResult {
        tool_outputs_elided: 0,
        blocks_elided: 0,
        images_dropped: 0,
        thinking_dropped: before - after,
        tokens_freed: 0,
    }
}

proof fn lemma_filter_kept<A>(s: Seq<A>, pred: spec_fn(A) -> bool)
    requires
        forall|i: int| 0 <= i < s.len() ==> pred(#[trigger] s[i]),
    ensures
        s.filter(pred) == s,
    decreases s.len(),
{
    reveal(Seq::filter);
    if s.len() > 0 {
        lemma_filter_kept(s.drop_last(), pred);
        assert(s.drop_last().push(s.last()) == s);
        assert(pred(s[s.len() - 1]));
    }
}

proof fn lemma_filter_dropped<A>(s: Seq<A>, pred: spec_fn(A) -> bool)
    requires
        forall|i: int| 0 <= i < s.len() ==> !pred(#[trigger] s[i]),
    ensures
        s.filter(pred) == Seq::<A>::empty(),
    decreases s.len(),
{
    reveal(Seq::filter);
    if s.len() > 0 {
        lemma_filter_dropped(s.drop_last(), pred);
        assert(!pred(s[s.len() - 1]));
    }
}

proof fn lemma_filter_holds<A>(s: Seq<A>, pred: spec_fn(A) -> bool)
    ensures
        forall|i: int| 0 <= i < s.filter(pred).len() ==> pred(#[trigger] s.filter(pred)[i]),
    decreases s.len(),
{
    reveal(Seq::filter);
    if s.len() > 0 {
        lemma_filter_holds(s.drop_last(), pred);
    }
}

proof fn lemma_payload_stripped(output: FunctionCallOutputPayloadView)
    ensures
        payload_images(payload_without_images(output)) == 0,
        payload_without_images(payload_without_images(output)) == payload_without_images(output),
{
    if let FunctionCallOutputBodyView::ContentItems(items) = output.body {
        let stays = |part: FunctionCallOutputContentItemView| !(part is InputImage);
        let goes = |part: FunctionCallOutputContentItemView| part is InputImage;
        lemma_filter_holds(items, stays);
        let after = output_without_images(items);
        assert forall|i: int| 0 <= i < after.len() implies stays(#[trigger] after[i]) by {
            if items.filter(stays).len() > 0 {
                assert(stays(items.filter(stays)[i]));
            }
        }
        lemma_filter_kept(after, stays);
        lemma_filter_dropped(after, goes);
    }
}

/// Removing the images of an item leaves none, and removing them again changes
/// nothing.
pub proof fn law_item_images_are_gone(item: ResponseItemView)
    ensures
        item_images(item_without_images(item)) == 0,
        item_without_images(item_without_images(item)) == item_without_images(item),
{
    match item {
        ResponseItemView::Message { content, .. } => {
            let stays = |part: ContentItemView| !(part is InputImage);
            let goes = |part: ContentItemView| part is InputImage;
            lemma_filter_holds(content, stays);
            let after = content_without_images(content);
            assert forall|i: int| 0 <= i < after.len() implies !goes(#[trigger] after[i]) by {
                assert(stays(after[i]));
            }
            lemma_filter_kept(after, stays);
            lemma_filter_dropped(after, goes);
        },
        ResponseItemView::FunctionCallOutput { output, .. } => {
            lemma_payload_stripped(output);
        },
        ResponseItemView::CustomToolCallOutput { output, .. } => {
            lemma_payload_stripped(output);
        },
        _ => {},
    }
}

proof fn lemma_total_zero(sizes: Seq<nat>)
    requires
        forall|i: int| 0 <= i < sizes.len() ==> #[trigger] sizes[i] == 0,
    ensures
        text::total(sizes) == 0,
    decreases sizes.len(),
{
    if sizes.len() > 0 {
        lemma_total_zero(sizes.drop_last());
    }
}

/// Shaking the images out of a history leaves none, keeps every item in its
/// place, and does nothing the second time.
pub proof fn law_images_are_gone(items: Seq<ResponseItemEnvelopeView>)
    ensures
        history_without_images(items).len() == items.len(),
        history_images(history_without_images(items)) == 0,
        history_without_images(history_without_images(items)) == history_without_images(items),
{
    let after = history_without_images(items);
    let counts = after.map_values(
        |envelope: ResponseItemEnvelopeView| item_images(envelope.item),
    );
    assert forall|i: int| 0 <= i < counts.len() implies #[trigger] counts[i] == 0 by {
        law_item_images_are_gone(items[i].item);
    }
    lemma_total_zero(counts);
    assert forall|i: int| 0 <= i < after.len() implies history_without_images(after)[i]
        == #[trigger] after[i] by {
        law_item_images_are_gone(items[i].item);
    }
    assert(history_without_images(after) == after);
}

/// Shaking the reasoning out of a history leaves none and does nothing the
/// second time.
pub proof fn law_reasoning_is_gone(items: Seq<ResponseItemEnvelopeView>)
    ensures
        forall|i: int|
            0 <= i < history_without_reasoning(items).len() ==> !((
            #[trigger] history_without_reasoning(items)[i]).item is Reasoning),
        history_without_reasoning(history_without_reasoning(items)) == history_without_reasoning(
            items,
        ),
{
    let stays = |envelope: ResponseItemEnvelopeView| !(envelope.item is Reasoning);
    lemma_filter_holds(items, stays);
    let after = history_without_reasoning(items);
    assert forall|i: int| 0 <= i < after.len() implies !((#[trigger] after[i]).item is Reasoning) by {
        assert(stays(after[i]));
    }
    lemma_filter_kept(after, stays);
}

/// `after` is `before` without the elements that `goes` holds of: `places` are
/// the places of all the others, in order.
pub open spec fn leaves_out<A>(
    before: Seq<A>,
    after: Seq<A>,
    goes: spec_fn(A) -> bool,
    places: Seq<int>,
) -> bool {
    &&& places.len() == after.len()
    &&& forall|k: int|
        0 <= k < places.len() ==> 0 <= #[trigger] places[k] < before.len() && after[k]
            == before[places[k]] && !goes(after[k])
    &&& forall|k: int, m: int|
        0 <= k < m < places.len() ==> #[trigger] places[k] < #[trigger] places[m]
    &&& forall|i: int|
        0 <= i < before.len() && !goes(#[trigger] before[i]) ==> exists|k: int|
            0 <= k < places.len() && #[trigger] places[k] == i
}

proof fn lemma_filter_places<A>(
    s: Seq<A>,
    stays: spec_fn(A) -> bool,
    goes: spec_fn(A) -> bool,
) -> (places: Seq<int>)
    requires
        forall|a: A| #[trigger] stays(a) == !goes(a),
    ensures
        leaves_out(s, s.filter(stays), goes, places),
        s.filter(stays).len() + s.filter(goes).len() == s.len(),
    decreases s.len(),
{
    reveal(Seq::filter);
    if s.len() == 0 {
        Seq::empty()
    } else {
        let n = s.len() - 1;
        let front = s.drop_last();
        let before = lemma_filter_places(front, stays, goes);
        assert(forall|i: int| 0 <= i < n ==> front[i] == s[i]);
        let places = if stays(s[n]) {
            before.push(n)
        } else {
            before
        };
        let after = s.filter(stays);
        assert forall|k: int| 0 <= k < places.len() implies 0 <= #[trigger] places[k] < s.len()
            && after[k] == s[places[k]] && !goes(after[k]) by {
            if k < before.len() {
                assert(places[k] == before[k]);
                assert(after[k] == front.filter(stays)[k]);
            } else {
                assert(stays(s[n]));
            }
        }
        assert forall|k: int, m: int| 0 <= k < m < places.len() implies #[trigger] places[k]
            < #[trigger] places[m] by {
            assert(places[k] == before[k]);
            if m < before.len() {
                assert(places[m] == before[m]);
            }
        }
        assert forall|i: int| 0 <= i < s.len() && !goes(#[trigger] s[i]) implies exists|k: int|
            0 <= k < places.len() && #[trigger] places[k] == i by {
            if i == n {
                assert(stays(s[n]));
                assert(places[places.len() - 1] == i);
            } else {
                assert(!goes(front[i]));
                let k = choose|k: int| 0 <= k < before.len() && #[trigger] before[k] == i;
                assert(places[k] == i);
            }
        }
        places
    }
}

/// Only images leave a message: every other part, a text of either kind among
/// them, stays as it was and in its order. As many images are counted as parts
/// are gone.
pub proof fn law_messages_lose_only_images(item: ResponseItemView) -> (places: Seq<int>)
    requires
        item is Message,
    ensures
        ({
            let after = item_without_images(item);
            &&& after is Message
            &&& after->Message_id == item->Message_id
            &&& after->Message_role == item->Message_role
            &&& after->Message_phase == item->Message_phase
            &&& after->Message_internal_chat_message_metadata_passthrough
                == item->Message_internal_chat_message_metadata_passthrough
            &&& leaves_out(
                item->Message_content,
                after->Message_content,
                |part: ContentItemView| part is InputImage,
                places,
            )
            &&& item_images(item) == item->Message_content.len() - after->Message_content.len()
        }),
{
    let stays = |part: ContentItemView| !(part is InputImage);
    let goes = |part: ContentItemView| part is InputImage;
    lemma_filter_places(item->Message_content, stays, goes)
}

/// The parts of a tool output, of whichever kind of call.
pub open spec fn output_parts(item: ResponseItemView) -> Option<
    Seq<FunctionCallOutputContentItemView>,
> {
    let body = match item {
        ResponseItemView::FunctionCallOutput { output, .. } => Some(output.body),
        ResponseItemView::CustomToolCallOutput { output, .. } => Some(output.body),
        _ => None,
    };
    match body {
        Some(FunctionCallOutputBodyView::ContentItems(parts)) => Some(parts),
        _ => None,
    }
}

/// Only images leave a tool output: every other part stays as it was and in its
/// order, and so does all that names the call. An output that was nothing but
/// images says so in their place. As many images are counted as there were.
pub proof fn law_outputs_lose_only_images(item: ResponseItemView) -> (places: Seq<int>)
    requires
        output_parts(item) is Some,
    ensures
        ({
            let after = item_without_images(item);
            let parts = output_parts(item)->0;
            let left = output_parts(after)->0;
            let only_images = parts.len() > 0 && forall|i: int|
                0 <= i < parts.len() ==> (#[trigger] parts[i]) is InputImage;
            &&& output_parts(after) is Some
            &&& only_images ==> left == seq![
                FunctionCallOutputContentItemView::InputText { text: "[image removed]"@ },
            ] && item_images(item) == parts.len()
            &&& !only_images ==> item_images(item) == parts.len() - left.len() && leaves_out(
                parts,
                left,
                |part: FunctionCallOutputContentItemView| part is InputImage,
                places,
            )
            &&& match (item, after) {
                (
                    ResponseItemView::FunctionCallOutput {
                        id,
                        call_id,
                        name,
                        namespace,
                        output,
                        internal_chat_message_metadata_passthrough: noted,
                    },
                    ResponseItemView::FunctionCallOutput {
                        id: id2,
                        call_id: call_id2,
                        name: name2,
                        namespace: namespace2,
                        output: output2,
                        internal_chat_message_metadata_passthrough: noted2,
                    },
                ) => id == id2 && call_id == call_id2 && name == name2 && namespace == namespace2
                    && noted == noted2 && output.success == output2.success,
                (
                    ResponseItemView::CustomToolCallOutput {
                        id,
                        call_id,
                        name,
                        output,
                        internal_chat_message_metadata_passthrough: noted,
                    },
                    ResponseItemView::CustomToolCallOutput {
                        id: id2,
                        call_id: call_id2,
                        name: name2,
                        output: output2,
                        internal_chat_message_metadata_passthrough: noted2,
                    },
                ) => id == id2 && call_id == call_id2 && name == name2 && noted == noted2
                    && output.success == output2.success,
                _ => false,
            }
        }),
{
    let parts = output_parts(item)->0;
    let stays = |part: FunctionCallOutputContentItemView| !(part is InputImage);
    let goes = |part: FunctionCallOutputContentItemView| part is InputImage;
    let places = lemma_filter_places(parts, stays, goes);
    if parts.len() > 0 && forall|i: int|
        0 <= i < parts.len() ==> (#[trigger] parts[i]) is InputImage {
        lemma_filter_dropped(parts, stays);
    } else if parts.len() > 0 {
        let i = choose|i: int| 0 <= i < parts.len() && !((#[trigger] parts[i]) is InputImage);
        assert(!goes(parts[i]));
        let k = choose|k: int| 0 <= k < places.len() && #[trigger] places[k] == i;
        assert(places.len() > 0);
    }
    places
}

/// What holds no images stays as it is, and none are counted: an item that is
/// neither a message nor the output of a call, an output that is one text, and
/// whatever has no part that is an image.
pub proof fn law_items_without_images_stay(item: ResponseItemView)
    requires
        item is Message ==> forall|i: int|
            0 <= i < item->Message_content.len() ==> !((
            #[trigger] item->Message_content[i]) is InputImage),
        output_parts(item) is Some ==> forall|i: int|
            0 <= i < output_parts(item)->0.len() ==> !((
            #[trigger] output_parts(item)->0[i]) is InputImage),
    ensures
        item_without_images(item) == item,
        item_images(item) == 0,
{
    if item is Message {
        let content = item->Message_content;
        lemma_filter_kept(content, |part: ContentItemView| !(part is InputImage));
        lemma_filter_dropped(content, |part: ContentItemView| part is InputImage);
    }
    if output_parts(item) is Some {
        let parts = output_parts(item)->0;
        lemma_filter_kept(
            parts,
            |part: FunctionCallOutputContentItemView| !(part is InputImage),
        );
        lemma_filter_dropped(parts, |part: FunctionCallOutputContentItemView| part is InputImage);
    }
}

/// The images of a history go item by item: of two histories in a row they go as
/// they go of each, and are counted together. What is kept beside an item stays.
pub proof fn law_images_go_item_by_item(
    items: Seq<ResponseItemEnvelopeView>,
    others: Seq<ResponseItemEnvelopeView>,
    one: ResponseItemEnvelopeView,
)
    ensures
        history_without_images(items + others) == history_without_images(items)
            + history_without_images(others),
        history_images(items + others) == history_images(items) + history_images(others),
        history_without_images(seq![one]) == seq![
            ResponseItemEnvelopeView {
                item: item_without_images(one.item),
                metadata: one.metadata,
            },
        ],
        history_images(seq![one]) == item_images(one.item),
    decreases others.len(),
{
    let count = |envelope: ResponseItemEnvelopeView| item_images(envelope.item);
    assert(history_without_images(items + others) =~= history_without_images(items)
        + history_without_images(others));
    assert(history_without_images(seq![one]) =~= seq![
        ResponseItemEnvelopeView { item: item_without_images(one.item), metadata: one.metadata },
    ]);
    assert(seq![one].map_values(count) =~= Seq::<nat>::empty().push(item_images(one.item)));
    text::lemma_total_push(Seq::<nat>::empty(), item_images(one.item));
    if others.len() == 0 {
        assert((items + others).map_values(count) =~= items.map_values(count));
    } else {
        let front = others.drop_last();
        law_images_go_item_by_item(items, front, one);
        let last = item_images(others.last().item);
        assert((items + others).map_values(count) =~= (items + front).map_values(count).push(
            last,
        ));
        assert(others.map_values(count) =~= front.map_values(count).push(last));
        text::lemma_total_push((items + front).map_values(count), last);
        text::lemma_total_push(front.map_values(count), last);
    }
}

/// Only reasoning leaves a history: every other item stays as it was, with what
/// is kept beside it, and in its order.
pub proof fn law_histories_lose_only_reasoning(items: Seq<ResponseItemEnvelopeView>) -> (places:
    Seq<int>)
    ensures
        leaves_out(
            items,
            history_without_reasoning(items),
            |envelope: ResponseItemEnvelopeView| envelope.item is Reasoning,
            places,
        ),
{
    let stays = |envelope: ResponseItemEnvelopeView| !(envelope.item is Reasoning);
    let goes = |envelope: ResponseItemEnvelopeView| envelope.item is Reasoning;
    lemma_filter_places(items, stays, goes)
}

} // verus!
