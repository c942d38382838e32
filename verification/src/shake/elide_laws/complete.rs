//! That an elision misses nothing, and what it makes of each output.

use vstd::prelude::*;
use vstd::string::*;

use crate::items::ContentItemView;
use crate::items::FunctionCallOutputBodyView;
use crate::items::FunctionCallOutputContentItemView;
use crate::items::FunctionCallOutputPayloadView;
use crate::items::ResponseItemEnvelopeView;
use crate::items::ResponseItemView;
use crate::shake::blocks;
use crate::shake::elide;
use crate::shake::elide::BlockPlaceView;
use crate::shake::elide::ElideRegionView;
use crate::shake::elide_laws;
use crate::shake::protection;
use crate::shake::recovery;
use crate::shake::sizes;
use crate::text;

verus! {

proof fn lemma_span_is_listed(
    item: int,
    part: int,
    content: Seq<char>,
    role: Seq<char>,
    m: int,
    n: int,
) -> (k: int)
    requires
        0 <= m < n <= blocks::block_spans(content).len(),
        elide::is_worth_eliding(
            content.subrange(
                blocks::block_spans(content)[m].0,
                blocks::block_spans(content)[m].1,
            ),
        ),
    ensures
        0 <= k < elide::text_regions(item, part, content, role, n).len(),
        elide::text_regions(item, part, content, role, n)[k] == block_region(
            item,
            part,
            content,
            role,
            blocks::block_spans(content)[m],
        ),
    decreases n,
{
    if m == n - 1 {
        elide::text_regions(item, part, content, role, n).len() - 1
    } else {
        lemma_span_is_listed(item, part, content, role, m, n - 1)
    }
}

/// The region of one block.
pub open spec fn block_region(
    item: int,
    part: int,
    content: Seq<char>,
    role: Seq<char>,
    span: (int, int),
) -> ElideRegionView {
    ElideRegionView {
        item,
        block: Some(BlockPlaceView { part, span }),
        content: content.subrange(span.0, span.1),
        label: role + " block"@,
        tokens: sizes::token_count(content.subrange(span.0, span.1)),
    }
}

proof fn lemma_part_is_listed(
    item: int,
    role: Seq<char>,
    content: Seq<ContentItemView>,
    j: int,
    m: int,
    n: int,
) -> (k: int)
    requires
        0 <= j < n <= content.len(),
        elide::part_text(content[j]) is Some,
        0 <= m < blocks::block_spans(elide::part_text(content[j])->0).len(),
        ({
            let words = elide::part_text(content[j])->0;
            let span = blocks::block_spans(words)[m];
            elide::is_worth_eliding(words.subrange(span.0, span.1))
        }),
    ensures
        0 <= k < elide::message_regions(item, role, content, n).len(),
        ({
            let words = elide::part_text(content[j])->0;
            elide::message_regions(item, role, content, n)[k] == block_region(
                item,
                j,
                words,
                role,
                blocks::block_spans(words)[m],
            )
        }),
    decreases n,
{
    if j == n - 1 {
        let words = elide::part_text(content[j])->0;
        let k = lemma_span_is_listed(
            item,
            j,
            words,
            role,
            m,
            blocks::block_spans(words).len() as int,
        );
        elide::message_regions(item, role, content, n - 1).len() + k
    } else {
        lemma_part_is_listed(item, role, content, j, m, n - 1)
    }
}

proof fn lemma_block_is_listed(
    items: Seq<ResponseItemEnvelopeView>,
    protect_tokens: nat,
    i: int,
    k: int,
    n: int,
) -> (at: int)
    requires
        0 <= i < n <= items.len(),
        0 <= k < elide::item_block_regions(items, protect_tokens, i).len(),
    ensures
        0 <= at < elide::block_regions(items, protect_tokens, n).len(),
        elide::block_regions(items, protect_tokens, n)[at] == elide::item_block_regions(
            items,
            protect_tokens,
            i,
        )[k],
    decreases n,
{
    if i == n - 1 {
        elide::block_regions(items, protect_tokens, n - 1).len() + k
    } else {
        lemma_block_is_listed(items, protect_tokens, i, k, n - 1)
    }
}

/// No large block is missed: where what came behind a message fills the
/// protected window, every block of each of its texts, whether they went in or
/// came out, is planned for, unless it is small or was saved or read back before.
pub proof fn law_large_blocks_are_planned(
    items: Seq<ResponseItemEnvelopeView>,
    protect_tokens: nat,
    i: int,
    j: int,
    words: Seq<char>,
    m: int,
)
    requires
        0 <= i < items.len(),
        elide::tokens_after(items, i) >= protect_tokens,
        items[i].item is Message,
        0 <= j < items[i].item->Message_content.len(),
        items[i].item->Message_content[j] == (ContentItemView::InputText { text: words })
            || items[i].item->Message_content[j] == (ContentItemView::OutputText { text: words }),
        0 <= m < blocks::block_spans(words).len(),
        ({
            let span = blocks::block_spans(words)[m];
            let block = words.subrange(span.0, span.1);
            sizes::token_count(block) >= 400 && !recovery::is_recovery_output(block)
        }),
    ensures
        exists|k: int|
            0 <= k < elide::elision_plan(items, protect_tokens).len()
                && #[trigger] elide::elision_plan(items, protect_tokens)[k] == block_region(
                i,
                j,
                words,
                items[i].item->Message_role,
                blocks::block_spans(words)[m],
            ),
{
    let role = items[i].item->Message_role;
    let content = items[i].item->Message_content;
    let n = items.len() as int;
    let k = lemma_part_is_listed(i, role, content, j, m, content.len() as int);
    let at = lemma_block_is_listed(items, protect_tokens, i, k, n);
    let found = elide::block_regions(items, protect_tokens, n);
    let tools = elide::tool_regions(items, protect_tokens, n);
    let plan = elide::elision_plan(items, protect_tokens);
    let place = tools.len() + (found.len() - 1 - at);
    assert(plan[place] == found[at]);
}

/// No large output is missed: of either kind of call, an output that is not
/// protected is planned for whole, where what came behind it fills the protected
/// window, unless it is small or was saved or read back before.
pub proof fn law_large_outputs_are_planned(
    items: Seq<ResponseItemEnvelopeView>,
    protect_tokens: nat,
    i: int,
    output: FunctionCallOutputPayloadView,
    words: Seq<char>,
)
    requires
        0 <= i < items.len(),
        elide::tokens_after(items, i) >= protect_tokens,
        !protection::is_protected_output(items, i),
        items[i].item is FunctionCallOutput ==> items[i].item->FunctionCallOutput_output == output,
        items[i].item is CustomToolCallOutput ==> items[i].item->CustomToolCallOutput_output
            == output,
        items[i].item is FunctionCallOutput || items[i].item is CustomToolCallOutput,
        elide::payload_text(output) == Some(words),
        sizes::token_count(words) >= 400,
        !recovery::is_recovery_output(words),
    ensures
        exists|k: int|
            0 <= k < elide::elision_plan(items, protect_tokens).len()
                && #[trigger] elide::elision_plan(items, protect_tokens)[k] == (ElideRegionView {
                item: i,
                block: None,
                content: words,
                label: "tool output"@,
                tokens: sizes::token_count(words),
            }),
{
    let n = items.len() as int;
    let k = elide_laws::again::lemma_output_is_listed(items, protect_tokens, i, n);
    let plan = elide::elision_plan(items, protect_tokens);
    assert(plan[k] == elide::tool_regions(items, protect_tokens, n)[k]);
}

/// Every region of a plan is a place that may be replaced: the whole text of a
/// tool output, or one block of a text of a message. It is labelled as what it
/// is, holds the text of its place, and is counted with its tokens.
pub proof fn law_plans_hold_outputs_and_blocks(
    items: Seq<ResponseItemEnvelopeView>,
    protect_tokens: nat,
    k: int,
)
    requires
        0 <= k < elide::elision_plan(items, protect_tokens).len(),
    ensures
        ({
            let region = elide::elision_plan(items, protect_tokens)[k];
            &&& 0 <= region.item < items.len()
            &&& elide::tokens_after(items, region.item) >= protect_tokens
            &&& sizes::token_count(region.content) >= 400
            &&& region.tokens == sizes::token_count(region.content)
            &&& match items[region.item].item {
                ResponseItemView::FunctionCallOutput { output, .. } => region.block is None
                    && region.label == "tool output"@ && elide::payload_text(output) == Some(
                    region.content,
                ),
                ResponseItemView::CustomToolCallOutput { output, .. } => region.block is None
                    && region.label == "tool output"@ && elide::payload_text(output) == Some(
                    region.content,
                ),
                ResponseItemView::Message { role, content, .. } => {
                    &&& region.label == role + " block"@
                    &&& region.block matches Some(place) && {
                        &&& 0 <= place.part < content.len()
                        &&& match content[place.part] {
                            ContentItemView::InputText { text } => blocks::block_spans(
                                text,
                            ).contains(place.span) && region.content == text.subrange(
                                place.span.0,
                                place.span.1,
                            ),
                            ContentItemView::OutputText { text } => blocks::block_spans(
                                text,
                            ).contains(place.span) && region.content == text.subrange(
                                place.span.0,
                                place.span.1,
                            ),
                            _ => false,
                        }
                    }
                },
                _ => false,
            }
        }),
{
    let n = items.len() as int;
    let plan = elide::elision_plan(items, protect_tokens);
    let tools = elide::tool_regions(items, protect_tokens, n);
    let found = elide::block_regions(items, protect_tokens, n);
    if k < tools.len() {
        assert(plan[k] == tools[k]);
        lemma_tool_labels(items, protect_tokens, n, k);
    } else {
        let at = found.len() - 1 - (k - tools.len());
        assert(plan[k] == found[at]);
        lemma_block_labels(items, protect_tokens, n, at);
    }
}

/// What a plan holds of a region.
spec fn is_planned(
    items: Seq<ResponseItemEnvelopeView>,
    protect_tokens: nat,
    region: ElideRegionView,
) -> bool {
    &&& 0 <= region.item < items.len()
    &&& elide::is_old(items, protect_tokens, region.item)
    &&& elide::is_worth_eliding(region.content)
    &&& region.tokens == sizes::token_count(region.content)
}

proof fn lemma_tool_labels(
    items: Seq<ResponseItemEnvelopeView>,
    protect_tokens: nat,
    n: int,
    k: int,
)
    requires
        0 <= n <= items.len(),
        0 <= k < elide::tool_regions(items, protect_tokens, n).len(),
    ensures
        ({
            let region = elide::tool_regions(items, protect_tokens, n)[k];
            &&& is_planned(items, protect_tokens, region)
            &&& region.block is None
            &&& region.label == "tool output"@
            &&& elide::output_of(items[region.item].item) matches Some(output)
                && elide::payload_text(output) == Some(region.content)
        }),
    decreases n,
{
    if n > 0 {
        if k < elide::tool_regions(items, protect_tokens, n - 1).len() {
            lemma_tool_labels(items, protect_tokens, n - 1, k);
        }
    }
}

/// A region that is a block of a part of a message.
spec fn is_block_of(
    item: int,
    role: Seq<char>,
    content: Seq<ContentItemView>,
    region: ElideRegionView,
) -> bool {
    &&& region.item == item
    &&& region.label == role + " block"@
    &&& elide::is_worth_eliding(region.content)
    &&& region.tokens == sizes::token_count(region.content)
    &&& region.block matches Some(place) && 0 <= place.part < content.len() && (elide::part_text(
        content[place.part],
    ) matches Some(words) && blocks::block_spans(words).contains(place.span) && region.content
        == words.subrange(place.span.0, place.span.1))
}

proof fn lemma_span_labels(
    item: int,
    part: int,
    role: Seq<char>,
    content: Seq<ContentItemView>,
    n: int,
    k: int,
)
    requires
        0 <= part < content.len(),
        elide::part_text(content[part]) is Some,
        0 <= n <= blocks::block_spans(elide::part_text(content[part])->0).len(),
        0 <= k < elide::text_regions(
            item,
            part,
            elide::part_text(content[part])->0,
            role,
            n,
        ).len(),
    ensures
        is_block_of(
            item,
            role,
            content,
            elide::text_regions(item, part, elide::part_text(content[part])->0, role, n)[k],
        ),
    decreases n,
{
    let words = elide::part_text(content[part])->0;
    if n > 0 {
        if k < elide::text_regions(item, part, words, role, n - 1).len() {
            lemma_span_labels(item, part, role, content, n - 1, k);
        } else {
            assert(blocks::block_spans(words).contains(blocks::block_spans(words)[n - 1]));
        }
    }
}

proof fn lemma_part_labels(
    item: int,
    role: Seq<char>,
    content: Seq<ContentItemView>,
    n: int,
    k: int,
)
    requires
        0 <= n <= content.len(),
        0 <= k < elide::message_regions(item, role, content, n).len(),
    ensures
        is_block_of(item, role, content, elide::message_regions(item, role, content, n)[k]),
    decreases n,
{
    if n > 0 {
        let front = elide::message_regions(item, role, content, n - 1).len();
        if k < front {
            lemma_part_labels(item, role, content, n - 1, k);
        } else {
            let words = elide::part_text(content[n - 1])->0;
            lemma_span_labels(
                item,
                n - 1,
                role,
                content,
                blocks::block_spans(words).len() as int,
                k - front,
            );
        }
    }
}

proof fn lemma_block_labels(
    items: Seq<ResponseItemEnvelopeView>,
    protect_tokens: nat,
    n: int,
    k: int,
)
    requires
        0 <= n <= items.len(),
        0 <= k < elide::block_regions(items, protect_tokens, n).len(),
    ensures
        ({
            let region = elide::block_regions(items, protect_tokens, n)[k];
            &&& is_planned(items, protect_tokens, region)
            &&& items[region.item].item is Message
            &&& is_block_of(
                region.item,
                items[region.item].item->Message_role,
                items[region.item].item->Message_content,
                region,
            )
        }),
    decreases n,
{
    if n > 0 {
        let front = elide::block_regions(items, protect_tokens, n - 1).len();
        if k < front {
            lemma_block_labels(items, protect_tokens, n - 1, k);
        } else {
            let role = items[n - 1].item->Message_role;
            let content = items[n - 1].item->Message_content;
            lemma_part_labels(n - 1, role, content, content.len() as int, k - front);
        }
    }
}

/// A plan goes through the outputs from the oldest to the newest, and then
/// through the blocks from the last one back: no place is planned for twice, and
/// what is replaced never moves what is still to be replaced.
pub proof fn law_plans_are_in_order(
    items: Seq<ResponseItemEnvelopeView>,
    protect_tokens: nat,
    p: int,
    q: int,
)
    requires
        0 <= p < q < elide::elision_plan(items, protect_tokens).len(),
    ensures
        ({
            let first = elide::elision_plan(items, protect_tokens)[p];
            let second = elide::elision_plan(items, protect_tokens)[q];
            &&& second.block is None ==> first.block is None && first.item < second.item
            &&& first.block is Some && first.item == second.item ==> {
                ||| second.block->0.part < first.block->0.part
                ||| second.block->0.part == first.block->0.part && second.block->0.span.1
                    < first.block->0.span.0
            }
            &&& first.block is Some ==> second.block is Some && second.item <= first.item
        }),
{
    elide_laws::lemma_plan(items, protect_tokens);
}

/// The protected window is filled from the end: nothing stands behind the last
/// item, and a further item adds its tokens to what stands behind every other.
pub proof fn law_window_fills_from_the_end(
    items: Seq<ResponseItemEnvelopeView>,
    last: ResponseItemEnvelopeView,
    i: int,
)
    requires
        0 <= i < items.len(),
    ensures
        elide::tokens_after(items.push(last), items.len() as int) == 0,
        elide::tokens_after(items.push(last), i) == elide::tokens_after(items, i)
            + sizes::item_tokens(last),
    decreases items.len() - i,
{
    let all = items.push(last);
    if i + 1 < items.len() {
        law_window_fills_from_the_end(items, last, i + 1);
        assert(all[i + 1] == items[i + 1]);
    } else {
        assert(all[i + 1] == last);
        assert(elide::tokens_after(all, i + 1) == 0);
        assert(elide::tokens_after(items, i) == 0);
    }
}

/// The text of an output that is one text is that text, unless it is empty.
pub proof fn law_plain_outputs_are_their_text(words: Seq<char>, success: Option<bool>)
    ensures
        words.len() > 0 ==> elide::payload_text(
            FunctionCallOutputPayloadView {
                body: FunctionCallOutputBodyView::Text(words),
                success,
            },
        ) == Some(words),
        elide::payload_text(
            FunctionCallOutputPayloadView {
                body: FunctionCallOutputBodyView::Text(Seq::empty()),
                success,
            },
        ) is None,
{
}

/// An output made of parts.
pub open spec fn output_with(parts: Seq<FunctionCallOutputContentItemView>) ->
    FunctionCallOutputPayloadView {
    FunctionCallOutputPayloadView {
        body: FunctionCallOutputBodyView::ContentItems(parts),
        success: None,
    }
}

/// The text of an output that is made of parts: the texts among them that are
/// not empty, in their order, one below the other. Any other part adds nothing.
pub proof fn law_outputs_are_the_texts_of_their_parts(
    parts: Seq<FunctionCallOutputContentItemView>,
    part: FunctionCallOutputContentItemView,
)
    ensures
        elide::payload_text(output_with(Seq::empty())) is None,
        ({
            let before = elide::payload_text(output_with(parts));
            let after = elide::payload_text(output_with(parts.push(part)));
            match part {
                FunctionCallOutputContentItemView::InputText { text } if text.len() > 0 => after
                    == Some(
                    match before {
                        Some(words) => words + seq!['\n'] + text,
                        None => text,
                    },
                ),
                _ => after == before,
            }
        }),
{
    reveal_strlit("\n");
    assert("\n"@ =~= seq!['\n']);
    assert(parts.push(part).drop_last() =~= parts);
    let fragments = elide::text_fragments(parts);
    if let FunctionCallOutputContentItemView::InputText { text } = part {
        if text.len() > 0 {
            assert(fragments.push(text).drop_last() =~= fragments);
        }
    }
}

/// A replaced output has its placeholder where its first text stood, none of its
/// other texts, and every other part as it was. A later part changes nothing of
/// that.
pub proof fn law_placeholder_takes_the_first_text(
    parts: Seq<FunctionCallOutputContentItemView>,
    part: FunctionCallOutputContentItemView,
    placeholder: Seq<char>,
)
    ensures
        elide::replace_text(Seq::empty(), placeholder) == Seq::<
            FunctionCallOutputContentItemView,
        >::empty(),
        ({
            let before = elide::replace_text(parts, placeholder);
            let after = elide::replace_text(parts.push(part), placeholder);
            let first = forall|i: int|
                0 <= i < parts.len() ==> !((#[trigger] parts[i]) is InputText);
            &&& !(part is InputText) ==> after == before.push(part)
            &&& part is InputText && first ==> after == before.push(
                FunctionCallOutputContentItemView::InputText { text: placeholder },
            )
            &&& part is InputText && !first ==> after == before
        }),
{
    assert(parts.push(part).drop_last() =~= parts);
}

/// An output that is one text becomes its placeholder; whether it went well
/// stays as it was, for either form of output.
pub proof fn law_replaced_outputs_keep_their_outcome(
    output: FunctionCallOutputPayloadView,
    placeholder: Seq<char>,
)
    ensures
        elide::elided_payload(output, placeholder).success == output.success,
        output.body is Text ==> elide::elided_payload(output, placeholder).body
            == FunctionCallOutputBodyView::Text(placeholder),
        output.body matches FunctionCallOutputBodyView::ContentItems(parts)
            ==> elide::elided_payload(output, placeholder).body
            == FunctionCallOutputBodyView::ContentItems(elide::replace_text(parts, placeholder)),
{
}

/// What replacing a text frees: its tokens, less those of the placeholder, and
/// never less than nothing.
pub proof fn law_freed_tokens_are_the_difference(words: Seq<char>, placeholder: Seq<char>)
    ensures
        sizes::token_count(words) >= sizes::token_count(placeholder) ==> elide::freed_tokens(
            sizes::token_count(words),
            placeholder,
        ) + sizes::token_count(placeholder) == sizes::token_count(words),
        sizes::token_count(words) <= sizes::token_count(placeholder) ==> elide::freed_tokens(
            sizes::token_count(words),
            placeholder,
        ) == 0,
{
}

/// A token is four bytes, the last one begun: a text of `n` tokens has at most
/// four times as many bytes, and more than four times one token less.
pub proof fn law_tokens_are_four_bytes(s: Seq<char>)
    ensures
        4 * sizes::token_count(s) >= text::byte_len(s),
        4 * sizes::token_count(s) < text::byte_len(s) + 4,
{
}

/// The size of a message is that of its role and of all that its parts hold,
/// whatever their kind: each further part adds the bytes of its text, or of the
/// image or sound in it.
pub proof fn law_messages_are_as_large_as_their_parts(
    role: Seq<char>,
    content: Seq<ContentItemView>,
    part: ContentItemView,
    held: Seq<char>,
    message: ResponseItemView,
    longer: ResponseItemView,
)
    requires
        message is Message,
        longer is Message,
        message->Message_role == role,
        longer->Message_role == role,
        message->Message_content == content,
        longer->Message_content == content.push(part),
        match part {
            ContentItemView::InputText { text } => held == text,
            ContentItemView::OutputText { text } => held == text,
            ContentItemView::InputImage { image_url, .. } => held == image_url,
            ContentItemView::InputAudio { audio_url } => held == audio_url,
        },
    ensures
        sizes::item_bytes(longer) == sizes::item_bytes(message) + text::byte_len(held),
        content.len() == 0 ==> sizes::item_bytes(message) == text::byte_len(role),
{
    let size = |part: ContentItemView| sizes::content_item_bytes(part);
    assert(content.push(part).map_values(size) =~= content.map_values(size).push(size(part)));
    text::lemma_total_push(content.map_values(size), size(part));
}

/// The size of an output is that of its text, or of all that its parts hold: each
/// further part adds the bytes of its text, or of what else is in it. Both kinds
/// of output are measured alike.
pub proof fn law_outputs_are_as_large_as_their_parts(
    parts: Seq<FunctionCallOutputContentItemView>,
    part: FunctionCallOutputContentItemView,
    held: Seq<char>,
    words: Seq<char>,
    success: Option<bool>,
    item: ResponseItemView,
)
    requires
        match part {
            FunctionCallOutputContentItemView::InputText { text } => held == text,
            FunctionCallOutputContentItemView::InputImage { image_url, .. } => held == image_url,
            FunctionCallOutputContentItemView::InputAudio { audio_url } => held == audio_url,
            FunctionCallOutputContentItemView::EncryptedContent { encrypted_content } => held
                == encrypted_content,
        },
    ensures
        sizes::payload_bytes(output_with(Seq::empty())) == 0,
        sizes::payload_bytes(output_with(parts.push(part))) == sizes::payload_bytes(
            output_with(parts),
        ) + text::byte_len(held),
        sizes::payload_bytes(
            FunctionCallOutputPayloadView {
                body: FunctionCallOutputBodyView::Text(words),
                success,
            },
        ) == text::byte_len(words),
        item is FunctionCallOutput ==> sizes::item_bytes(item) == sizes::payload_bytes(
            item->FunctionCallOutput_output,
        ),
        item is CustomToolCallOutput ==> sizes::item_bytes(item) == sizes::payload_bytes(
            item->CustomToolCallOutput_output,
        ),
{
    let size = |part: FunctionCallOutputContentItemView| sizes::output_item_bytes(part);
    assert(Seq::<FunctionCallOutputContentItemView>::empty().map_values(size) =~= Seq::<
        nat,
    >::empty());
    assert(parts.push(part).map_values(size) =~= parts.map_values(size).push(size(part)));
    text::lemma_total_push(parts.map_values(size), size(part));
}

/// The size of a call is that of its name and of what it was called with.
pub proof fn law_calls_are_as_large_as_their_input(item: ResponseItemView)
    ensures
        item is FunctionCall ==> sizes::item_bytes(item) == text::byte_len(
            item->FunctionCall_name + item->FunctionCall_arguments,
        ),
        item is CustomToolCall ==> sizes::item_bytes(item) == text::byte_len(
            item->CustomToolCall_name + item->CustomToolCall_input,
        ),
{
    if item is FunctionCall {
        text::lemma_byte_len_concat(item->FunctionCall_name, item->FunctionCall_arguments);
    }
    if item is CustomToolCall {
        text::lemma_byte_len_concat(item->CustomToolCall_name, item->CustomToolCall_input);
    }
}

/// The output of a protected call is protected, wherever the call stands and
/// whichever kind it is: it is paired with the call by its id.
pub proof fn law_outputs_are_paired_with_their_calls(
    items: Seq<ResponseItemEnvelopeView>,
    call: int,
    i: int,
    id: Seq<char>,
)
    requires
        0 <= call < items.len(),
        0 <= i < items.len(),
        match items[call].item {
            ResponseItemView::FunctionCall { call_id, name, namespace, .. } => call_id == id
                && protection::is_protected(namespace, name),
            ResponseItemView::CustomToolCall { call_id, name, namespace, .. } => call_id == id
                && protection::is_protected(namespace, name),
            _ => false,
        },
        match items[i].item {
            ResponseItemView::FunctionCallOutput { call_id, .. } => call_id == Some(id),
            ResponseItemView::CustomToolCallOutput { call_id, .. } => call_id == id,
            _ => false,
        },
    ensures
        protection::is_protected_output(items, i),
{
    assert(protection::calls_protected(items[call].item) == Some(id));
    assert(protection::is_protected_call(items, id));
}

/// An output is protected for no other reason: it carries the name of a
/// protected tool itself, or some call of one has its id.
pub proof fn law_only_protected_tools_protect(items: Seq<ResponseItemEnvelopeView>, i: int)
    requires
        0 <= i < items.len(),
        protection::is_protected_output(items, i),
    ensures
        match items[i].item {
            ResponseItemView::FunctionCallOutput { call_id, name, namespace, .. } => {
                ||| name matches Some(tool) && protection::is_protected(namespace, tool)
                ||| call_id matches Some(id) && has_protected_call(items, id)
            },
            ResponseItemView::CustomToolCallOutput { call_id, name, .. } => {
                ||| name matches Some(tool) && protection::is_protected(None, tool)
                ||| has_protected_call(items, call_id)
            },
            _ => false,
        },
{
    let id = match items[i].item {
        ResponseItemView::FunctionCallOutput { call_id, .. } => call_id->0,
        ResponseItemView::CustomToolCallOutput { call_id, .. } => call_id,
        _ => Seq::empty(),
    };
    if protection::is_protected_call(items, id) {
        let k = choose|k: int|
            0 <= k < items.len() && protection::calls_protected((#[trigger] items[k]).item)
                == Some(id);
        assert(is_protected_call_of(items[k].item, id));
    }
}

/// An item that calls a protected tool under an id.
pub open spec fn is_protected_call_of(item: ResponseItemView, id: Seq<char>) -> bool {
    match item {
        ResponseItemView::FunctionCall { call_id, name, namespace, .. } => call_id == id
            && protection::is_protected(namespace, name),
        ResponseItemView::CustomToolCall { call_id, name, namespace, .. } => call_id == id
            && protection::is_protected(namespace, name),
        _ => false,
    }
}

/// Some item calls a protected tool under an id.
pub open spec fn has_protected_call(
    items: Seq<ResponseItemEnvelopeView>,
    id: Seq<char>,
) -> bool {
    exists|k: int| 0 <= k < items.len() && is_protected_call_of((#[trigger] items[k]).item, id)
}

/// The protected tools: `read_artifact` where no namespace is given, or an empty
/// one, or `functions`; and `read` and `list` of `skills`. None else.
pub proof fn law_protected_tools(name: Seq<char>, namespace: Seq<char>)
    ensures
        protection::is_protected(None, name) == (name == "read_artifact"@),
        protection::is_protected(Some(Seq::empty()), name) == (name == "read_artifact"@),
        protection::is_protected(Some("functions"@), name) == (name == "read_artifact"@),
        protection::is_protected(Some("skills"@), name) == (name == "read"@ || name == "list"@),
        namespace.len() > 0 && namespace != "functions"@ && namespace != "skills"@
            ==> !protection::is_protected(Some(namespace), name),
{
    reveal_strlit("functions");
    reveal_strlit("skills");
    assert("skills"@.len() != "functions"@.len());
}

/// A text that was read back says so in one of its lines; whatever stands around
/// that line, the text is not saved again.
pub proof fn law_source_markers_are_recognized(id: Seq<char>)
    requires
        id.len() > 0,
    ensures
        recovery::is_source_marker("[artifact source: artifact://"@ + id + "]"@),
        !recovery::is_source_marker("[artifact source: artifact://"@ + "]"@),
{
    reveal_strlit("[artifact source: artifact://");
    reveal_strlit("]");
    let head = "[artifact source: artifact://"@;
    let line = head + id + "]"@;
    assert(line.subrange(0, head.len() as int) =~= head);
    assert(line.subrange(line.len() - 1, line.len() as int) =~= "]"@);
    let bare = head + "]"@;
    assert(bare.len() == head.len() + 1);
}

/// A text counts as saved or read back before just where one of its lines is
/// such a marker.
pub proof fn law_markers_count_in_any_line(s: Seq<char>, i: int)
    requires
        0 <= i < text::lines(s).len(),
        recovery::is_shaken_marker(text::lines(s)[i]) || recovery::is_source_marker(
            text::lines(s)[i],
        ),
    ensures
        recovery::is_recovery_output(s),
        !elide::is_worth_eliding(s),
{
    let line = text::lines(s)[i];
    assert(recovery::is_shaken_marker(line) || recovery::is_source_marker(line));
}

/// What a shaken marker is: it begins as one, ends in a bracket, and names where
/// the original is behind the label.
pub proof fn law_shaken_markers_name_the_original(line: Seq<char>)
    requires
        recovery::is_shaken_marker(line),
    ensures
        exists|tokens: Seq<char>, label: Seq<char>, path: Seq<char>|
            path.len() > 0 && line == #[trigger] shaken_line(tokens, label, path),
{
    reveal_strlit("[shaken ~");
    reveal_strlit("]");
    let head = "[shaken ~"@;
    let mid = " tokens from "@;
    let orig = ". original: "@;
    let rest = line.skip(head.len() as int);
    text::lemma_find_from(rest, mid, 0);
    let at = text::find(rest, mid)->0;
    let tokens = rest.take(at);
    let tail = rest.skip(at + mid.len());
    let body = tail.drop_last();
    text::lemma_find_from(body, orig, 0);
    let to = text::find(body, orig)->0;
    let label = body.take(to);
    let path = body.skip(to + orig.len());
    assert(line.subrange(0, head.len() as int) =~= head);
    assert(line =~= head + rest);
    assert(rest.subrange(at, at + mid.len()) =~= mid);
    assert(rest =~= tokens + mid + tail);
    assert(tail.subrange(tail.len() - 1, tail.len() as int) =~= "]"@);
    assert(tail =~= body + "]"@);
    assert(body.subrange(to, to + orig.len()) =~= orig);
    assert(body =~= label + orig + path);
    assert(line =~= shaken_line(tokens, label, path));
}

/// A line in the form of a placeholder.
pub open spec fn shaken_line(tokens: Seq<char>, label: Seq<char>, path: Seq<char>) -> Seq<char> {
    "[shaken ~"@ + tokens + " tokens from "@ + label + ". original: "@ + path + "]"@
}

/// A placeholder says how many tokens went, what they were, and where they are.
pub proof fn law_placeholders_say_what_went(tokens: nat, label: Seq<char>, path: Seq<char>)
    ensures
        recovery::placeholder_text(tokens, label, path) == shaken_line(
            text::decimal(tokens),
            label,
            path,
        ),
{
}

} // verus!
