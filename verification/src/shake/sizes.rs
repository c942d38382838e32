//! Size estimates of history items.
//!
//! A token is taken to be four bytes of text. Sums that would not fit a machine
//! word stay at the largest word, which no threshold can tell apart from the
//! true sum.

use vstd::prelude::*;

use crate::items::AgentMessageInputContent;
use crate::items::AgentMessageInputContentView;
use crate::items::ContentItem;
use crate::items::ContentItemView;
use crate::items::FunctionCallOutputBody;
use crate::items::FunctionCallOutputBodyView;
use crate::items::FunctionCallOutputContentItem;
use crate::items::FunctionCallOutputContentItemView;
use crate::items::FunctionCallOutputPayload;
use crate::items::FunctionCallOutputPayloadView;
use crate::items::ReasoningItemContent;
use crate::items::ReasoningItemContentView;
use crate::items::ReasoningSummary;
use crate::items::ReasoningSummaryView;
use crate::items::ResponseItem;
use crate::items::ResponseItemEnvelope;
use crate::items::ResponseItemEnvelopeView;
use crate::items::ResponseItemView;
use crate::text;

verus! {

/// The estimated number of tokens of that many bytes.
pub open spec fn approx_tokens(bytes: nat) -> nat {
    (bytes + 3) / 4
}

/// The estimated number of tokens of a text.
pub open spec fn token_count(s: Seq<char>) -> nat {
    approx_tokens(text::byte_len(s))
}

/// The estimated number of tokens of that many bytes.
pub fn approx_tokens_from_byte_count(bytes: usize) -> (tokens: usize)
    ensures
        tokens == approx_tokens(bytes as nat),
        tokens <= bytes,
{
    if bytes % 4 == 0 {
        bytes / 4
    } else {
        bytes / 4 + 1
    }
}

/// The estimated number of tokens of a text.
pub fn approx_token_count(content: &str) -> (tokens: usize)
    ensures
        tokens == token_count(content@),
{
    approx_tokens_from_byte_count(text::text_bytes(content))
}

pub open spec fn content_item_bytes(part: ContentItemView) -> nat {
    match part {
        ContentItemView::InputText { text } => text::byte_len(text),
        ContentItemView::OutputText { text } => text::byte_len(text),
        ContentItemView::InputImage { image_url, .. } => text::byte_len(image_url),
        ContentItemView::InputAudio { audio_url } => text::byte_len(audio_url),
    }
}

pub open spec fn agent_content_bytes(part: AgentMessageInputContentView) -> nat {
    match part {
        AgentMessageInputContentView::InputText { text } => text::byte_len(text),
        AgentMessageInputContentView::EncryptedContent { encrypted_content } => text::byte_len(
            encrypted_content,
        ),
    }
}

pub open spec fn summary_bytes(part: ReasoningSummaryView) -> nat {
    match part {
        ReasoningSummaryView::SummaryText { text } => text::byte_len(text),
    }
}

pub open spec fn reasoning_bytes(part: ReasoningItemContentView) -> nat {
    match part {
        ReasoningItemContentView::ReasoningText { text } => text::byte_len(text),
        ReasoningItemContentView::Text { text } => text::byte_len(text),
    }
}

pub open spec fn output_item_bytes(part: FunctionCallOutputContentItemView) -> nat {
    match part {
        FunctionCallOutputContentItemView::InputText { text } => text::byte_len(text),
        FunctionCallOutputContentItemView::InputImage { image_url, .. } => text::byte_len(image_url),
        FunctionCallOutputContentItemView::InputAudio { audio_url } => text::byte_len(audio_url),
        FunctionCallOutputContentItemView::EncryptedContent { encrypted_content } => text::byte_len(
            encrypted_content,
        ),
    }
}

/// The bytes of a tool output.
pub open spec fn payload_bytes(output: FunctionCallOutputPayloadView) -> nat {
    match output.body {
        FunctionCallOutputBodyView::Text(text) => text::byte_len(text),
        FunctionCallOutputBodyView::ContentItems(items) => text::total(
            items.map_values(|part: FunctionCallOutputContentItemView| output_item_bytes(part)),
        ),
    }
}

pub open spec fn optional_bytes(s: Option<Seq<char>>) -> nat {
    match s {
        Some(s) => text::byte_len(s),
        None => 0,
    }
}

/// The bytes of an item that the model gets to see.
pub open spec fn item_bytes(item: ResponseItemView) -> nat {
    match item {
        ResponseItemView::Message { role, content, .. } => text::byte_len(role) + text::total(
            content.map_values(|part: ContentItemView| content_item_bytes(part)),
        ),
        ResponseItemView::AgentMessage { author, recipient, content, .. } => text::byte_len(author)
            + text::byte_len(recipient) + text::total(
            content.map_values(|part: AgentMessageInputContentView| agent_content_bytes(part)),
        ),
        ResponseItemView::FunctionCall { name, arguments, .. } => text::byte_len(name)
            + text::byte_len(arguments),
        ResponseItemView::CustomToolCall { name, input, .. } => text::byte_len(name)
            + text::byte_len(input),
        ResponseItemView::FunctionCallOutput { output, .. } => payload_bytes(output),
        ResponseItemView::CustomToolCallOutput { output, .. } => payload_bytes(output),
        ResponseItemView::Reasoning { summary, content, encrypted_content, .. } => text::total(
            summary.map_values(|part: ReasoningSummaryView| summary_bytes(part)),
        ) + (match content {
            Some(content) => text::total(
                content.map_values(|part: ReasoningItemContentView| reasoning_bytes(part)),
            ),
            None => 0,
        }) + optional_bytes(encrypted_content),
        ResponseItemView::Other { .. } => 0,
    }
}

/// The estimated tokens of an item of the history.
pub open spec fn item_tokens(envelope: ResponseItemEnvelopeView) -> nat {
    approx_tokens(text::capped(item_bytes(envelope.item)))
}

/// The bytes of the parts of a message.
fn content_bytes_of(parts: &Vec<ContentItem>) -> (bytes: usize)
    ensures
        bytes == text::capped(
            text::total(parts.deep_view().map_values(|part: ContentItemView| content_item_bytes(part))),
        ),
{
    let mut bytes: usize = 0;
    let mut i: usize = 0;
    let ghost sizes = parts.deep_view().map_values(|part: ContentItemView| content_item_bytes(part));
    while i < parts.len()
        invariant
            i <= parts@.len(),
            sizes == parts.deep_view().map_values(|part: ContentItemView| content_item_bytes(part)),
            bytes == text::capped(text::total(sizes.take(i as int))),
        decreases parts@.len() - i,
    {
        let size: usize = match &parts[i] {
            ContentItem::InputText { text } => text::text_bytes(text),
            ContentItem::OutputText { text } => text::text_bytes(text),
            ContentItem::InputImage { image_url, .. } => text::text_bytes(image_url),
            ContentItem::InputAudio { audio_url } => text::text_bytes(audio_url),
        };
        proof {
            assert(size == sizes[i as int]);
            assert(sizes.take(i + 1) == sizes.take(i as int).push(sizes[i as int]));
            text::lemma_total_push(sizes.take(i as int), sizes[i as int]);
        }
        bytes = bytes.saturating_add(size);
        i = i + 1;
    }
    assert(sizes.take(i as int) == sizes);
    bytes
}

/// The bytes of the parts of a message between agents.
fn agent_bytes_of(parts: &Vec<AgentMessageInputContent>) -> (bytes: usize)
    ensures
        bytes == text::capped(
            text::total(parts.deep_view().map_values(|part: AgentMessageInputContentView| agent_content_bytes(part))),
        ),
{
    let mut bytes: usize = 0;
    let mut i: usize = 0;
    let ghost sizes = parts.deep_view().map_values(|part: AgentMessageInputContentView| agent_content_bytes(part));
    while i < parts.len()
        invariant
            i <= parts@.len(),
            sizes == parts.deep_view().map_values(|part: AgentMessageInputContentView| agent_content_bytes(part)),
            bytes == text::capped(text::total(sizes.take(i as int))),
        decreases parts@.len() - i,
    {
        let size: usize = match &parts[i] {
            AgentMessageInputContent::InputText { text } => text::text_bytes(text),
            AgentMessageInputContent::EncryptedContent { encrypted_content } => text::text_bytes(
                encrypted_content,
            ),
        };
        proof {
            assert(size == sizes[i as int]);
            assert(sizes.take(i + 1) == sizes.take(i as int).push(sizes[i as int]));
            text::lemma_total_push(sizes.take(i as int), sizes[i as int]);
        }
        bytes = bytes.saturating_add(size);
        i = i + 1;
    }
    assert(sizes.take(i as int) == sizes);
    bytes
}

/// The bytes of a reasoning summary.
fn summary_bytes_of(parts: &Vec<ReasoningSummary>) -> (bytes: usize)
    ensures
        bytes == text::capped(
            text::total(parts.deep_view().map_values(|part: ReasoningSummaryView| summary_bytes(part))),
        ),
{
    let mut bytes: usize = 0;
    let mut i: usize = 0;
    let ghost sizes = parts.deep_view().map_values(|part: ReasoningSummaryView| summary_bytes(part));
    while i < parts.len()
        invariant
            i <= parts@.len(),
            sizes == parts.deep_view().map_values(|part: ReasoningSummaryView| summary_bytes(part)),
            bytes == text::capped(text::total(sizes.take(i as int))),
        decreases parts@.len() - i,
    {
        let size: usize = match &parts[i] {
            ReasoningSummary::SummaryText { text } => text::text_bytes(text),
        };
        proof {
            assert(size == sizes[i as int]);
            assert(sizes.take(i + 1) == sizes.take(i as int).push(sizes[i as int]));
            text::lemma_total_push(sizes.take(i as int), sizes[i as int]);
        }
        bytes = bytes.saturating_add(size);
        i = i + 1;
    }
    assert(sizes.take(i as int) == sizes);
    bytes
}

/// The bytes of a reasoning block.
fn reasoning_bytes_of(parts: &Vec<ReasoningItemContent>) -> (bytes: usize)
    ensures
        bytes == text::capped(
            text::total(parts.deep_view().map_values(|part: ReasoningItemContentView| reasoning_bytes(part))),
        ),
{
    let mut bytes: usize = 0;
    let mut i: usize = 0;
    let ghost sizes = parts.deep_view().map_values(|part: ReasoningItemContentView| reasoning_bytes(part));
    while i < parts.len()
        invariant
            i <= parts@.len(),
            sizes == parts.deep_view().map_values(|part: ReasoningItemContentView| reasoning_bytes(part)),
            bytes == text::capped(text::total(sizes.take(i as int))),
        decreases parts@.len() - i,
    {
        let size: usize = match &parts[i] {
            ReasoningItemContent::ReasoningText { text } => text::text_bytes(text),
            ReasoningItemContent::Text { text } => text::text_bytes(text),
        };
        proof {
            assert(size == sizes[i as int]);
            assert(sizes.take(i + 1) == sizes.take(i as int).push(sizes[i as int]));
            text::lemma_total_push(sizes.take(i as int), sizes[i as int]);
        }
        bytes = bytes.saturating_add(size);
        i = i + 1;
    }
    assert(sizes.take(i as int) == sizes);
    bytes
}

/// The bytes of the parts of a tool output.
fn output_bytes_of(parts: &Vec<FunctionCallOutputContentItem>) -> (bytes: usize)
    ensures
        bytes == text::capped(
            text::total(parts.deep_view().map_values(|part: FunctionCallOutputContentItemView| output_item_bytes(part))),
        ),
{
    let mut bytes: usize = 0;
    let mut i: usize = 0;
    let ghost sizes = parts.deep_view().map_values(|part: FunctionCallOutputContentItemView| output_item_bytes(part));
    while i < parts.len()
        invariant
            i <= parts@.len(),
            sizes == parts.deep_view().map_values(|part: FunctionCallOutputContentItemView| output_item_bytes(part)),
            bytes == text::capped(text::total(sizes.take(i as int))),
        decreases parts@.len() - i,
    {
        let size: usize = match &parts[i] {
            FunctionCallOutputContentItem::InputText { text } => text::text_bytes(text),
            FunctionCallOutputContentItem::InputImage { image_url, .. } => text::text_bytes(
                image_url,
            ),
            FunctionCallOutputContentItem::InputAudio { audio_url } => text::text_bytes(audio_url),
            FunctionCallOutputContentItem::EncryptedContent {
                encrypted_content,
            } => text::text_bytes(encrypted_content),
        };
        proof {
            assert(size == sizes[i as int]);
            assert(sizes.take(i + 1) == sizes.take(i as int).push(sizes[i as int]));
            text::lemma_total_push(sizes.take(i as int), sizes[i as int]);
        }
        bytes = bytes.saturating_add(size);
        i = i + 1;
    }
    assert(sizes.take(i as int) == sizes);
    bytes
}

/// The bytes of a tool output.
pub fn payload_text_bytes(output: &FunctionCallOutputPayload) -> (bytes: usize)
    ensures
        bytes == text::capped(payload_bytes(output.deep_view())),
{
    match &output.body {
        FunctionCallOutputBody::Text(text) => text::text_bytes(text),
        FunctionCallOutputBody::ContentItems(items) => output_bytes_of(items),
    }
}

/// The bytes of an item that the model gets to see.
pub fn item_model_visible_bytes(item: &ResponseItem) -> (bytes: usize)
    ensures
        bytes == text::capped(item_bytes(item.deep_view())),
{
    match item {
        ResponseItem::Message { role, content, .. } => text::text_bytes(role).saturating_add(
            content_bytes_of(content),
        ),
        ResponseItem::AgentMessage { author, recipient, content, .. } => text::text_bytes(
            author,
        ).saturating_add(text::text_bytes(recipient)).saturating_add(agent_bytes_of(content)),
        ResponseItem::FunctionCall { name, arguments, .. } => text::text_bytes(
            name,
        ).saturating_add(text::text_bytes(arguments)),
        ResponseItem::CustomToolCall { name, input, .. } => text::text_bytes(name).saturating_add(
            text::text_bytes(input),
        ),
        ResponseItem::FunctionCallOutput { output, .. } => payload_text_bytes(output),
        ResponseItem::CustomToolCallOutput { output, .. } => payload_text_bytes(output),
        ResponseItem::Reasoning { summary, content, encrypted_content, .. } => {
            let summary_size: usize = summary_bytes_of(summary);
            let content_size: usize = match content {
                Some(content) => reasoning_bytes_of(content),
                None => 0,
            };
            let encrypted_size: usize = match encrypted_content {
                Some(encrypted) => text::text_bytes(encrypted),
                None => 0,
            };
            summary_size.saturating_add(content_size).saturating_add(encrypted_size)
        },
        ResponseItem::Other { .. } => 0,
    }
}

/// The estimated tokens of an item of the history.
pub fn envelope_tokens(envelope: &ResponseItemEnvelope) -> (tokens: usize)
    ensures
        tokens == item_tokens(envelope.deep_view()),
{
    approx_tokens_from_byte_count(item_model_visible_bytes(&envelope.item))
}

/// The size of a message between agents is that of its two names and of all that
/// its parts hold: each further part adds its text, readable or not.
pub proof fn law_messages_between_agents_are_as_large_as_their_parts(
    message: ResponseItemView,
    longer: ResponseItemView,
    part: AgentMessageInputContentView,
)
    requires
        message is AgentMessage,
        longer is AgentMessage,
        longer->AgentMessage_author == message->AgentMessage_author,
        longer->AgentMessage_recipient == message->AgentMessage_recipient,
        longer->AgentMessage_content == message->AgentMessage_content.push(part),
    ensures
        item_bytes(longer) == item_bytes(message) + text::byte_len(
            match part {
                AgentMessageInputContentView::InputText { text } => text,
                AgentMessageInputContentView::EncryptedContent { encrypted_content } =>
                    encrypted_content,
            },
        ),
        message->AgentMessage_content.len() == 0 ==> item_bytes(message) == text::byte_len(
            message->AgentMessage_author,
        ) + text::byte_len(message->AgentMessage_recipient),
{
    let size = |part: AgentMessageInputContentView| agent_content_bytes(part);
    let content = message->AgentMessage_content;
    assert(content.push(part).map_values(size) =~= content.map_values(size).push(size(part)));
    text::lemma_total_push(content.map_values(size), size(part));
}

/// The size of a reasoning block is that of its summary, of its text and of its
/// encrypted text: each further piece adds its bytes, and what is missing adds
/// nothing.
pub proof fn law_reasoning_is_as_large_as_its_pieces(
    block: ResponseItemView,
    summarized: ResponseItemView,
    spelled_out: ResponseItemView,
    bare: ResponseItemView,
    summary: Seq<char>,
    piece: ReasoningItemContentView,
)
    requires
        block is Reasoning && summarized is Reasoning && spelled_out is Reasoning
            && bare is Reasoning,
        summarized->Reasoning_summary == block->Reasoning_summary.push(
            ReasoningSummaryView::SummaryText { text: summary },
        ),
        summarized->Reasoning_content == block->Reasoning_content,
        summarized->Reasoning_encrypted_content == block->Reasoning_encrypted_content,
        spelled_out->Reasoning_summary == block->Reasoning_summary,
        spelled_out->Reasoning_content == Some(
            (match block->Reasoning_content {
                Some(content) => content,
                None => Seq::empty(),
            }).push(piece),
        ),
        spelled_out->Reasoning_encrypted_content == block->Reasoning_encrypted_content,
        bare->Reasoning_summary.len() == 0,
        bare->Reasoning_content is None,
    ensures
        item_bytes(summarized) == item_bytes(block) + text::byte_len(summary),
        item_bytes(spelled_out) == item_bytes(block) + text::byte_len(
            match piece {
                ReasoningItemContentView::ReasoningText { text } => text,
                ReasoningItemContentView::Text { text } => text,
            },
        ),
        item_bytes(bare) == (match bare->Reasoning_encrypted_content {
            Some(encrypted) => text::byte_len(encrypted),
            None => 0,
        }),
{
    let told = |part: ReasoningSummaryView| summary_bytes(part);
    let spelled = |part: ReasoningItemContentView| reasoning_bytes(part);
    let first = ReasoningSummaryView::SummaryText { text: summary };
    let summaries = block->Reasoning_summary;
    let content = match block->Reasoning_content {
        Some(content) => content,
        None => Seq::empty(),
    };
    assert(summaries.push(first).map_values(told) =~= summaries.map_values(told).push(told(first)));
    text::lemma_total_push(summaries.map_values(told), told(first));
    assert(content.push(piece).map_values(spelled) =~= content.map_values(spelled).push(
        spelled(piece),
    ));
    text::lemma_total_push(content.map_values(spelled), spelled(piece));
    assert(Seq::<ReasoningItemContentView>::empty().map_values(spelled).len() == 0);
    assert(bare->Reasoning_summary.map_values(told).len() == 0);
}

/// An item counts a token for every four bytes that are begun. What is none of
/// the known kinds counts nothing.
pub proof fn law_items_count_four_bytes_a_token(envelope: ResponseItemEnvelopeView)
    requires
        item_bytes(envelope.item) <= usize::MAX,
    ensures
        4 * item_tokens(envelope) >= item_bytes(envelope.item),
        4 * item_tokens(envelope) < item_bytes(envelope.item) + 4,
        envelope.item is Other ==> item_tokens(envelope) == 0,
{
}

} // verus!
