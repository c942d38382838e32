//! The conversation history that a shake works on.
//!
//! An item of the history is one message, tool call, tool output or reasoning
//! block. The `..View` types are the mathematical values of the items: the same
//! shape, with every text as a sequence of characters.

use vstd::prelude::*;

verus! {

/// The level of detail that an image was sent with.
#[derive(Clone, Copy, Debug, PartialEq, Eq, Structural)]
pub enum ImageDetail {
    Auto,
    Low,
    High,
    Original,
}

/// One part of a message.
#[derive(Debug, PartialEq, Eq)]
pub enum ContentItem {
    /// Text that the user or the harness wrote.
    InputText { text: String },
    /// Text that the model wrote.
    OutputText { text: String },
    /// An image.
    InputImage { image_url: String, detail: Option<ImageDetail> },
    /// A sound clip.
    InputAudio { audio_url: String },
}

/// The value of a [`ContentItem`].
pub enum ContentItemView {
    InputText { text: Seq<char> },
    OutputText { text: Seq<char> },
    InputImage { image_url: Seq<char>, detail: Option<ImageDetail> },
    InputAudio { audio_url: Seq<char> },
}

impl DeepView for ContentItem {
    type V = ContentItemView;

    open spec fn deep_view(&self) -> ContentItemView {
        match self {
            ContentItem::InputText { text } => ContentItemView::InputText {
                text: text.deep_view(),
            },
            ContentItem::OutputText { text } => ContentItemView::OutputText {
                text: text.deep_view(),
            },
            ContentItem::InputImage { image_url, detail } => ContentItemView::InputImage {
                image_url: image_url.deep_view(),
                detail: *detail,
            },
            ContentItem::InputAudio { audio_url } => ContentItemView::InputAudio {
                audio_url: audio_url.deep_view(),
            },
        }
    }
}

impl ContentItem {
    /// A copy with the same value.
    pub fn duplicate(&self) -> (copy: Self)
        ensures
            copy.deep_view() == self.deep_view(),
    {
        match self {
            ContentItem::InputText { text } => ContentItem::InputText {
                text: text.clone(),
            },
            ContentItem::OutputText { text } => ContentItem::OutputText {
                text: text.clone(),
            },
            ContentItem::InputImage { image_url, detail } => ContentItem::InputImage {
                image_url: image_url.clone(),
                detail: *detail,
            },
            ContentItem::InputAudio { audio_url } => ContentItem::InputAudio {
                audio_url: audio_url.clone(),
            },
        }
    }
}

/// One part of a message between agents.
#[derive(Debug, PartialEq, Eq)]
pub enum AgentMessageInputContent {
    /// Readable text.
    InputText { text: String },
    /// Text that only the provider can read.
    EncryptedContent { encrypted_content: String },
}

/// The value of a [`AgentMessageInputContent`].
pub enum AgentMessageInputContentView {
    InputText { text: Seq<char> },
    EncryptedContent { encrypted_content: Seq<char> },
}

impl DeepView for AgentMessageInputContent {
    type V = AgentMessageInputContentView;

    open spec fn deep_view(&self) -> AgentMessageInputContentView {
        match self {
            AgentMessageInputContent::InputText {
                text,
            } => AgentMessageInputContentView::InputText {
                text: text.deep_view(),
            },
            AgentMessageInputContent::EncryptedContent {
                encrypted_content,
            } => AgentMessageInputContentView::EncryptedContent {
                encrypted_content: encrypted_content.deep_view(),
            },
        }
    }
}

impl AgentMessageInputContent {
    /// A copy with the same value.
    pub fn duplicate(&self) -> (copy: Self)
        ensures
            copy.deep_view() == self.deep_view(),
    {
        match self {
            AgentMessageInputContent::InputText { text } => AgentMessageInputContent::InputText {
                text: text.clone(),
            },
            AgentMessageInputContent::EncryptedContent {
                encrypted_content,
            } => AgentMessageInputContent::EncryptedContent {
                encrypted_content: encrypted_content.clone(),
            },
        }
    }
}

/// One part of a reasoning summary.
#[derive(Debug, PartialEq, Eq)]
pub enum ReasoningSummary {
    /// Readable text.
    SummaryText { text: String },
}

/// The value of a [`ReasoningSummary`].
pub enum ReasoningSummaryView {
    SummaryText { text: Seq<char> },
}

impl DeepView for ReasoningSummary {
    type V = ReasoningSummaryView;

    open spec fn deep_view(&self) -> ReasoningSummaryView {
        match self {
            ReasoningSummary::SummaryText { text } => ReasoningSummaryView::SummaryText {
                text: text.deep_view(),
            },
        }
    }
}

impl ReasoningSummary {
    /// A copy with the same value.
    pub fn duplicate(&self) -> (copy: Self)
        ensures
            copy.deep_view() == self.deep_view(),
    {
        match self {
            ReasoningSummary::SummaryText { text } => ReasoningSummary::SummaryText {
                text: text.clone(),
            },
        }
    }
}

/// One part of a reasoning block.
#[derive(Debug, PartialEq, Eq)]
pub enum ReasoningItemContent {
    /// Reasoning in full.
    ReasoningText { text: String },
    /// Other text.
    Text { text: String },
}

/// The value of a [`ReasoningItemContent`].
pub enum ReasoningItemContentView {
    ReasoningText { text: Seq<char> },
    Text { text: Seq<char> },
}

impl DeepView for ReasoningItemContent {
    type V = ReasoningItemContentView;

    open spec fn deep_view(&self) -> ReasoningItemContentView {
        match self {
            ReasoningItemContent::ReasoningText {
                text,
            } => ReasoningItemContentView::ReasoningText {
                text: text.deep_view(),
            },
            ReasoningItemContent::Text { text } => ReasoningItemContentView::Text {
                text: text.deep_view(),
            },
        }
    }
}

impl ReasoningItemContent {
    /// A copy with the same value.
    pub fn duplicate(&self) -> (copy: Self)
        ensures
            copy.deep_view() == self.deep_view(),
    {
        match self {
            ReasoningItemContent::ReasoningText { text } => ReasoningItemContent::ReasoningText {
                text: text.clone(),
            },
            ReasoningItemContent::Text { text } => ReasoningItemContent::Text {
                text: text.clone(),
            },
        }
    }
}

/// One part of a tool output.
#[derive(Debug, PartialEq, Eq)]
pub enum FunctionCallOutputContentItem {
    /// Text.
    InputText { text: String },
    /// An image.
    InputImage { image_url: String, detail: Option<ImageDetail> },
    /// A sound clip.
    InputAudio { audio_url: String },
    /// Text that only the provider can read.
    EncryptedContent { encrypted_content: String },
}

/// The value of a [`FunctionCallOutputContentItem`].
pub enum FunctionCallOutputContentItemView {
    InputText { text: Seq<char> },
    InputImage { image_url: Seq<char>, detail: Option<ImageDetail> },
    InputAudio { audio_url: Seq<char> },
    EncryptedContent { encrypted_content: Seq<char> },
}

impl DeepView for FunctionCallOutputContentItem {
    type V = FunctionCallOutputContentItemView;

    open spec fn deep_view(&self) -> FunctionCallOutputContentItemView {
        match self {
            FunctionCallOutputContentItem::InputText {
                text,
            } => FunctionCallOutputContentItemView::InputText {
                text: text.deep_view(),
            },
            FunctionCallOutputContentItem::InputImage {
                image_url,
                detail,
            } => FunctionCallOutputContentItemView::InputImage {
                image_url: image_url.deep_view(),
                detail: *detail,
            },
            FunctionCallOutputContentItem::InputAudio {
                audio_url,
            } => FunctionCallOutputContentItemView::InputAudio {
                audio_url: audio_url.deep_view(),
            },
            FunctionCallOutputContentItem::EncryptedContent {
                encrypted_content,
            } => FunctionCallOutputContentItemView::EncryptedContent {
                encrypted_content: encrypted_content.deep_view(),
            },
        }
    }
}

impl FunctionCallOutputContentItem {
    /// A copy with the same value.
    pub fn duplicate(&self) -> (copy: Self)
        ensures
            copy.deep_view() == self.deep_view(),
    {
        match self {
            FunctionCallOutputContentItem::InputText {
                text,
            } => FunctionCallOutputContentItem::InputText {
                text: text.clone(),
            },
            FunctionCallOutputContentItem::InputImage {
                image_url,
                detail,
            } => FunctionCallOutputContentItem::InputImage {
                image_url: image_url.clone(),
                detail: *detail,
            },
            FunctionCallOutputContentItem::InputAudio {
                audio_url,
            } => FunctionCallOutputContentItem::InputAudio {
                audio_url: audio_url.clone(),
            },
            FunctionCallOutputContentItem::EncryptedContent {
                encrypted_content,
            } => FunctionCallOutputContentItem::EncryptedContent {
                encrypted_content: encrypted_content.clone(),
            },
        }
    }
}

/// What a tool handed back.
#[derive(Debug, PartialEq, Eq)]
pub enum FunctionCallOutputBody {
    /// Plain text.
    Text(String),
    /// A list of parts.
    ContentItems(Vec<FunctionCallOutputContentItem>),
}

/// The value of a [`FunctionCallOutputBody`].
pub enum FunctionCallOutputBodyView {
    Text(Seq<char>),
    ContentItems(Seq<FunctionCallOutputContentItemView>),
}

impl DeepView for FunctionCallOutputBody {
    type V = FunctionCallOutputBodyView;

    open spec fn deep_view(&self) -> FunctionCallOutputBodyView {
        match self {
            FunctionCallOutputBody::Text(inner) => FunctionCallOutputBodyView::Text(inner.deep_view()),
            FunctionCallOutputBody::ContentItems(inner) => FunctionCallOutputBodyView::ContentItems(inner.deep_view()),
        }
    }
}

impl FunctionCallOutputBody {
    /// A copy with the same value.
    pub fn duplicate(&self) -> (copy: Self)
        ensures
            copy.deep_view() == self.deep_view(),
    {
        match self {
            FunctionCallOutputBody::Text(inner) => FunctionCallOutputBody::Text(inner.clone()),
            FunctionCallOutputBody::ContentItems(inner) => FunctionCallOutputBody::ContentItems(clone_output_items(inner)),
        }
    }
}

/// A tool output.
#[derive(Debug, PartialEq, Eq)]
pub struct FunctionCallOutputPayload {
    pub body: FunctionCallOutputBody,
    pub success: Option<bool>,
}

/// The value of a [`FunctionCallOutputPayload`].
pub struct FunctionCallOutputPayloadView {
    pub body: FunctionCallOutputBodyView,
    pub success: Option<bool>,
}

impl DeepView for FunctionCallOutputPayload {
    type V = FunctionCallOutputPayloadView;

    open spec fn deep_view(&self) -> FunctionCallOutputPayloadView {
        FunctionCallOutputPayloadView {
            body: self.body.deep_view(),
            success: self.success,
        }
    }
}

impl FunctionCallOutputPayload {
    /// A copy with the same value.
    pub fn duplicate(&self) -> (copy: Self)
        ensures
            copy.deep_view() == self.deep_view(),
    {
        FunctionCallOutputPayload {
            body: self.body.duplicate(),
            success: self.success,
        }
    }
}

/// What the harness notes on a message for itself.
#[derive(Debug, PartialEq, Eq)]
pub struct InternalChatMessageMetadataPassthrough {
    pub content_item_kinds: Option<Vec<String>>,
}

/// The value of a [`InternalChatMessageMetadataPassthrough`].
pub struct InternalChatMessageMetadataPassthroughView {
    pub content_item_kinds: Option<Seq<Seq<char>>>,
}

impl DeepView for InternalChatMessageMetadataPassthrough {
    type V = InternalChatMessageMetadataPassthroughView;

    open spec fn deep_view(&self) -> InternalChatMessageMetadataPassthroughView {
        InternalChatMessageMetadataPassthroughView {
            content_item_kinds: self.content_item_kinds.deep_view(),
        }
    }
}

impl InternalChatMessageMetadataPassthrough {
    /// A copy with the same value.
    pub fn duplicate(&self) -> (copy: Self)
        ensures
            copy.deep_view() == self.deep_view(),
    {
        InternalChatMessageMetadataPassthrough {
            content_item_kinds: clone_string_option(&self.content_item_kinds),
        }
    }
}

/// One item of the history.
#[allow(inconsistent_fields)]
#[derive(Debug, PartialEq, Eq)]
pub enum ResponseItem {
    /// A message of a role.
    Message {
        id: Option<String>,
        role: String,
        content: Vec<ContentItem>,
        phase: Option<String>,
        internal_chat_message_metadata_passthrough: Option<InternalChatMessageMetadataPassthrough>,
    },
    /// A message from one agent to another.
    AgentMessage {
        id: Option<String>,
        author: String,
        recipient: String,
        content: Vec<AgentMessageInputContent>,
        internal_chat_message_metadata_passthrough: Option<InternalChatMessageMetadataPassthrough>,
    },
    /// A reasoning block.
    Reasoning {
        id: Option<String>,
        summary: Vec<ReasoningSummary>,
        content: Option<Vec<ReasoningItemContent>>,
        encrypted_content: Option<String>,
        internal_chat_message_metadata_passthrough: Option<InternalChatMessageMetadataPassthrough>,
    },
    /// A call of a function tool.
    FunctionCall {
        id: Option<String>,
        name: String,
        namespace: Option<String>,
        arguments: String,
        encrypted_function_args: Option<String>,
        call_id: String,
        internal_chat_message_metadata_passthrough: Option<InternalChatMessageMetadataPassthrough>,
    },
    /// The output of a function tool.
    FunctionCallOutput {
        id: Option<String>,
        call_id: Option<String>,
        name: Option<String>,
        namespace: Option<String>,
        output: FunctionCallOutputPayload,
        internal_chat_message_metadata_passthrough: Option<InternalChatMessageMetadataPassthrough>,
    },
    /// A call of a free-form tool.
    CustomToolCall {
        id: Option<String>,
        status: Option<String>,
        call_id: String,
        name: String,
        namespace: Option<String>,
        input: String,
        internal_chat_message_metadata_passthrough: Option<InternalChatMessageMetadataPassthrough>,
    },
    /// The output of a free-form tool.
    CustomToolCallOutput {
        id: Option<String>,
        call_id: String,
        name: Option<String>,
        output: FunctionCallOutputPayload,
        internal_chat_message_metadata_passthrough: Option<InternalChatMessageMetadataPassthrough>,
    },
    /// An item that no shake looks into, in its serialized form.
    Other { payload: String },
}

/// The value of a [`ResponseItem`].
#[allow(inconsistent_fields)]
pub enum ResponseItemView {
    Message {
        id: Option<Seq<char>>,
        role: Seq<char>,
        content: Seq<ContentItemView>,
        phase: Option<Seq<char>>,
        internal_chat_message_metadata_passthrough: Option<InternalChatMessageMetadataPassthroughView>,
    },
    AgentMessage {
        id: Option<Seq<char>>,
        author: Seq<char>,
        recipient: Seq<char>,
        content: Seq<AgentMessageInputContentView>,
        internal_chat_message_metadata_passthrough: Option<InternalChatMessageMetadataPassthroughView>,
    },
    Reasoning {
        id: Option<Seq<char>>,
        summary: Seq<ReasoningSummaryView>,
        content: Option<Seq<ReasoningItemContentView>>,
        encrypted_content: Option<Seq<char>>,
        internal_chat_message_metadata_passthrough: Option<InternalChatMessageMetadataPassthroughView>,
    },
    FunctionCall {
        id: Option<Seq<char>>,
        name: Seq<char>,
        namespace: Option<Seq<char>>,
        arguments: Seq<char>,
        encrypted_function_args: Option<Seq<char>>,
        call_id: Seq<char>,
        internal_chat_message_metadata_passthrough: Option<InternalChatMessageMetadataPassthroughView>,
    },
    FunctionCallOutput {
        id: Option<Seq<char>>,
        call_id: Option<Seq<char>>,
        name: Option<Seq<char>>,
        namespace: Option<Seq<char>>,
        output: FunctionCallOutputPayloadView,
        internal_chat_message_metadata_passthrough: Option<InternalChatMessageMetadataPassthroughView>,
    },
    CustomToolCall {
        id: Option<Seq<char>>,
        status: Option<Seq<char>>,
        call_id: Seq<char>,
        name: Seq<char>,
        namespace: Option<Seq<char>>,
        input: Seq<char>,
        internal_chat_message_metadata_passthrough: Option<InternalChatMessageMetadataPassthroughView>,
    },
    CustomToolCallOutput {
        id: Option<Seq<char>>,
        call_id: Seq<char>,
        name: Option<Seq<char>>,
        output: FunctionCallOutputPayloadView,
        internal_chat_message_metadata_passthrough: Option<InternalChatMessageMetadataPassthroughView>,
    },
    Other { payload: Seq<char> },
}

impl DeepView for ResponseItem {
    type V = ResponseItemView;

    open spec fn deep_view(&self) -> ResponseItemView {
        match self {
            ResponseItem::Message {
                id,
                role,
                content,
                phase,
                internal_chat_message_metadata_passthrough,
            } => ResponseItemView::Message {
                id: id.deep_view(),
                role: role.deep_view(),
                content: content.deep_view(),
                phase: phase.deep_view(),
                internal_chat_message_metadata_passthrough: internal_chat_message_metadata_passthrough.deep_view(),
            },
            ResponseItem::AgentMessage {
                id,
                author,
                recipient,
                content,
                internal_chat_message_metadata_passthrough,
            } => ResponseItemView::AgentMessage {
                id: id.deep_view(),
                author: author.deep_view(),
                recipient: recipient.deep_view(),
                content: content.deep_view(),
                internal_chat_message_metadata_passthrough: internal_chat_message_metadata_passthrough.deep_view(),
            },
            ResponseItem::Reasoning {
                id,
                summary,
                content,
                encrypted_content,
                internal_chat_message_metadata_passthrough,
            } => ResponseItemView::Reasoning {
                id: id.deep_view(),
                summary: summary.deep_view(),
                content: content.deep_view(),
                encrypted_content: encrypted_content.deep_view(),
                internal_chat_message_metadata_passthrough: internal_chat_message_metadata_passthrough.deep_view(),
            },
            ResponseItem::FunctionCall {
                id,
                name,
                namespace,
                arguments,
                encrypted_function_args,
                call_id,
                internal_chat_message_metadata_passthrough,
            } => ResponseItemView::FunctionCall {
                id: id.deep_view(),
                name: name.deep_view(),
                namespace: namespace.deep_view(),
                arguments: arguments.deep_view(),
                encrypted_function_args: encrypted_function_args.deep_view(),
                call_id: call_id.deep_view(),
                internal_chat_message_metadata_passthrough: internal_chat_message_metadata_passthrough.deep_view(),
            },
            ResponseItem::FunctionCallOutput {
                id,
                call_id,
                name,
                namespace,
                output,
                internal_chat_message_metadata_passthrough,
            } => ResponseItemView::FunctionCallOutput {
                id: id.deep_view(),
                call_id: call_id.deep_view(),
                name: name.deep_view(),
                namespace: namespace.deep_view(),
                output: output.deep_view(),
                internal_chat_message_metadata_passthrough: internal_chat_message_metadata_passthrough.deep_view(),
            },
            ResponseItem::CustomToolCall {
                id,
                status,
                call_id,
                name,
                namespace,
                input,
                internal_chat_message_metadata_passthrough,
            } => ResponseItemView::CustomToolCall {
                id: id.deep_view(),
                status: status.deep_view(),
                call_id: call_id.deep_view(),
                name: name.deep_view(),
                namespace: namespace.deep_view(),
                input: input.deep_view(),
                internal_chat_message_metadata_passthrough: internal_chat_message_metadata_passthrough.deep_view(),
            },
            ResponseItem::CustomToolCallOutput {
                id,
                call_id,
                name,
                output,
                internal_chat_message_metadata_passthrough,
            } => ResponseItemView::CustomToolCallOutput {
                id: id.deep_view(),
                call_id: call_id.deep_view(),
                name: name.deep_view(),
                output: output.deep_view(),
                internal_chat_message_metadata_passthrough: internal_chat_message_metadata_passthrough.deep_view(),
            },
            ResponseItem::Other { payload } => ResponseItemView::Other {
                payload: payload.deep_view(),
            },
        }
    }
}

impl ResponseItem {
    /// A copy with the same value.
    pub fn duplicate(&self) -> (copy: Self)
        ensures
            copy.deep_view() == self.deep_view(),
    {
        match self {
            ResponseItem::Message {
                id,
                role,
                content,
                phase,
                internal_chat_message_metadata_passthrough,
            } => ResponseItem::Message {
                id: clone_optional(id),
                role: role.clone(),
                content: clone_content_item_list(content),
                phase: clone_optional(phase),
                internal_chat_message_metadata_passthrough: clone_passthrough(
                    internal_chat_message_metadata_passthrough,
                ),
            },
            ResponseItem::AgentMessage {
                id,
                author,
                recipient,
                content,
                internal_chat_message_metadata_passthrough,
            } => ResponseItem::AgentMessage {
                id: clone_optional(id),
                author: author.clone(),
                recipient: recipient.clone(),
                content: clone_agent_content(content),
                internal_chat_message_metadata_passthrough: clone_passthrough(
                    internal_chat_message_metadata_passthrough,
                ),
            },
            ResponseItem::Reasoning {
                id,
                summary,
                content,
                encrypted_content,
                internal_chat_message_metadata_passthrough,
            } => ResponseItem::Reasoning {
                id: clone_optional(id),
                summary: clone_reasoning_summary_list(summary),
                content: clone_reasoning_content(content),
                encrypted_content: clone_optional(encrypted_content),
                internal_chat_message_metadata_passthrough: clone_passthrough(
                    internal_chat_message_metadata_passthrough,
                ),
            },
            ResponseItem::FunctionCall {
                id,
                name,
                namespace,
                arguments,
                encrypted_function_args,
                call_id,
                internal_chat_message_metadata_passthrough,
            } => ResponseItem::FunctionCall {
                id: clone_optional(id),
                name: name.clone(),
                namespace: clone_optional(namespace),
                arguments: arguments.clone(),
                encrypted_function_args: clone_optional(encrypted_function_args),
                call_id: call_id.clone(),
                internal_chat_message_metadata_passthrough: clone_passthrough(
                    internal_chat_message_metadata_passthrough,
                ),
            },
            ResponseItem::FunctionCallOutput {
                id,
                call_id,
                name,
                namespace,
                output,
                internal_chat_message_metadata_passthrough,
            } => ResponseItem::FunctionCallOutput {
                id: clone_optional(id),
                call_id: clone_optional(call_id),
                name: clone_optional(name),
                namespace: clone_optional(namespace),
                output: output.duplicate(),
                internal_chat_message_metadata_passthrough: clone_passthrough(
                    internal_chat_message_metadata_passthrough,
                ),
            },
            ResponseItem::CustomToolCall {
                id,
                status,
                call_id,
                name,
                namespace,
                input,
                internal_chat_message_metadata_passthrough,
            } => ResponseItem::CustomToolCall {
                id: clone_optional(id),
                status: clone_optional(status),
                call_id: call_id.clone(),
                name: name.clone(),
                namespace: clone_optional(namespace),
                input: input.clone(),
                internal_chat_message_metadata_passthrough: clone_passthrough(
                    internal_chat_message_metadata_passthrough,
                ),
            },
            ResponseItem::CustomToolCallOutput {
                id,
                call_id,
                name,
                output,
                internal_chat_message_metadata_passthrough,
            } => ResponseItem::CustomToolCallOutput {
                id: clone_optional(id),
                call_id: call_id.clone(),
                name: clone_optional(name),
                output: output.duplicate(),
                internal_chat_message_metadata_passthrough: clone_passthrough(
                    internal_chat_message_metadata_passthrough,
                ),
            },
            ResponseItem::Other { payload } => ResponseItem::Other {
                payload: payload.clone(),
            },
        }
    }
}

/// What the harness keeps beside an item.
#[derive(Debug, PartialEq, Eq)]
pub struct CodexHarnessMetadata {
    pub smart_compact_artifact_path: Option<String>,
}

/// The value of a [`CodexHarnessMetadata`].
pub struct CodexHarnessMetadataView {
    pub smart_compact_artifact_path: Option<Seq<char>>,
}

impl DeepView for CodexHarnessMetadata {
    type V = CodexHarnessMetadataView;

    open spec fn deep_view(&self) -> CodexHarnessMetadataView {
        CodexHarnessMetadataView {
            smart_compact_artifact_path: self.smart_compact_artifact_path.deep_view(),
        }
    }
}

impl CodexHarnessMetadata {
    /// A copy with the same value.
    pub fn duplicate(&self) -> (copy: Self)
        ensures
            copy.deep_view() == self.deep_view(),
    {
        CodexHarnessMetadata {
            smart_compact_artifact_path: clone_optional(&self.smart_compact_artifact_path),
        }
    }
}

/// An item of the history with what the harness keeps beside it.
#[derive(Debug, PartialEq, Eq)]
pub struct ResponseItemEnvelope {
    pub item: ResponseItem,
    pub metadata: Option<CodexHarnessMetadata>,
}

/// The value of a [`ResponseItemEnvelope`].
pub struct ResponseItemEnvelopeView {
    pub item: ResponseItemView,
    pub metadata: Option<CodexHarnessMetadataView>,
}

impl DeepView for ResponseItemEnvelope {
    type V = ResponseItemEnvelopeView;

    open spec fn deep_view(&self) -> ResponseItemEnvelopeView {
        ResponseItemEnvelopeView {
            item: self.item.deep_view(),
            metadata: self.metadata.deep_view(),
        }
    }
}

impl ResponseItemEnvelope {
    /// A copy with the same value.
    pub fn duplicate(&self) -> (copy: Self)
        ensures
            copy.deep_view() == self.deep_view(),
    {
        ResponseItemEnvelope {
            item: self.item.duplicate(),
            metadata: clone_harness_metadata(&self.metadata),
        }
    }
}

/// A copy of an optional text.
pub fn clone_optional(value: &Option<String>) -> (copy: Option<String>)
    ensures
        copy.deep_view() == value.deep_view(),
{
    match value {
        Some(inner) => Some(inner.clone()),
        None => None,
    }
}

fn clone_output_items(items: &Vec<FunctionCallOutputContentItem>) -> (copy: Vec<FunctionCallOutputContentItem>)
    ensures
        copy.deep_view() == items.deep_view(),
{
    let mut copy: Vec<FunctionCallOutputContentItem> = Vec::new();
    let mut i: usize = 0;
    while i < items.len()
        invariant
            i <= items@.len(),
            copy.deep_view() == items.deep_view().take(i as int),
        decreases items@.len() - i,
    {
        copy.push(items[i].duplicate());
        i = i + 1;
        assert(copy.deep_view() == items.deep_view().take(i - 1).push(items.deep_view()[i - 1]));
        assert(items.deep_view().take(i as int) == items.deep_view().take(i - 1).push(items.deep_view()[i - 1]));
    }
    assert(items.deep_view().take(i as int) == items.deep_view());
    copy
}

fn clone_string_list(items: &Vec<String>) -> (copy: Vec<String>)
    ensures
        copy.deep_view() == items.deep_view(),
{
    let mut copy: Vec<String> = Vec::new();
    let mut i: usize = 0;
    while i < items.len()
        invariant
            i <= items@.len(),
            copy.deep_view() == items.deep_view().take(i as int),
        decreases items@.len() - i,
    {
        copy.push(items[i].clone());
        i = i + 1;
        assert(copy.deep_view() == items.deep_view().take(i - 1).push(items.deep_view()[i - 1]));
        assert(items.deep_view().take(i as int) == items.deep_view().take(i - 1).push(items.deep_view()[i - 1]));
    }
    assert(items.deep_view().take(i as int) == items.deep_view());
    copy
}

fn clone_content_item_list(items: &Vec<ContentItem>) -> (copy: Vec<ContentItem>)
    ensures
        copy.deep_view() == items.deep_view(),
{
    let mut copy: Vec<ContentItem> = Vec::new();
    let mut i: usize = 0;
    while i < items.len()
        invariant
            i <= items@.len(),
            copy.deep_view() == items.deep_view().take(i as int),
        decreases items@.len() - i,
    {
        copy.push(items[i].duplicate());
        i = i + 1;
        assert(copy.deep_view() == items.deep_view().take(i - 1).push(items.deep_view()[i - 1]));
        assert(items.deep_view().take(i as int) == items.deep_view().take(i - 1).push(items.deep_view()[i - 1]));
    }
    assert(items.deep_view().take(i as int) == items.deep_view());
    copy
}

fn clone_agent_content(items: &Vec<AgentMessageInputContent>) -> (copy: Vec<AgentMessageInputContent>)
    ensures
        copy.deep_view() == items.deep_view(),
{
    let mut copy: Vec<AgentMessageInputContent> = Vec::new();
    let mut i: usize = 0;
    while i < items.len()
        invariant
            i <= items@.len(),
            copy.deep_view() == items.deep_view().take(i as int),
        decreases items@.len() - i,
    {
        copy.push(items[i].duplicate());
        i = i + 1;
        assert(copy.deep_view() == items.deep_view().take(i - 1).push(items.deep_view()[i - 1]));
        assert(items.deep_view().take(i as int) == items.deep_view().take(i - 1).push(items.deep_view()[i - 1]));
    }
    assert(items.deep_view().take(i as int) == items.deep_view());
    copy
}

fn clone_reasoning_summary_list(items: &Vec<ReasoningSummary>) -> (copy: Vec<ReasoningSummary>)
    ensures
        copy.deep_view() == items.deep_view(),
{
    let mut copy: Vec<ReasoningSummary> = Vec::new();
    let mut i: usize = 0;
    while i < items.len()
        invariant
            i <= items@.len(),
            copy.deep_view() == items.deep_view().take(i as int),
        decreases items@.len() - i,
    {
        copy.push(items[i].duplicate());
        i = i + 1;
        assert(copy.deep_view() == items.deep_view().take(i - 1).push(items.deep_view()[i - 1]));
        assert(items.deep_view().take(i as int) == items.deep_view().take(i - 1).push(items.deep_view()[i - 1]));
    }
    assert(items.deep_view().take(i as int) == items.deep_view());
    copy
}

fn clone_reasoning_item_content_list(items: &Vec<ReasoningItemContent>) -> (copy: Vec<ReasoningItemContent>)
    ensures
        copy.deep_view() == items.deep_view(),
{
    let mut copy: Vec<ReasoningItemContent> = Vec::new();
    let mut i: usize = 0;
    while i < items.len()
        invariant
            i <= items@.len(),
            copy.deep_view() == items.deep_view().take(i as int),
        decreases items@.len() - i,
    {
        copy.push(items[i].duplicate());
        i = i + 1;
        assert(copy.deep_view() == items.deep_view().take(i - 1).push(items.deep_view()[i - 1]));
        assert(items.deep_view().take(i as int) == items.deep_view().take(i - 1).push(items.deep_view()[i - 1]));
    }
    assert(items.deep_view().take(i as int) == items.deep_view());
    copy
}

fn clone_string_option(value: &Option<Vec<String>>) -> (copy: Option<Vec<String>>)
    ensures
        copy.deep_view() == value.deep_view(),
{
    match value {
        Some(inner) => Some(clone_string_list(inner)),
        None => None,
    }
}

fn clone_reasoning_content(value: &Option<Vec<ReasoningItemContent>>) -> (copy: Option<Vec<ReasoningItemContent>>)
    ensures
        copy.deep_view() == value.deep_view(),
{
    match value {
        Some(inner) => Some(clone_reasoning_item_content_list(inner)),
        None => None,
    }
}

fn clone_passthrough(value: &Option<InternalChatMessageMetadataPassthrough>) -> (copy: Option<InternalChatMessageMetadataPassthrough>)
    ensures
        copy.deep_view() == value.deep_view(),
{
    match value {
        Some(inner) => Some(inner.duplicate()),
        None => None,
    }
}

fn clone_harness_metadata(value: &Option<CodexHarnessMetadata>) -> (copy: Option<CodexHarnessMetadata>)
    ensures
        copy.deep_view() == value.deep_view(),
{
    match value {
        Some(inner) => Some(inner.duplicate()),
        None => None,
    }
}

/// A copy of a whole history.
pub fn duplicate_history(items: &[ResponseItemEnvelope]) -> (copy: Vec<ResponseItemEnvelope>)
    ensures
        copy.deep_view() == items.deep_view(),
{
    let mut copy: Vec<ResponseItemEnvelope> = Vec::new();
    let mut i: usize = 0;
    while i < items.len()
        invariant
            i <= items@.len(),
            copy.deep_view() == items.deep_view().take(i as int),
        decreases items@.len() - i,
    {
        copy.push(items[i].duplicate());
        i = i + 1;
        assert(copy.deep_view() == items.deep_view().take(i - 1).push(items.deep_view()[i - 1]));
        assert(items.deep_view().take(i as int) == items.deep_view().take(i - 1).push(
            items.deep_view()[i - 1],
        ));
    }
    assert(items.deep_view().take(i as int) == items.deep_view());
    copy
}

impl FunctionCallOutputPayload {
    /// A tool output that is one text.
    pub fn from_text(content: String) -> (payload: Self)
        ensures
            payload.deep_view() == (FunctionCallOutputPayloadView {
                body: FunctionCallOutputBodyView::Text(content@),
                success: None,
            }),
    {
        FunctionCallOutputPayload { body: FunctionCallOutputBody::Text(content), success: None }
    }

    /// A tool output that is a list of parts.
    pub fn from_content_items(items: Vec<FunctionCallOutputContentItem>) -> (payload: Self)
        ensures
            payload.deep_view() == (FunctionCallOutputPayloadView {
                body: FunctionCallOutputBodyView::ContentItems(items.deep_view()),
                success: None,
            }),
    {
        FunctionCallOutputPayload {
            body: FunctionCallOutputBody::ContentItems(items),
            success: None,
        }
    }
}

impl ResponseItemEnvelope {
    /// An item with nothing kept beside it.
    pub fn new(item: ResponseItem) -> (envelope: Self)
        ensures
            envelope.deep_view() == (ResponseItemEnvelopeView {
                item: item.deep_view(),
                metadata: None,
            }),
    {
        ResponseItemEnvelope { item, metadata: None }
    }
}

} // verus!
