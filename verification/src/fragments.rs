//! Context that the harness writes into a conversation, between markers that
//! tell it from what a user wrote.

use vstd::prelude::*;
use vstd::string::*;

use crate::items::ContentItem;
use crate::items::ContentItemView;
use crate::items::InternalChatMessageMetadataPassthrough;
use crate::items::InternalChatMessageMetadataPassthroughView;
use crate::items::ResponseItem;
use crate::items::ResponseItemView;
use crate::text;

verus! {

/// The kind of the handoff of a smart compaction.
pub const HANDOFF_KIND: &'static str = "compaction.smart_handoff";

/// The kind of the source material of a smart compaction.
pub const SOURCE_KIND: &'static str = "compaction.smart_source";

/// The kind of a warning about a child agent.
pub const WARNING_KIND: &'static str = "multi_agent.context_reduction_warning";

/// The text of a handoff.
pub open spec fn handoff_text(body: Seq<char>) -> Seq<char> {
    "<codex_smart_compact_handoff>"@ + body + "</codex_smart_compact_handoff>"@
}

/// The text of a piece of source material.
pub open spec fn source_text(body: Seq<char>) -> Seq<char> {
    "<codex_smart_compact_source>"@ + body + "</codex_smart_compact_source>"@
}

/// A text that the markers of a handoff enclose.
pub open spec fn is_handoff_text(s: Seq<char>) -> bool {
    text::starts_with(s, "<codex_smart_compact_handoff>"@) && text::ends_with(
        s,
        "</codex_smart_compact_handoff>"@,
    )
}

/// The message that carries a fragment of a kind.
pub open spec fn fragment_item(kind: Seq<char>, content: Seq<char>) -> ResponseItemView {
    ResponseItemView::Message {
        id: None,
        role: "user"@,
        content: seq![ContentItemView::InputText { text: content }],
        phase: None,
        internal_chat_message_metadata_passthrough: Some(
            InternalChatMessageMetadataPassthroughView { content_item_kinds: Some(seq![kind]) },
        ),
    }
}

/// The message that carries a fragment of a kind.
pub fn message_of_fragment(kind: &str, content: String) -> (item: ResponseItem)
    ensures
        item.deep_view() == fragment_item(kind@, content@),
{
    let ghost view = content@;
    let mut parts: Vec<ContentItem> = Vec::new();
    parts.push(ContentItem::InputText { text: content });
    assert(parts.deep_view() == seq![ContentItemView::InputText { text: view }]);
    let mut kinds: Vec<String> = Vec::new();
    kinds.push(kind.to_owned());
    assert(kinds.deep_view() == seq![kind@]);
    ResponseItem::Message {
        id: None,
        role: "user".to_owned(),
        content: parts,
        phase: None,
        internal_chat_message_metadata_passthrough: Some(
            InternalChatMessageMetadataPassthrough { content_item_kinds: Some(kinds) },
        ),
    }
}

/// What a model wrote down for those who go on after a smart compaction.
#[derive(Debug, PartialEq, Eq)]
pub struct SmartCompactHandoff {
    /// The handoff itself. It is history, not a request.
    pub body: String,
    /// The file that holds the handoff in full.
    pub artifact_path: String,
}

impl SmartCompactHandoff {
    /// A handoff, and the file that holds it in full.
    pub fn new(body: String, artifact_path: String) -> (handoff: Self)
        ensures
            handoff.body == body,
            handoff.artifact_path == artifact_path,
    {
        SmartCompactHandoff { body, artifact_path }
    }

    /// The text that stands in the conversation.
    pub fn render(&self) -> (r: String)
        ensures
            r@ == handoff_text(self.body@),
    {
        let mut r = "<codex_smart_compact_handoff>".to_owned();
        r.append(self.body.as_str());
        r.append("</codex_smart_compact_handoff>");
        r
    }

    /// The message that carries the handoff.
    pub fn to_item(&self) -> (item: ResponseItem)
        ensures
            item.deep_view() == fragment_item(HANDOFF_KIND@, handoff_text(self.body@)),
    {
        message_of_fragment(HANDOFF_KIND, self.render())
    }
}

/// Whether the markers of a handoff enclose a text.
pub fn matches_handoff_text(content: &str) -> (r: bool)
    ensures
        r == is_handoff_text(content@),
{
    let chars = text::chars_of(content);
    text::has_prefix(chars.as_slice(), "<codex_smart_compact_handoff>") && text::has_suffix(
        chars.as_slice(),
        "</codex_smart_compact_handoff>",
    )
}

/// The text of a piece of source material.
pub fn render_source(body: &str) -> (r: String)
    ensures
        r@ == source_text(body@),
{
    let mut r = "<codex_smart_compact_source>".to_owned();
    r.append(body);
    r.append("</codex_smart_compact_source>");
    r
}

/// A JSON object with texts as its values, in its compact form.
pub uninterp spec fn json_object_text(entries: Seq<(Seq<char>, Seq<char>)>) -> Seq<char>;

/// `serde_json::Value`'s display form writes an object without any space, its
/// keys in order and its texts with escapes; the object is made from the
/// entries one by one.
#[verifier::external_body]
fn json_object(entries: &Vec<(String, String)>) -> (r: String)
    ensures
        r@ == json_object_text(
            entries@.map_values(|entry: (String, String)| (entry.0@, entry.1@)),
        ),
{
    let object: serde_json::Map<String, serde_json::Value> = entries.iter().map(
        |(key, value)| (key.clone(), serde_json::Value::from(value.as_str())),
    ).collect();
    serde_json::Value::Object(object).to_string()
}

/// A warning that a child agent goes on although its context could not be
/// reduced.
#[derive(Debug, PartialEq, Eq)]
pub struct SubagentContextReductionWarning {
    pub agent_reference: String,
    pub message: String,
}

/// The body of a warning.
pub open spec fn warning_body(agent: Seq<char>, message: Seq<char>) -> Seq<char> {
    "\n"@ + json_object_text(seq![("agent"@, agent), ("message"@, message)]) + "\n"@
}

/// The text of a warning.
pub open spec fn warning_text(agent: Seq<char>, message: Seq<char>) -> Seq<char> {
    "<subagent_context_reduction_warning>"@ + warning_body(agent, message)
        + "</subagent_context_reduction_warning>"@
}

impl SubagentContextReductionWarning {
    /// A warning about an agent.
    pub fn new(agent_reference: String, message: String) -> (warning: Self)
        ensures
            warning.agent_reference == agent_reference,
            warning.message == message,
    {
        SubagentContextReductionWarning { agent_reference, message }
    }

    /// The body of the warning: one JSON object on a line of its own.
    pub fn body(&self) -> (r: String)
        ensures
            r@ == warning_body(self.agent_reference@, self.message@),
    {
        let mut entries: Vec<(String, String)> = Vec::new();
        entries.push(("agent".to_owned(), self.agent_reference.clone()));
        entries.push(("message".to_owned(), self.message.clone()));
        assert(entries@.map_values(|entry: (String, String)| (entry.0@, entry.1@)) == seq![
            ("agent"@, self.agent_reference@),
            ("message"@, self.message@),
        ]);
        let mut r = "\n".to_owned();
        r.append(json_object(&entries).as_str());
        r.append("\n");
        r
    }

    /// The text that stands in the conversation.
    pub fn render(&self) -> (r: String)
        ensures
            r@ == warning_text(self.agent_reference@, self.message@),
    {
        let mut r = "<subagent_context_reduction_warning>".to_owned();
        r.append(self.body().as_str());
        r.append("</subagent_context_reduction_warning>");
        r
    }

    /// The message that carries the warning.
    pub fn to_item(&self) -> (item: ResponseItem)
        ensures
            item.deep_view() == fragment_item(
                WARNING_KIND@,
                warning_text(self.agent_reference@, self.message@),
            ),
    {
        message_of_fragment(WARNING_KIND, self.render())
    }
}

/// A rendered handoff is recognized as one.
pub proof fn law_handoff_is_recognized(body: Seq<char>)
    ensures
        is_handoff_text(handoff_text(body)),
{
    let s = handoff_text(body);
    let start = "<codex_smart_compact_handoff>"@;
    let end = "</codex_smart_compact_handoff>"@;
    assert(s.subrange(0, start.len() as int) == start);
    assert(s.subrange(s.len() - end.len(), s.len() as int) == end);
}

/// A fragment is a message of the user with one text, and tells its kind.
pub proof fn law_fragments_are_marked_messages(kind: Seq<char>, content: Seq<char>)
    ensures
        fragment_item(kind, content) matches ResponseItemView::Message {
            id,
            role,
            content: parts,
            phase,
            internal_chat_message_metadata_passthrough,
        } && {
            &&& id is None
            &&& role == "user"@
            &&& parts == seq![ContentItemView::InputText { text: content }]
            &&& phase is None
            &&& internal_chat_message_metadata_passthrough matches Some(passthrough)
                && passthrough.content_item_kinds == Some(seq![kind])
        },
        HANDOFF_KIND@ == "compaction.smart_handoff"@,
        SOURCE_KIND@ == "compaction.smart_source"@,
        WARNING_KIND@ == "multi_agent.context_reduction_warning"@,
{
}

/// The markers stand directly before and behind what they enclose. A warning has
/// its object on a line of its own, the agent first.
pub proof fn law_markers_enclose_their_text(
    body: Seq<char>,
    agent: Seq<char>,
    message: Seq<char>,
)
    ensures
        handoff_text(body) == "<codex_smart_compact_handoff>"@ + body
            + "</codex_smart_compact_handoff>"@,
        source_text(body) == "<codex_smart_compact_source>"@ + body
            + "</codex_smart_compact_source>"@,
        warning_text(agent, message) == "<subagent_context_reduction_warning>\n"@
            + json_object_text(seq![("agent"@, agent), ("message"@, message)])
            + "\n</subagent_context_reduction_warning>"@,
{
    reveal_strlit("<subagent_context_reduction_warning>\n");
    reveal_strlit("<subagent_context_reduction_warning>");
    reveal_strlit("\n</subagent_context_reduction_warning>");
    reveal_strlit("</subagent_context_reduction_warning>");
    reveal_strlit("\n");
    let object = json_object_text(seq![("agent"@, agent), ("message"@, message)]);
    assert("<subagent_context_reduction_warning>\n"@
        =~= "<subagent_context_reduction_warning>"@ + "\n"@);
    assert("\n</subagent_context_reduction_warning>"@ =~= "\n"@
        + "</subagent_context_reduction_warning>"@);
    assert(warning_text(agent, message) =~= "<subagent_context_reduction_warning>\n"@ + object
        + "\n</subagent_context_reduction_warning>"@);
}

/// Only a text between the two markers is taken for a handoff.
pub proof fn law_only_marked_texts_are_handoffs(s: Seq<char>)
    ensures
        is_handoff_text(s) ==> ({
            let start = "<codex_smart_compact_handoff>"@;
            let end = "</codex_smart_compact_handoff>"@;
            &&& s.len() >= start.len() && s.len() >= end.len()
            &&& s.take(start.len() as int) == start
            &&& s.skip(s.len() - end.len()) == end
        }),
{
    let start = "<codex_smart_compact_handoff>"@;
    let end = "</codex_smart_compact_handoff>"@;
    if is_handoff_text(s) {
        assert(s.take(start.len() as int) =~= s.subrange(0, start.len() as int));
        assert(s.skip(s.len() - end.len()) =~= s.subrange(s.len() - end.len(), s.len() as int));
    }
}

} // verus!
