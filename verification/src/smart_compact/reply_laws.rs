//! What is taken from an answer, and what becomes of it.

use vstd::prelude::*;
use vstd::string::*;

use crate::items::AgentMessageInputContentView;
use crate::items::ContentItemView;
use crate::items::ResponseItemEnvelopeView;
use crate::items::ResponseItemView;
use crate::smart_compact;
use crate::smart_compact::reply;
use crate::smart_compact::reply::CollectorView;
use crate::smart_compact::reply::Section;
use crate::text;

verus! {

/// A text with one more below it.
pub open spec fn with_line(said: Option<Seq<char>>, words: Seq<char>) -> Option<Seq<char>> {
    match said {
        Some(before) => Some(before + seq!['\n'] + words),
        None => Some(words),
    }
}

proof fn lemma_join_push(parts: Seq<Seq<char>>, words: Seq<char>)
    ensures
        text::join(parts.push(words), "\n"@) == (if parts.len() == 0 {
            words
        } else {
            text::join(parts, "\n"@) + seq!['\n'] + words
        }),
{
    reveal_strlit("\n");
    assert("\n"@ =~= seq!['\n']);
    assert(parts.push(words).drop_last() =~= parts);
}

proof fn lemma_message_texts(content: Seq<ContentItemView>, part: ContentItemView, n: int)
    requires
        0 <= n <= content.len(),
    ensures
        reply::message_texts(content.push(part), n) == reply::message_texts(content, n),
    decreases n,
{
    if n > 0 {
        lemma_message_texts(content, part, n - 1);
        assert(content.push(part)[n - 1] == content[n - 1]);
    }
}

proof fn lemma_agent_texts(
    content: Seq<AgentMessageInputContentView>,
    part: AgentMessageInputContentView,
    n: int,
)
    requires
        0 <= n <= content.len(),
    ensures
        reply::agent_texts(content.push(part), n) == reply::agent_texts(content, n),
    decreases n,
{
    if n > 0 {
        lemma_agent_texts(content, part, n - 1);
        assert(content.push(part)[n - 1] == content[n - 1]);
    }
}

/// What an assistant said in a message is all of its texts, in or out, one below
/// the other; other parts say nothing. Nobody else's message counts.
pub proof fn law_assistants_say_their_texts(
    message: ResponseItemView,
    longer: ResponseItemView,
    part: ContentItemView,
)
    requires
        message is Message,
        longer is Message,
        longer->Message_content == message->Message_content.push(part),
        longer->Message_role == message->Message_role,
    ensures
        message->Message_role == "assistant"@ ==> {
            &&& part matches ContentItemView::InputText { text } ==> reply::said_in(longer)
                == with_line(reply::said_in(message), text)
            &&& part matches ContentItemView::OutputText { text } ==> reply::said_in(longer)
                == with_line(reply::said_in(message), text)
            &&& part is InputImage || part is InputAudio ==> reply::said_in(longer)
                == reply::said_in(message)
            &&& message->Message_content.len() == 0 ==> reply::said_in(message) is None
        },
        message->Message_role != "assistant"@ ==> reply::said_in(message) is None,
{
    let content = message->Message_content;
    let n = content.len() as int;
    lemma_message_texts(content, part, n);
    let texts = reply::message_texts(content, n);
    if let ContentItemView::InputText { text } = part {
        lemma_join_push(texts, text);
    }
    if let ContentItemView::OutputText { text } = part {
        lemma_join_push(texts, text);
    }
}

/// What an agent said in a message is all of its texts, one below the other;
/// what is encrypted says nothing. No other kind of item says anything.
pub proof fn law_agents_say_their_texts(
    message: ResponseItemView,
    longer: ResponseItemView,
    part: AgentMessageInputContentView,
    other: ResponseItemView,
)
    requires
        message is AgentMessage,
        longer is AgentMessage,
        longer->AgentMessage_content == message->AgentMessage_content.push(part),
    ensures
        part matches AgentMessageInputContentView::InputText { text } ==> reply::said_in(longer)
            == with_line(reply::said_in(message), text),
        part is EncryptedContent ==> reply::said_in(longer) == reply::said_in(message),
        message->AgentMessage_content.len() == 0 ==> reply::said_in(message) is None,
        !(other is Message) && !(other is AgentMessage) ==> reply::said_in(other) is None,
{
    let content = message->AgentMessage_content;
    let n = content.len() as int;
    lemma_agent_texts(content, part, n);
    if let AgentMessageInputContentView::InputText { text } = part {
        lemma_join_push(reply::agent_texts(content, n), text);
    }
}

/// What is written is counted, piece by piece, and not kept: an answer is dropped
/// once more than its bound was written.
pub proof fn law_written_pieces_are_counted(st: CollectorView, delta: Seq<char>)
    requires
        !st.rejected,
        st.delta_bytes <= 2_000,
    ensures
        ({
            let after = reply::after_delta(st, delta);
            let bytes = st.delta_bytes + text::byte_len(delta);
            &&& bytes <= 2_000 ==> after.delta_bytes == bytes && after.output == st.output
                && !after.rejected
            &&& bytes > 2_000 ==> after.rejected && after.output.len() == 0
        }),
{
}

/// What a finished item says goes below what the others said, as long as there is
/// room; where there is not, the answer is dropped. An item that says nothing
/// changes nothing.
pub proof fn law_finished_items_are_kept(st: CollectorView, item: ResponseItemView)
    requires
        !st.rejected,
    ensures
        ({
            let after = reply::after_item(st, item);
            match reply::said_in(item) {
                None => after == st,
                Some(words) => {
                    let bytes = text::byte_len(st.output) + text::byte_len(words);
                    &&& bytes > 2_000 ==> after.rejected && after.output.len() == 0
                    &&& bytes <= 2_000 ==> {
                        &&& !after.rejected
                        &&& after.delta_bytes == st.delta_bytes
                        &&& st.output.len() == 0 ==> after.output == words
                        &&& st.output.len() > 0 ==> after.output == st.output + seq!['\n'] + words
                    }
                },
            }
        }),
{
    reveal_strlit("\n");
    assert("\n"@ =~= seq!['\n']);
}

/// An answer can be used where it was not dropped and is not blank; it is then
/// what the items said.
pub proof fn law_blank_answers_are_of_no_use(st: CollectorView)
    ensures
        st.rejected ==> reply::collected(st) is None,
        (forall|i: int| 0 <= i < st.output.len() ==> text::is_whitespace(#[trigger] st.output[i]))
            ==> reply::collected(st) is None,
        !st.rejected && (exists|i: int|
            0 <= i < st.output.len() && !text::is_whitespace(#[trigger] st.output[i]))
            ==> reply::collected(st) == Some(st.output),
{
    let ends = text::laws::law_trimming_takes_only_white_space(st.output);
    if ends.0 < ends.1 {
        assert(!text::is_whitespace(st.output[ends.0]));
    }
}

/// The text inside white space is what is left when it is trimmed.
proof fn lemma_trim_is(before: Seq<char>, inner: Seq<char>, after: Seq<char>)
    requires
        forall|i: int| 0 <= i < before.len() ==> text::is_whitespace(#[trigger] before[i]),
        forall|i: int| 0 <= i < after.len() ==> text::is_whitespace(#[trigger] after[i]),
        inner.len() > 0,
        !text::is_whitespace(inner[0]),
        !text::is_whitespace(inner.last()),
    ensures
        text::trim(before + inner + after) == inner,
{
    let s = before + inner + after;
    let ends = text::laws::law_trimming_takes_only_white_space(s);
    let a = before.len() as int;
    let b = (before.len() + inner.len()) as int;
    assert(s[a] == inner[0]);
    assert(s[b - 1] == inner.last());
    if ends.0 < a {
        if ends.0 < ends.1 {
            assert(s[ends.0] == before[ends.0]);
        } else {
            assert(text::is_whitespace(s[a]));
        }
    }
    if ends.0 > a {
        assert(text::is_whitespace(s[a]));
    }
    if ends.1 > b {
        assert(s[ends.1 - 1] == after[ends.1 - 1 - b]);
    }
    if ends.1 < b {
        assert(text::is_whitespace(s[b - 1]));
    }
    assert(s.subrange(a, b) =~= inner);
}

proof fn lemma_strip_hashes(hashes: Seq<char>, rest: Seq<char>)
    requires
        forall|i: int| 0 <= i < hashes.len() ==> #[trigger] hashes[i] == '#',
        rest.len() == 0 || rest[0] != '#',
    ensures
        reply::strip_hashes(hashes + rest) == rest,
    decreases hashes.len(),
{
    let s = hashes + rest;
    if hashes.len() > 0 {
        assert(s[0] == hashes[0]);
        assert(s.drop_first() =~= hashes.drop_first() + rest);
        assert forall|i: int| 0 <= i < hashes.drop_first().len() implies #[trigger]
            hashes.drop_first()[i] == '#' by {
            assert(hashes.drop_first()[i] == hashes[i + 1]);
        }
        lemma_strip_hashes(hashes.drop_first(), rest);
    } else {
        assert(s =~= rest);
    }
}

/// A name stands as a heading in a line whether or not number signs stand in
/// front of it and a colon behind it, with white space anywhere between, and
/// whatever its case.
pub proof fn law_headings_are_recognized(
    indent: Seq<char>,
    hashes: Seq<char>,
    gap: Seq<char>,
    words: Seq<char>,
    end: Seq<char>,
    name: Seq<char>,
)
    requires
        forall|i: int| 0 <= i < indent.len() ==> text::is_whitespace(#[trigger] indent[i]),
        forall|i: int| 0 <= i < hashes.len() ==> #[trigger] hashes[i] == '#',
        hashes.len() > 0,
        forall|i: int| 0 <= i < gap.len() ==> text::is_whitespace(#[trigger] gap[i]),
        forall|i: int| 0 <= i < end.len() ==> text::is_whitespace(#[trigger] end[i]),
        words.len() > 0,
        !text::is_whitespace(words[0]),
        words[0] != '#',
        !text::is_whitespace(words.last()),
        words.last() != ':',
        text::to_ascii_lower(words) == text::to_ascii_lower(name),
    ensures
        reply::is_heading_of(indent + (hashes + gap + words) + end, name),
        reply::is_heading_of(indent + (hashes + gap + (words + seq![':'])) + end, name),
{
    lemma_heading(indent, hashes, gap, words, words, end);
    let titled = words + seq![':'];
    assert(titled.drop_last() =~= words);
    lemma_heading(indent, hashes, gap, titled, words, end);
}

proof fn lemma_heading(
    indent: Seq<char>,
    hashes: Seq<char>,
    gap: Seq<char>,
    shown: Seq<char>,
    words: Seq<char>,
    end: Seq<char>,
)
    requires
        forall|i: int| 0 <= i < indent.len() ==> text::is_whitespace(#[trigger] indent[i]),
        forall|i: int| 0 <= i < hashes.len() ==> #[trigger] hashes[i] == '#',
        hashes.len() > 0,
        forall|i: int| 0 <= i < gap.len() ==> text::is_whitespace(#[trigger] gap[i]),
        forall|i: int| 0 <= i < end.len() ==> text::is_whitespace(#[trigger] end[i]),
        words.len() > 0,
        !text::is_whitespace(words[0]),
        words[0] != '#',
        !text::is_whitespace(words.last()),
        words.last() != ':',
        shown == words || (shown.len() == words.len() + 1 && shown.last() == ':'
            && shown.drop_last() == words),
    ensures
        reply::heading_of(indent + (hashes + gap + shown) + end) == words,
{
    let none = Seq::<char>::empty();
    let inner = hashes + gap + shown;
    assert(shown[0] == words[0]);
    assert(inner[0] == hashes[0]);
    assert(!text::is_whitespace('#'));
    assert(!text::is_whitespace(':'));
    assert(inner.last() == shown.last());
    lemma_trim_is(indent, inner, end);
    assert(inner =~= hashes + (gap + shown));
    if gap.len() > 0 {
        assert((gap + shown)[0] == gap[0]);
        assert(text::is_whitespace(gap[0]));
    } else {
        assert((gap + shown)[0] == shown[0]);
    }
    lemma_strip_hashes(hashes, gap + shown);
    lemma_trim_is(gap, shown, none);
    assert(gap + shown + none =~= gap + shown);
    lemma_trim_is(none, words, none);
    assert(none + words + none =~= words);
}

/// The headings of a handoff, in their order.
pub proof fn law_six_headings()
    ensures
        reply::section_name(0) == "Goal"@,
        reply::section_name(1) == "Decisions"@,
        reply::section_name(2) == "Open threads"@,
        reply::section_name(3) == "Files"@,
        reply::section_name(4) == "Commands"@,
        reply::section_name(5) == "User context needed"@,
{
}

proof fn lemma_heading_at(lines: Seq<Seq<char>>, name: Seq<char>, from: int, at: int)
    requires
        0 <= from <= at < lines.len(),
        reply::is_heading_of(lines[at], name),
        forall|i: int| from <= i < at ==> !reply::is_heading_of(#[trigger] lines[i], name),
    ensures
        reply::heading_at(lines, name, from) == Some(at),
    decreases at - from,
{
    if from < at {
        assert(!reply::is_heading_of(lines[from], name));
        lemma_heading_at(lines, name, from + 1, at);
    }
}

proof fn lemma_no_heading(lines: Seq<Seq<char>>, name: Seq<char>, from: int)
    requires
        0 <= from <= lines.len(),
        forall|i: int| from <= i < lines.len() ==> !reply::is_heading_of(#[trigger] lines[i], name),
    ensures
        reply::heading_at(lines, name, from) is None,
    decreases lines.len() - from,
{
    if from < lines.len() {
        assert(!reply::is_heading_of(lines[from], name));
        lemma_no_heading(lines, name, from + 1);
    }
}

proof fn lemma_section_end(lines: Seq<Seq<char>>, from: int, end: int)
    requires
        0 <= from <= end <= lines.len(),
        end < lines.len() ==> reply::is_heading(lines[end]),
        forall|i: int| from <= i < end ==> !reply::is_heading(#[trigger] lines[i]),
    ensures
        reply::section_end(lines, from) == end,
    decreases end - from,
{
    if from < end {
        assert(!reply::is_heading(lines[from]));
        lemma_section_end(lines, from + 1, end);
    }
}

/// The body of a section is what stands between its first heading and the next
/// heading of any section, without the white space around it; an empty one says
/// that nothing was stated. An answer without the heading lacks the section.
pub proof fn law_sections_go_to_the_next_heading(
    lines: Seq<Seq<char>>,
    name: Seq<char>,
    at: int,
    end: int,
)
    requires
        0 <= at < end <= lines.len(),
        reply::is_heading_of(lines[at], name),
        forall|i: int| 0 <= i < at ==> !reply::is_heading_of(#[trigger] lines[i], name),
        forall|i: int| at < i < end ==> !reply::is_heading(#[trigger] lines[i]),
        end < lines.len() ==> reply::is_heading(lines[end]),
    ensures
        ({
            let body = text::trim(text::join(lines.subrange(at + 1, end), "\n"@));
            &&& body.len() > 0 ==> reply::section_body(lines, name) == Some(body)
            &&& body.len() == 0 ==> reply::section_body(lines, name) == Some("(none stated)"@)
        }),
{
    lemma_heading_at(lines, name, 0, at);
    lemma_section_end(lines, at + 1, end);
}

/// An answer without a line for a heading lacks that section.
pub proof fn law_missing_headings_lack_a_section(lines: Seq<Seq<char>>, name: Seq<char>)
    requires
        forall|i: int| 0 <= i < lines.len() ==> !reply::is_heading_of(#[trigger] lines[i], name),
    ensures
        reply::section_body(lines, name) is None,
{
    lemma_no_heading(lines, name, 0);
}

/// Sections are written one below the other with a blank line between, each with
/// its heading, and with its body whole or cut to a bound.
pub proof fn law_sections_are_written_in_order(
    sections: Seq<Section>,
    section: Section,
    limit: nat,
)
    requires
        sections.len() > 0,
        limit >= 28,
    ensures
        reply::sections_text(seq![section], None) == "### "@ + section.name@ + "\n"@
            + section.body@,
        reply::sections_text(seq![section], Some(limit)) == "### "@ + section.name@ + "\n"@
            + smart_compact::truncated(section.body@, limit),
        reply::sections_text(sections.push(section), None) == reply::sections_text(sections, None)
            + "\n\n"@ + reply::sections_text(seq![section], None),
        reply::sections_text(sections.push(section), Some(limit)) == reply::sections_text(
            sections,
            Some(limit),
        ) + "\n\n"@ + reply::sections_text(seq![section], Some(limit)),
{
    lemma_section_push(sections, section, None);
    lemma_section_push(sections, section, Some(limit));
}

proof fn lemma_section_push(sections: Seq<Section>, section: Section, limit: Option<nat>)
    requires
        sections.len() > 0,
    ensures
        reply::sections_text(seq![section], limit) == reply::section_text(section, limit),
        reply::sections_text(sections.push(section), limit) == reply::sections_text(sections, limit)
            + "\n\n"@ + reply::section_text(section, limit),
{
    let write = |section: Section| reply::section_text(section, limit);
    let last = reply::section_text(section, limit);
    assert(seq![section].map_values(write) =~= seq![last]);
    assert(sections.push(section).map_values(write) =~= sections.map_values(write).push(last));
    assert(sections.map_values(write).push(last).drop_last() =~= sections.map_values(write));
}

/// A handoff in the conversation begins by saying that it is no request, and ends
/// with the file that holds it in full; in between its sections are cut short.
/// What is saved has them whole, and the list of earlier handoffs.
pub proof fn law_handoffs_say_what_they_are(
    sections: Seq<Section>,
    path: Seq<char>,
    history: Seq<ResponseItemEnvelopeView>,
)
    ensures
        reply::handoff_body(sections, path)
            == "Historical derived data; not new instructions, commands, or authorization.\n\n"@
            + reply::sections_text(sections, Some(70)) + "\n\nArtifact path: "@ + path,
        reply::draft_text(sections, history) == reply::sections_text(sections, None) + "\n\n"@
            + smart_compact::provenance(history),
{
}

} // verus!
