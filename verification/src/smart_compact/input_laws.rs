//! What the model is asked with, and what it is not told.

use vstd::prelude::*;
use vstd::string::*;

use crate::fragments;
use crate::items::ContentItemView;
use crate::items::ResponseItemEnvelopeView;
use crate::shake::sizes;
use crate::smart_compact;
use crate::smart_compact::InputView;
use crate::smart_compact::SourceRegionView;
use crate::smart_compact::SourceView;
use crate::text;

verus! {

/// A text that fits its bound stays as it is. Of one that does not, as much of
/// the beginning is kept as leaves room for the marker behind it.
pub proof fn law_truncation_keeps_the_beginning(s: Seq<char>, max: nat)
    requires
        max >= 28,
    ensures
        text::byte_len(s) <= max ==> smart_compact::truncated(s, max) == s,
        text::byte_len(s) > max ==> exists|n: int|
            0 <= n < s.len() && smart_compact::truncated(s, max) == #[trigger] s.take(n)
                + "\n[source fragment truncated]"@ && text::byte_len(s.take(n)) <= max - 28
                && text::byte_len(s.take(n + 1)) > max - 28,
{
    smart_compact::lemma_marker_bytes();
    if text::byte_len(s) > max {
        let room = (max - 28) as nat;
        text::lemma_fitting(s, room);
        let n = text::fitting(s, room) as int;
        if n == s.len() {
            assert(s.take(n) == s);
        }
        assert(smart_compact::truncated(s, max) == s.take(n) + "\n[source fragment truncated]"@);
    }
}

/// The texts so far are a beginning of the texts later.
spec fn extends(before: Seq<Seq<char>>, after: Seq<Seq<char>>) -> bool {
    &&& before.len() <= after.len()
    &&& forall|i: int| 0 <= i < before.len() ==> #[trigger] after[i] == before[i]
}

proof fn lemma_regions_extend(input: InputView, regions: Seq<SourceRegionView>, n: int)
    ensures
        extends(input.texts, smart_compact::input_with_regions(input, regions, n).texts),
    decreases n,
{
    if n > 0 {
        lemma_regions_extend(input, regions, n - 1);
    }
}

/// What is sent of a message that is not empty.
proof fn lemma_sent(kind: Seq<char>, content: Seq<char>)
    requires
        content.len() > 0,
    ensures
        smart_compact::bounded_text(kind, content) == smart_compact::truncated(content, 760),
        text::byte_len(fragments::source_text(smart_compact::bounded_text(kind, content))) <= 817,
{
    smart_compact::law_truncation_is_bounded(content, 760);
    smart_compact::lemma_source_bytes(smart_compact::truncated(content, 760));
    if text::byte_len(content) > 760 {
        law_truncation_keeps_the_beginning(content, 760);
        reveal_strlit("\n[source fragment truncated]");
    }
}

proof fn lemma_labels()
    ensures
        "Source data: prior real user goal "@.len() > 0,
        "Source data: prior durable handoff\nartifact path (host provenance): "@.len() > 0,
        "Source data: elided region "@.len() > 0,
{
    reveal_strlit("Source data: prior real user goal ");
    reveal_strlit("Source data: prior durable handoff\nartifact path (host provenance): ");
    reveal_strlit("Source data: elided region ");
}

proof fn lemma_goals_fit(goals: Seq<Seq<char>>, n: int)
    requires
        0 <= n <= goals.len(),
        n <= 3,
    ensures
        ({
            let empty = InputView { texts: Seq::empty(), bytes: 0, omitted: false };
            let input = smart_compact::input_with_goals(empty, goals, n);
            &&& input.texts.len() == n
            &&& input.bytes <= 817 * n
            &&& !input.omitted
            &&& forall|i: int|
                0 <= i < n ==> #[trigger] input.texts[i] == fragments::source_text(
                    smart_compact::bounded_text(
                        "user goal"@,
                        smart_compact::goal_text(i as nat, goals[i]),
                    ),
                )
        }),
    decreases n,
{
    smart_compact::lemma_omission_bytes();
    if n > 0 {
        lemma_goals_fit(goals, n - 1);
        lemma_labels();
        lemma_sent("user goal"@, smart_compact::goal_text((n - 1) as nat, goals[n - 1]));
    }
}

/// How many of the user's messages are sent.
pub open spec fn goals_sent(user_messages: Seq<Seq<char>>) -> int {
    if user_messages.len() < 3 {
        user_messages.len() as int
    } else {
        3
    }
}

/// The newest messages of the user are always sent, up to three of them, and
/// before all else: the newest one comes last of these, and before it those that
/// the user wrote before it.
pub proof fn law_newest_goals_are_sent(
    user_messages: Seq<Seq<char>>,
    history: Seq<ResponseItemEnvelopeView>,
    source: SourceView,
    back: int,
)
    requires
        0 <= back < goals_sent(user_messages),
    ensures
        ({
            let texts = smart_compact::summary_input(user_messages, history, source).texts;
            let place = goals_sent(user_messages) - 1 - back;
            &&& texts.len() >= goals_sent(user_messages)
            &&& texts[place] == fragments::source_text(
                smart_compact::bounded_text(
                    "user goal"@,
                    smart_compact::goal_text(
                        place as nat,
                        user_messages[user_messages.len() - 1 - back],
                    ),
                ),
            )
        }),
{
    let goals = smart_compact::recent_goals(user_messages);
    let shown = goals_sent(user_messages);
    let place = shown - 1 - back;
    lemma_goals_fit(goals, shown);
    lemma_extended(user_messages, history, source);
    let empty = InputView { texts: Seq::empty(), bytes: 0, omitted: false };
    let with_goals = smart_compact::input_with_goals(empty, goals, shown);
    assert(goals[place] == user_messages[user_messages.len() - 1 - back]);
    assert(with_goals.texts[place] == fragments::source_text(
        smart_compact::bounded_text(
            "user goal"@,
            smart_compact::goal_text(place as nat, goals[place]),
        ),
    ));
}

/// The goals are a beginning of what is sent.
proof fn lemma_extended(
    user_messages: Seq<Seq<char>>,
    history: Seq<ResponseItemEnvelopeView>,
    source: SourceView,
)
    ensures
        ({
            let goals = smart_compact::recent_goals(user_messages);
            let empty = InputView { texts: Seq::empty(), bytes: 0, omitted: false };
            let with_goals = smart_compact::input_with_goals(empty, goals, goals.len() as int);
            let gathered = smart_compact::gathered_input(user_messages, history, source);
            &&& extends(with_goals.texts, gathered.texts)
            &&& extends(
                gathered.texts,
                smart_compact::summary_input(user_messages, history, source).texts,
            )
        }),
{
    let goals = smart_compact::recent_goals(user_messages);
    let empty = InputView { texts: Seq::empty(), bytes: 0, omitted: false };
    let with_goals = smart_compact::input_with_goals(empty, goals, goals.len() as int);
    let with_prior = match smart_compact::newest_handoff(history, history.len() as int) {
        Some((content, path)) => smart_compact::input_with(
            with_goals,
            "prior durable handoff"@,
            smart_compact::prior_text(path, content),
            smart_compact::content_limit(),
        ),
        None => with_goals,
    };
    assert(extends(with_goals.texts, with_prior.texts));
    lemma_regions_extend(with_prior, source.regions, source.regions.len() as int);
}

/// A message of the user that is short enough is sent as it was written, with
/// its number in front, between the markers of source material.
pub proof fn law_short_goals_are_sent_whole(
    user_messages: Seq<Seq<char>>,
    history: Seq<ResponseItemEnvelopeView>,
    source: SourceView,
    back: int,
)
    requires
        0 <= back < goals_sent(user_messages),
        text::byte_len(user_messages[user_messages.len() - 1 - back]) <= 720,
    ensures
        smart_compact::summary_input(user_messages, history, source).texts[goals_sent(
            user_messages,
        ) - 1 - back] == "<codex_smart_compact_source>"@ + (
        "Source data: prior real user goal "@ + text::decimal(
            (goals_sent(user_messages) - 1 - back) as nat,
        ) + "\n"@ + user_messages[user_messages.len() - 1 - back])
            + "</codex_smart_compact_source>"@,
{
    let goal = user_messages[user_messages.len() - 1 - back];
    let index = (goals_sent(user_messages) - 1 - back) as nat;
    law_newest_goals_are_sent(user_messages, history, source, back);
    let words = smart_compact::goal_text(index, goal);
    lemma_labels();
    lemma_sent("user goal"@, words);
    let label = "Source data: prior real user goal "@;
    reveal_strlit("Source data: prior real user goal ");
    reveal_strlit("\n");
    smart_compact::lemma_ascii_bytes(label);
    smart_compact::lemma_ascii_bytes("\n"@);
    text::lemma_byte_len_concat(label, text::decimal(index));
    text::lemma_byte_len_concat(label + text::decimal(index), "\n"@);
    text::lemma_byte_len_concat(label + text::decimal(index) + "\n"@, goal);
    assert(text::decimal(index).len() == 1);
    text::lemma_byte_len_bounds(text::decimal(index));
    law_truncation_keeps_the_beginning(words, 760);
}

proof fn lemma_regions_sent(input: InputView, regions: Seq<SourceRegionView>, n: int)
    requires
        0 <= n <= regions.len(),
        !smart_compact::input_with_regions(input, regions, n).omitted,
    ensures
        ({
            let all = smart_compact::input_with_regions(input, regions, n);
            &&& !input.omitted
            &&& all.texts.len() == input.texts.len() + n
            &&& extends(input.texts, all.texts)
            &&& forall|j: int|
                0 <= j < n ==> #[trigger] all.texts[input.texts.len() + j]
                    == fragments::source_text(
                    smart_compact::bounded_text(
                        "elided source"@,
                        smart_compact::region_text(j as nat, regions[j]),
                    ),
                )
        }),
    decreases n,
{
    if n > 0 {
        lemma_regions_sent(input, regions, n - 1);
        let before = smart_compact::input_with_regions(input, regions, n - 1);
        let all = smart_compact::input_with_regions(input, regions, n);
        let at = input.texts.len() as int;
        assert forall|j: int| 0 <= j < n implies #[trigger] all.texts[at + j]
            == fragments::source_text(
            smart_compact::bounded_text(
                "elided source"@,
                smart_compact::region_text(j as nat, regions[j]),
            ),
        ) by {
            if j < n - 1 {
                assert(all.texts[at + j] == before.texts[at + j]);
            }
        }
    }
}

/// Where nothing had to be left out, all is sent: the newest goals, then the
/// newest earlier handoff, then every piece of source material in its order, and
/// no note behind them.
pub proof fn law_all_is_sent_where_it_fits(
    user_messages: Seq<Seq<char>>,
    history: Seq<ResponseItemEnvelopeView>,
    source: SourceView,
    j: int,
)
    requires
        !source.omitted,
        !smart_compact::gathered_input(user_messages, history, source).omitted,
        0 <= j < source.regions.len(),
    ensures
        ({
            let texts = smart_compact::summary_input(user_messages, history, source).texts;
            let handoff = smart_compact::newest_handoff(history, history.len() as int);
            let goals = goals_sent(user_messages);
            let front = goals + (if handoff is Some {
                1int
            } else {
                0
            });
            &&& texts.len() == front + source.regions.len()
            &&& handoff matches Some((content, path)) ==> texts[goals] == fragments::source_text(
                smart_compact::bounded_text(
                    "prior durable handoff"@,
                    smart_compact::prior_text(path, content),
                ),
            )
            &&& texts[front + j] == fragments::source_text(
                smart_compact::bounded_text(
                    "elided source"@,
                    smart_compact::region_text(j as nat, source.regions[j]),
                ),
            )
        }),
{
    let goals = smart_compact::recent_goals(user_messages);
    lemma_goals_fit(goals, goals.len() as int);
    let empty = InputView { texts: Seq::empty(), bytes: 0, omitted: false };
    let with_goals = smart_compact::input_with_goals(empty, goals, goals.len() as int);
    let with_prior = match smart_compact::newest_handoff(history, history.len() as int) {
        Some((content, path)) => smart_compact::input_with(
            with_goals,
            "prior durable handoff"@,
            smart_compact::prior_text(path, content),
            smart_compact::content_limit(),
        ),
        None => with_goals,
    };
    lemma_regions_sent(with_prior, source.regions, source.regions.len() as int);
    let all = smart_compact::gathered_input(user_messages, history, source);
    assert(all == smart_compact::input_with_regions(
        with_prior,
        source.regions,
        source.regions.len() as int,
    ));
    let at = with_prior.texts.len() as int;
    assert(all.texts[at + j] == fragments::source_text(
        smart_compact::bounded_text(
            "elided source"@,
            smart_compact::region_text(j as nat, source.regions[j]),
        ),
    ));
    if with_prior.texts.len() > with_goals.texts.len() {
        assert(all.texts[goals.len() as int] == with_prior.texts[goals.len() as int]);
    }
}

/// What a message needs that is to be left out: it does not fit beside what is
/// there already. One that fits is sent behind the others.
pub proof fn law_messages_are_left_out_for_want_of_room(
    input: InputView,
    kind: Seq<char>,
    content: Seq<char>,
    limit: nat,
)
    requires
        content.len() > 0,
    ensures
        ({
            let after = smart_compact::input_with(input, kind, content, limit);
            let sent = fragments::source_text(smart_compact::truncated(content, 760));
            let fits = input.bytes + text::byte_len(sent) <= limit;
            &&& fits ==> after.texts == input.texts.push(sent) && after.bytes == input.bytes
                + text::byte_len(sent) && after.omitted == input.omitted
            &&& !fits ==> after.texts == input.texts && after.bytes == input.bytes && after.omitted
        }),
{
    lemma_sent(kind, content);
}

/// What is sent of an empty message says that there was nothing.
pub proof fn law_empty_messages_say_so(kind: Seq<char>)
    ensures
        smart_compact::bounded_text(kind, Seq::<char>::empty()) == "Source data: "@ + kind
            + "\n(source empty)"@,
{
}

/// The newest handoff is the last item of the history that carries one.
pub proof fn law_newest_handoff_is_the_last(history: Seq<ResponseItemEnvelopeView>, n: int)
    requires
        0 <= n <= history.len(),
    ensures
        match smart_compact::newest_handoff(history, n) {
            Some(found) => exists|i: int|
                0 <= i < n && smart_compact::handoff_of(#[trigger] history[i]) == Some(found)
                    && forall|j: int|
                    i < j < n ==> smart_compact::handoff_of(#[trigger] history[j]) is None,
            None => forall|i: int|
                0 <= i < n ==> smart_compact::handoff_of(#[trigger] history[i]) is None,
        },
    decreases n,
{
    if n > 0 {
        law_newest_handoff_is_the_last(history, n - 1);
        if smart_compact::handoff_of(history[n - 1]) is Some {
            assert(smart_compact::handoff_of(history[n - 1]) == smart_compact::newest_handoff(
                history,
                n,
            ));
        } else if let Some(found) = smart_compact::newest_handoff(history, n - 1) {
            let i = choose|i: int|
                0 <= i < n - 1 && smart_compact::handoff_of(#[trigger] history[i]) == Some(found)
                    && forall|j: int|
                    i < j < n - 1 ==> smart_compact::handoff_of(#[trigger] history[j]) is None;
            assert(smart_compact::handoff_of(history[i]) == Some(found));
        }
    }
}

/// Only a message that the harness wrote as a handoff is taken for one: a single
/// text between the markers, noted as a handoff, with the file that holds it.
pub proof fn law_only_handoffs_are_found(envelope: ResponseItemEnvelopeView)
    requires
        smart_compact::handoff_of(envelope) is Some,
    ensures
        ({
            let found = smart_compact::handoff_of(envelope)->0;
            &&& envelope.item is Message
            &&& envelope.item->Message_role == "user"@
            &&& envelope.item->Message_content == seq![ContentItemView::InputText { text: found.0 }]
            &&& envelope.item->Message_internal_chat_message_metadata_passthrough matches Some(noted)
                && noted.content_item_kinds == Some(seq!["compaction.smart_handoff"@])
            &&& envelope.metadata matches Some(metadata)
                && metadata.smart_compact_artifact_path == Some(found.1)
            &&& text::starts_with(found.0, "<codex_smart_compact_handoff>"@)
            &&& text::ends_with(found.0, "</codex_smart_compact_handoff>"@)
        }),
{
    let found = smart_compact::handoff_of(envelope)->0;
    assert(envelope.item->Message_content =~= seq![ContentItemView::InputText { text: found.0 }]);
}

/// A handoff goes right before the newest message that the user wrote, or behind
/// everything where there is none. Nothing else moves or changes.
pub proof fn law_handoffs_go_before_the_newest_message(
    history: Seq<ResponseItemEnvelopeView>,
    user_wrote: Seq<bool>,
    handoff: ResponseItemEnvelopeView,
) -> (at: int)
    requires
        user_wrote.len() == history.len(),
    ensures
        ({
            let after = smart_compact::with_handoff(history, user_wrote, handoff);
            &&& 0 <= at <= history.len()
            &&& after == history.take(at) + seq![handoff] + history.skip(at)
            &&& at < history.len() ==> user_wrote[at]
            &&& forall|i: int| at < i < history.len() ==> !#[trigger] user_wrote[i]
            &&& at == history.len() ==> forall|i: int|
                0 <= i < history.len() ==> !#[trigger] user_wrote[i]
        }),
{
    let n = user_wrote.len() as int;
    lemma_last_marked(user_wrote, n);
    let after = smart_compact::with_handoff(history, user_wrote, handoff);
    let at = match smart_compact::last_marked(user_wrote, n) {
        Some(i) => i,
        None => n,
    };
    assert(after =~= history.take(at) + seq![handoff] + history.skip(at));
    at
}

proof fn lemma_last_marked(marks: Seq<bool>, n: int)
    requires
        0 <= n <= marks.len(),
    ensures
        match smart_compact::last_marked(marks, n) {
            Some(i) => 0 <= i < n && marks[i] && forall|j: int| i < j < n ==> !#[trigger] marks[j],
            None => forall|j: int| 0 <= j < n ==> !#[trigger] marks[j],
        },
    decreases n,
{
    if n > 0 {
        lemma_last_marked(marks, n - 1);
    }
}

proof fn lemma_provenance_shift(
    item: ResponseItemEnvelopeView,
    history: Seq<ResponseItemEnvelopeView>,
    n: int,
)
    requires
        0 <= n <= history.len(),
    ensures
        smart_compact::provenance_from(seq![item] + history, n + 1)
            == smart_compact::provenance_from(history, n),
    decreases history.len() - n,
{
    if n < history.len() {
        lemma_provenance_shift(item, history, n + 1);
        assert((seq![item] + history)[n + 1] == history[n]);
    }
}

/// The list of earlier handoffs has the newest first: an older one comes behind
/// those that are there, on a line of its own, if there is room for it, and
/// otherwise it is left out. Whatever carries no handoff does not count.
pub proof fn law_older_handoffs_are_listed_behind(
    older: ResponseItemEnvelopeView,
    history: Seq<ResponseItemEnvelopeView>,
)
    ensures
        ({
            let before = smart_compact::provenance_from(history, 0);
            let after = smart_compact::provenance_from(seq![older] + history, 0);
            match smart_compact::handoff_of(older) {
                None => after == before,
                Some((_, path)) => {
                    let line = "\n- "@ + path;
                    &&& text::byte_len(before.words + line) <= 343 ==> after.words == before.words
                        + line && after.omitted == before.omitted
                    &&& text::byte_len(before.words + line) > 343 ==> after.words == before.words
                        && after.omitted
                },
            }
        }),
{
    lemma_provenance_shift(older, history, 0);
    smart_compact::lemma_provenance_bytes();
    assert((seq![older] + history)[0] == older);
    if let Some((_, path)) = smart_compact::handoff_of(older) {
        text::lemma_byte_len_concat(
            smart_compact::provenance_from(history, 0).words,
            "\n- "@ + path,
        );
    }
}

/// A history without handoffs has an empty list of them, and a list that is not
/// complete says so at its end.
pub proof fn law_lists_of_handoffs_tell_what_is_missing(history: Seq<ResponseItemEnvelopeView>)
    ensures
        smart_compact::provenance(Seq::empty())
            == "Prior durable handoff artifacts (host provenance):"@,
        smart_compact::provenance(history) == smart_compact::provenance_from(history, 0).words + (
        if smart_compact::provenance_from(history, 0).omitted {
            "\n- [additional prior artifact paths omitted by the bounded provenance budget]"@
        } else {
            Seq::<char>::empty()
        }),
{
    assert(smart_compact::provenance_from(history, 0).words + Seq::<char>::empty()
        =~= smart_compact::provenance_from(history, 0).words);
}

/// What is kept of a shake's material: the first pieces that there is room for,
/// each cut to its bound but with the size of the whole. A piece that is left out
/// leaves a note and nothing else.
pub proof fn law_first_pieces_are_kept(
    source: SourceView,
    content: Seq<char>,
    label: Seq<char>,
    path: Seq<char>,
)
    ensures
        ({
            let after = smart_compact::recorded(source, content, label, path);
            let cut = smart_compact::truncated(content, 760);
            let size = text::byte_len(label) + text::byte_len(path) + text::byte_len(cut);
            let fits = source.regions.len() < 16 && source.bytes + size <= 6_000;
            &&& fits ==> after.regions == source.regions.push(
                SourceRegionView { label, path, tokens: sizes::token_count(content), content: cut },
            ) && after.bytes == source.bytes + size && after.omitted == source.omitted
            &&& !fits ==> after.regions == source.regions && after.bytes == source.bytes
                && after.omitted
        }),
{
}

/// Every message to the model is one text of its own, marked as source material
/// and not as anything the user wrote.
pub proof fn law_messages_are_marked_as_source(input: InputView, i: int)
    requires
        0 <= i < input.texts.len(),
    ensures
        smart_compact::input_items(input).len() == input.texts.len(),
        ({
            let item = smart_compact::input_items(input)[i];
            &&& item is Message
            &&& item->Message_role == "user"@
            &&& item->Message_id is None
            &&& item->Message_phase is None
            &&& item->Message_content == seq![ContentItemView::InputText { text: input.texts[i] }]
            &&& item->Message_internal_chat_message_metadata_passthrough matches Some(noted)
                && noted.content_item_kinds == Some(seq!["compaction.smart_source"@])
        }),
{
}

} // verus!
