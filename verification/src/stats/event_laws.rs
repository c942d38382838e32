//! What is found in a log, and what follows it.

use vstd::prelude::*;
use vstd::string::*;

use crate::stats::cache::LogRowView;
use crate::stats::events;
use crate::stats::events::SamplingQueryView;
use crate::stats::events::ShakeEventView;
use crate::stats::fields;
use crate::text;

verus! {

/// The thread of a row is its own where it has one. Otherwise its message names
/// it, as `thread.id` or else as `thread_id`.
pub proof fn law_own_threads_come_first(row: LogRowView, message: Seq<char>)
    ensures
        row.thread_id is Some ==> events::thread_of(row) == row.thread_id,
        row.thread_id is None && row.message is None ==> events::thread_of(row) is None,
        row.thread_id is None && row.message == Some(message) && fields::field(
            message,
            "thread.id"@,
        ) is Some ==> events::thread_of(row) == fields::field(message, "thread.id"@),
        row.thread_id is None && row.message == Some(message) && fields::field(
            message,
            "thread.id"@,
        ) is None ==> events::thread_of(row) == fields::field(message, "thread_id"@),
{
}

/// A row tells of usage just where its message gives all five numbers, and then
/// of these.
pub proof fn law_usage_is_five_numbers(row: LogRowView, message: Seq<char>)
    requires
        row.message == Some(message),
    ensures
        match events::usage_of(row) {
            Some(usage) => {
                &&& fields::metric(message, "codex.turn.token_usage.input_tokens"@, false) == Some(
                    usage.input_tokens,
                )
                &&& fields::metric(message, "codex.turn.token_usage.cached_input_tokens"@, false)
                    == Some(usage.cached_input_tokens)
                &&& fields::metric(message, "codex.turn.token_usage.non_cached_input_tokens"@, false)
                    == Some(usage.non_cached_input_tokens)
                &&& fields::metric(
                    message,
                    "codex.turn.token_usage.cache_write_input_tokens"@,
                    false,
                ) == Some(usage.cache_write_input_tokens)
                &&& fields::metric(message, "codex.turn.token_usage.total_tokens"@, false) == Some(
                    usage.total_tokens,
                )
            },
            None => {
                ||| fields::metric(message, "codex.turn.token_usage.input_tokens"@, false) is None
                ||| fields::metric(
                    message,
                    "codex.turn.token_usage.cached_input_tokens"@,
                    false,
                ) is None
                ||| fields::metric(
                    message,
                    "codex.turn.token_usage.non_cached_input_tokens"@,
                    false,
                ) is None
                ||| fields::metric(
                    message,
                    "codex.turn.token_usage.cache_write_input_tokens"@,
                    false,
                ) is None
                ||| fields::metric(message, "codex.turn.token_usage.total_tokens"@, false) is None
            },
        },
{
}

/// A row that the shakes write, with their mark in its message.
pub open spec fn is_marked_as_shake(row: LogRowView) -> bool {
    &&& row.target == "codex_core::shake"@
    &&& row.message is Some
    &&& exists|i: int| #[trigger] text::occurs_at(row.message->0, "[shake]"@, i)
}

proof fn lemma_marked(row: LogRowView)
    ensures
        events::tells_of_shake(row) == is_marked_as_shake(row),
{
    if let Some(message) = row.message {
        text::lemma_find_from(message, "[shake]"@, 0);
        if let Some(i) = text::find(message, "[shake]"@) {
            assert(text::occurs_at(message, "[shake]"@, i));
        }
    }
}

/// `rows[places[k]]`, for each `k` in order, are the rows that count.
pub open spec fn picks(rows: Seq<LogRowView>, counts: spec_fn(LogRowView) -> bool, places: Seq<int>) -> bool {
    &&& forall|k: int|
        0 <= k < places.len() ==> 0 <= #[trigger] places[k] < rows.len() && counts(rows[places[k]])
    &&& forall|k: int, m: int|
        0 <= k < m < places.len() ==> #[trigger] places[k] < #[trigger] places[m]
    &&& forall|i: int|
        0 <= i < rows.len() && counts(#[trigger] rows[i]) ==> exists|k: int|
            0 <= k < places.len() && #[trigger] places[k] == i
}

/// The first `n` rows that count.
spec fn picks_first(
    rows: Seq<LogRowView>,
    counts: spec_fn(LogRowView) -> bool,
    places: Seq<int>,
    n: int,
) -> bool {
    &&& forall|k: int|
        0 <= k < places.len() ==> 0 <= #[trigger] places[k] < n && counts(rows[places[k]])
    &&& forall|k: int, m: int|
        0 <= k < m < places.len() ==> #[trigger] places[k] < #[trigger] places[m]
    &&& forall|i: int|
        0 <= i < n && counts(#[trigger] rows[i]) ==> exists|k: int|
            0 <= k < places.len() && #[trigger] places[k] == i
}

proof fn lemma_pick(
    rows: Seq<LogRowView>,
    counts: spec_fn(LogRowView) -> bool,
    places: Seq<int>,
    n: int,
)
    requires
        0 <= n < rows.len(),
        picks_first(rows, counts, places, n),
    ensures
        counts(rows[n]) ==> picks_first(rows, counts, places.push(n), n + 1),
        !counts(rows[n]) ==> picks_first(rows, counts, places, n + 1),
{
    if counts(rows[n]) {
        let more = places.push(n);
        assert forall|k: int| 0 <= k < more.len() implies 0 <= #[trigger] more[k] < n + 1 && counts(
            rows[more[k]],
        ) by {
            if k < places.len() {
                assert(more[k] == places[k]);
            }
        }
        assert forall|k: int, m: int| 0 <= k < m < more.len() implies #[trigger] more[k]
            < #[trigger] more[m] by {
            assert(more[k] == places[k]);
            if m < places.len() {
                assert(more[m] == places[m]);
            }
        }
        assert forall|i: int| 0 <= i < n + 1 && counts(#[trigger] rows[i]) implies exists|k: int|
            0 <= k < more.len() && #[trigger] more[k] == i by {
            if i == n {
                assert(more[places.len() as int] == i);
            } else {
                let k = choose|k: int| 0 <= k < places.len() && #[trigger] places[k] == i;
                assert(more[k] == i);
            }
        }
    }
}

/// A row that tells of a shake and of what it freed.
pub open spec fn reports_shake(row: LogRowView) -> bool {
    is_marked_as_shake(row) && fields::metric(row.message->0, "tokens_freed"@, false) is Some
}

/// Every row that tells of a shake and of what it freed is one shake, and no
/// other row is: in the order of the log, with what the row says.
pub proof fn law_every_shake_is_found(rows: Seq<LogRowView>) -> (places: Seq<int>)
    ensures
        picks(rows, |row: LogRowView| reports_shake(row), places),
        events::events_in(rows, rows.len() as int).len() == places.len(),
        forall|k: int|
            0 <= k < places.len() ==> says(
                rows[places[k]],
                #[trigger] events::events_in(rows, rows.len() as int)[k],
            ),
{
    lemma_found_shakes(rows, rows.len() as int)
}

/// A shake says what its row says.
pub open spec fn says(row: LogRowView, event: ShakeEventView) -> bool {
    &&& event.id == row.id
    &&& event.ts == row.ts
    &&& event.ts_nanos == row.ts_nanos
    &&& event.thread_id == events::thread_of(row)
    &&& fields::metric(row.message->0, "tokens_freed"@, false) == Some(event.tokens_freed)
    &&& match fields::field(row.message->0, "trigger"@) {
        Some(trigger) => event.trigger == trigger,
        None => event.trigger == "unknown"@,
    }
    &&& match fields::field(row.message->0, "turn.id"@) {
        Some(turn) => event.turn_id == Some(turn),
        None => event.turn_id == fields::field(row.message->0, "turn_id"@),
    }
    &&& event.cache_metadata.provider_id == fields::field(row.message->0, "provider_id"@)
    &&& event.cache_metadata.ttl_secs == fields::metric(row.message->0, "cache_ttl_secs"@, true)
    &&& event.cache_metadata.ttl_source == fields::field(row.message->0, "cache_ttl_source"@)
}

proof fn lemma_found_shakes(rows: Seq<LogRowView>, n: int) -> (places: Seq<int>)
    requires
        0 <= n <= rows.len(),
    ensures
        picks_first(rows, |row: LogRowView| reports_shake(row), places, n),
        events::events_in(rows, n).len() == places.len(),
        forall|k: int|
            0 <= k < places.len() ==> says(
                rows[places[k]],
                #[trigger] events::events_in(rows, n)[k],
            ),
    decreases n,
{
    let counts = |row: LogRowView| reports_shake(row);
    if n == 0 {
        Seq::empty()
    } else {
        let before = lemma_found_shakes(rows, n - 1);
        lemma_marked(rows[n - 1]);
        lemma_pick(rows, counts, before, n - 1);
        assert(counts(rows[n - 1]) == (events::event_at(rows, n - 1) is Some));
        if counts(rows[n - 1]) {
            let places = before.push(n - 1);
            let all = events::events_in(rows, n);
            assert forall|k: int| 0 <= k < places.len() implies says(
                rows[places[k]],
                #[trigger] all[k],
            ) by {
                if k < before.len() {
                    assert(all[k] == events::events_in(rows, n - 1)[k]);
                    assert(places[k] == before[k]);
                }
            }
            places
        } else {
            before
        }
    }
}

/// The model of a shake is the one that its thread named last, in the row of the
/// shake or before it; where none was named it is unknown.
pub proof fn law_shakes_have_the_last_named_model(rows: Seq<LogRowView>, i: int)
    requires
        0 <= i < rows.len(),
        events::event_at(rows, i) is Some,
    ensures
        ({
            let thread = events::thread_of(rows[i]);
            let model = events::event_at(rows, i)->0.model;
            ||| exists|j: int|
                0 <= j <= i && names(#[trigger] rows[j], thread, model) && forall|k: int|
                    j < k <= i ==> !names_any(#[trigger] rows[k], thread)
            ||| model == "unknown"@ && forall|k: int|
                0 <= k <= i ==> !names_any(#[trigger] rows[k], thread)
        }),
{
    lemma_model_before(rows, events::thread_of(rows[i]), i);
}

/// A row names a model in a thread.
pub open spec fn names(row: LogRowView, thread: Option<Seq<char>>, model: Seq<char>) -> bool {
    events::thread_of(row) == thread && row.message is Some && fields::field(
        row.message->0,
        "model"@,
    ) == Some(model)
}

/// A row names some model in a thread.
pub open spec fn names_any(row: LogRowView, thread: Option<Seq<char>>) -> bool {
    events::thread_of(row) == thread && row.message is Some && fields::field(
        row.message->0,
        "model"@,
    ) is Some
}

proof fn lemma_model_before(rows: Seq<LogRowView>, thread: Option<Seq<char>>, i: int)
    requires
        -1 <= i < rows.len(),
    ensures
        match events::model_before(rows, thread, i) {
            Some(model) => exists|j: int|
                0 <= j <= i && names(#[trigger] rows[j], thread, model) && forall|k: int|
                    j < k <= i ==> !names_any(#[trigger] rows[k], thread),
            None => forall|k: int| 0 <= k <= i ==> !names_any(#[trigger] rows[k], thread),
        },
    decreases i + 1,
{
    if i >= 0 {
        lemma_model_before(rows, thread, i - 1);
        if names_any(rows[i], thread) {
            let model = events::model_before(rows, thread, i)->0;
            assert(names(rows[i], thread, model));
        } else if let Some(model) = events::model_before(rows, thread, i - 1) {
            let j = choose|j: int|
                0 <= j <= i - 1 && names(#[trigger] rows[j], thread, model) && forall|k: int|
                    j < k <= i - 1 ==> !names_any(#[trigger] rows[k], thread);
            assert(names(rows[j], thread, model));
        }
    }
}

/// The next shake of a thread is the first one behind a place that belongs to
/// the thread.
pub proof fn law_next_shake_is_the_first_behind(
    found: Seq<ShakeEventView>,
    thread: Option<Seq<char>>,
    from: int,
)
    requires
        0 <= from <= found.len(),
    ensures
        match events::next_event_id(found, thread, from) {
            Some(id) => exists|k: int|
                from <= k < found.len() && (#[trigger] found[k]).id == id && found[k].thread_id
                    == thread && forall|j: int|
                    from <= j < k ==> (#[trigger] found[j]).thread_id != thread,
            None => forall|j: int|
                from <= j < found.len() ==> (#[trigger] found[j]).thread_id != thread,
        },
    decreases found.len() - from,
{
    if from < found.len() {
        if found[from].thread_id == thread {
            assert(found[from].id == events::next_event_id(found, thread, from)->0);
        } else {
            law_next_shake_is_the_first_behind(found, thread, from + 1);
            if let Some(id) = events::next_event_id(found, thread, from + 1) {
                let k = choose|k: int|
                    from + 1 <= k < found.len() && (#[trigger] found[k]).id == id
                        && found[k].thread_id == thread && forall|j: int|
                        from + 1 <= j < k ==> (#[trigger] found[j]).thread_id != thread;
                assert(found[k].id == id);
            }
        }
    }
}

/// A row with usage that comes after a shake, before the next one, and in the
/// same thread.
pub open spec fn counts_for(row: LogRowView, event: ShakeEventView, next: Option<i64>) -> bool {
    &&& events::usage_of(row) is Some
    &&& event.id < row.id
    &&& next is Some ==> row.id < next->0
    &&& events::thread_of(row) is Some
    &&& events::thread_of(row) == event.thread_id
}

/// The usage that counts for a shake is that of every row between it and the
/// next one of its thread, in the order of the log, and of no other.
pub proof fn law_usage_between_shakes_counts(
    rows: Seq<LogRowView>,
    event: ShakeEventView,
    next: Option<i64>,
) -> (places: Seq<int>)
    ensures
        picks(rows, |row: LogRowView| counts_for(row, event, next), places),
        events::usages_after(rows, event, next, rows.len() as int).len() == places.len(),
        forall|k: int|
            0 <= k < places.len() ==> events::usage_of(rows[places[k]]) == Some(
                #[trigger] events::usages_after(rows, event, next, rows.len() as int)[k],
            ),
{
    lemma_usages(rows, event, next, rows.len() as int)
}

proof fn lemma_usages(
    rows: Seq<LogRowView>,
    event: ShakeEventView,
    next: Option<i64>,
    n: int,
) -> (places: Seq<int>)
    requires
        0 <= n <= rows.len(),
    ensures
        picks_first(rows, |row: LogRowView| counts_for(row, event, next), places, n),
        events::usages_after(rows, event, next, n).len() == places.len(),
        forall|k: int|
            0 <= k < places.len() ==> events::usage_of(rows[places[k]]) == Some(
                #[trigger] events::usages_after(rows, event, next, n)[k],
            ),
    decreases n,
{
    let counts = |row: LogRowView| counts_for(row, event, next);
    if n == 0 {
        Seq::empty()
    } else {
        let before = lemma_usages(rows, event, next, n - 1);
        lemma_pick(rows, counts, before, n - 1);
        let earlier = events::usages_after(rows, event, next, n - 1);
        let all = events::usages_after(rows, event, next, n);
        if counts(rows[n - 1]) {
            let places = before.push(n - 1);
            assert forall|k: int| 0 <= k < places.len() implies events::usage_of(rows[places[k]])
                == Some(#[trigger] all[k]) by {
                if k < before.len() {
                    assert(all[k] == earlier[k]);
                    assert(places[k] == before[k]);
                }
            }
            places
        } else {
            assert(all == earlier);
            before
        }
    }
}

/// For every shake of the log the request before it is looked up, and for
/// nothing else: by the id of its row and in its thread.
pub proof fn law_every_shake_is_looked_up(rows: Seq<LogRowView>) -> (places: Seq<int>)
    ensures
        picks(rows, |row: LogRowView| is_marked_as_shake(row), places),
        events::queries_for(rows, rows.len() as int).len() == places.len(),
        forall|k: int|
            0 <= k < places.len() ==> #[trigger] events::queries_for(rows, rows.len() as int)[k]
                == (SamplingQueryView {
                shake_id: rows[places[k]].id,
                thread_id: events::thread_of(rows[places[k]]),
            }),
{
    lemma_queries(rows, rows.len() as int)
}

proof fn lemma_queries(rows: Seq<LogRowView>, n: int) -> (places: Seq<int>)
    requires
        0 <= n <= rows.len(),
    ensures
        picks_first(rows, |row: LogRowView| is_marked_as_shake(row), places, n),
        events::queries_for(rows, n).len() == places.len(),
        forall|k: int|
            0 <= k < places.len() ==> #[trigger] events::queries_for(rows, n)[k] == (
            SamplingQueryView {
                shake_id: rows[places[k]].id,
                thread_id: events::thread_of(rows[places[k]]),
            }),
    decreases n,
{
    let counts = |row: LogRowView| is_marked_as_shake(row);
    if n == 0 {
        Seq::empty()
    } else {
        let before = lemma_queries(rows, n - 1);
        lemma_marked(rows[n - 1]);
        lemma_pick(rows, counts, before, n - 1);
        let earlier = events::queries_for(rows, n - 1);
        let all = events::queries_for(rows, n);
        if counts(rows[n - 1]) {
            let places = before.push(n - 1);
            assert forall|k: int| 0 <= k < places.len() implies #[trigger] all[k] == (
            SamplingQueryView {
                shake_id: rows[places[k]].id,
                thread_id: events::thread_of(rows[places[k]]),
            }) by {
                if k < before.len() {
                    assert(all[k] == earlier[k]);
                    assert(places[k] == before[k]);
                }
            }
            places
        } else {
            before
        }
    }
}

} // verus!
