//! The shakes and the model's usage that the log tells of.

use vstd::prelude::*;
use vstd::string::*;

use crate::agent::context_policy;
use crate::stats::cache;
use crate::stats::cache::CacheMetadata;
use crate::stats::cache::CacheMetadataView;
use crate::stats::cache::LogRow;
use crate::stats::cache::LogRowView;
use crate::stats::fields;
use crate::text;

verus! {

/// The target of the rows that tell of a shake.
pub const SHAKE_TARGET: &'static str = "codex_core::shake";

/// A field of the message of a row.
pub open spec fn field_of(row: LogRowView, key: Seq<char>) -> Option<Seq<char>> {
    match row.message {
        Some(message) => fields::field(message, key),
        None => None,
    }
}

/// The thread that a row belongs to: its own, or one that its message names.
pub open spec fn thread_of(row: LogRowView) -> Option<Seq<char>> {
    match row.thread_id {
        Some(id) => Some(id),
        None => match field_of(row, "thread.id"@) {
            Some(id) => Some(id),
            None => field_of(row, "thread_id"@),
        },
    }
}

/// A field of the message of a row.
fn row_field(row: &LogRow, key: &str) -> (value: Option<String>)
    ensures
        value.deep_view() == field_of(row.deep_view(), key@),
{
    match &row.message {
        Some(message) => fields::parse_field(message.as_str(), key),
        None => None,
    }
}

/// The thread that a row belongs to.
pub fn effective_thread_id(row: &LogRow) -> (id: Option<String>)
    ensures
        id.deep_view() == thread_of(row.deep_view()),
{
    match &row.thread_id {
        Some(id) => Some(id.clone()),
        None => match row_field(row, "thread.id") {
            Some(id) => Some(id),
            None => row_field(row, "thread_id"),
        },
    }
}

/// Two texts that may be missing are the same.
pub fn same_optional(a: &Option<String>, b: &Option<String>) -> (r: bool)
    ensures
        r == (a.deep_view() == b.deep_view()),
{
    match (a, b) {
        (Some(a), Some(b)) => text::same_text(a.as_str(), b.as_str()),
        (None, None) => true,
        _ => false,
    }
}

/// The tokens of one request to the model.
#[derive(Clone, Copy, Debug, PartialEq, Eq, Structural)]
pub struct TokenUsage {
    pub input_tokens: i64,
    pub cached_input_tokens: i64,
    pub non_cached_input_tokens: i64,
    pub cache_write_input_tokens: i64,
    pub total_tokens: i64,
}

/// What a request wrote to the cache anew, as far as can be told.
pub open spec fn rewritten(usage: TokenUsage) -> int {
    let difference = usage.input_tokens - usage.cached_input_tokens;
    if usage.cache_write_input_tokens > 0 {
        usage.cache_write_input_tokens as int
    } else if usage.non_cached_input_tokens > 0 {
        usage.non_cached_input_tokens as int
    } else if difference <= 0 {
        0
    } else if difference > i64::MAX {
        i64::MAX as int
    } else {
        difference
    }
}

impl TokenUsage {
    /// What the request wrote to the cache anew, as far as can be told.
    pub fn cache_rewrite_burn_tokens(&self) -> (tokens: i64)
        ensures
            tokens == rewritten(*self),
    {
        if self.cache_write_input_tokens > 0 {
            self.cache_write_input_tokens
        } else if self.non_cached_input_tokens > 0 {
            self.non_cached_input_tokens
        } else {
            let difference = self.input_tokens as i128 - self.cached_input_tokens as i128;
            if difference <= 0 {
                0
            } else if difference > i64::MAX as i128 {
                i64::MAX
            } else {
                difference as i64
            }
        }
    }
}

/// The usage that a message tells of: all five numbers, or none.
pub open spec fn usage_in(message: Seq<char>) -> Option<TokenUsage> {
    match (
        fields::metric(message, "codex.turn.token_usage.input_tokens"@, false),
        fields::metric(message, "codex.turn.token_usage.cached_input_tokens"@, false),
        fields::metric(message, "codex.turn.token_usage.non_cached_input_tokens"@, false),
        fields::metric(message, "codex.turn.token_usage.cache_write_input_tokens"@, false),
        fields::metric(message, "codex.turn.token_usage.total_tokens"@, false),
    ) {
        (Some(input), Some(cached), Some(non_cached), Some(cache_write), Some(total)) => Some(
            TokenUsage {
                input_tokens: input,
                cached_input_tokens: cached,
                non_cached_input_tokens: non_cached,
                cache_write_input_tokens: cache_write,
                total_tokens: total,
            },
        ),
        _ => None,
    }
}

/// The usage that a row tells of.
pub open spec fn usage_of(row: LogRowView) -> Option<TokenUsage> {
    match row.message {
        Some(message) => usage_in(message),
        None => None,
    }
}

/// The usage that a row tells of.
pub fn parse_token_usage(row: &LogRow) -> (usage: Option<TokenUsage>)
    ensures
        usage == usage_of(row.deep_view()),
{
    match &row.message {
        Some(message) => {
            let message = message.as_str();
            match (
                fields::parse_metric(message, "codex.turn.token_usage.input_tokens"),
                fields::parse_metric(message, "codex.turn.token_usage.cached_input_tokens"),
                fields::parse_metric(message, "codex.turn.token_usage.non_cached_input_tokens"),
                fields::parse_metric(message, "codex.turn.token_usage.cache_write_input_tokens"),
                fields::parse_metric(message, "codex.turn.token_usage.total_tokens"),
            ) {
                (
                    Some(input_tokens),
                    Some(cached_input_tokens),
                    Some(non_cached_input_tokens),
                    Some(cache_write_input_tokens),
                    Some(total_tokens),
                ) => Some(
                    TokenUsage {
                        input_tokens,
                        cached_input_tokens,
                        non_cached_input_tokens,
                        cache_write_input_tokens,
                        total_tokens,
                    },
                ),
                _ => None,
            }
        },
        None => None,
    }
}

/// A row tells of a shake.
pub open spec fn tells_of_shake(row: LogRowView) -> bool {
    &&& row.target == SHAKE_TARGET@
    &&& row.message matches Some(message) && text::find(message, "[shake]"@) is Some
}

/// Whether a row tells of a shake.
pub fn is_shake_row(row: &LogRow) -> (r: bool)
    ensures
        r == tells_of_shake(row.deep_view()),
{
    match &row.message {
        Some(message) => {
            let chars = text::chars_of(message.as_str());
            text::same_text(row.target.as_str(), SHAKE_TARGET) && text::position_of(
                chars.as_slice(),
                "[shake]",
            ).is_some()
        },
        None => false,
    }
}

/// A shake, as the log tells of it.
#[derive(Debug, PartialEq, Eq)]
pub struct ShakeEvent {
    pub id: i64,
    pub ts: i64,
    pub ts_nanos: i64,
    pub thread_id: Option<String>,
    pub model: String,
    pub turn_id: Option<String>,
    pub trigger: String,
    pub tokens_freed: i64,
    pub cache_metadata: CacheMetadata,
}

/// The value of a [`ShakeEvent`].
pub struct ShakeEventView {
    pub id: i64,
    pub ts: i64,
    pub ts_nanos: i64,
    pub thread_id: Option<Seq<char>>,
    pub model: Seq<char>,
    pub turn_id: Option<Seq<char>>,
    pub trigger: Seq<char>,
    pub tokens_freed: i64,
    pub cache_metadata: CacheMetadataView,
}

impl DeepView for ShakeEvent {
    type V = ShakeEventView;

    open spec fn deep_view(&self) -> ShakeEventView {
        ShakeEventView {
            id: self.id,
            ts: self.ts,
            ts_nanos: self.ts_nanos,
            thread_id: self.thread_id.deep_view(),
            model: self.model@,
            turn_id: self.turn_id.deep_view(),
            trigger: self.trigger@,
            tokens_freed: self.tokens_freed,
            cache_metadata: self.cache_metadata.deep_view(),
        }
    }
}

/// A text, or `unknown` where there is none.
pub open spec fn known(value: Option<Seq<char>>) -> Seq<char> {
    match value {
        Some(value) => value,
        None => "unknown"@,
    }
}

/// The model that the rows up to `i` last named in a thread.
pub open spec fn model_before(rows: Seq<LogRowView>, thread: Option<Seq<char>>, i: int) -> Option<
    Seq<char>,
>
    decreases i + 1,
{
    if i < 0 || i >= rows.len() {
        None
    } else if thread_of(rows[i]) == thread && field_of(rows[i], "model"@) is Some {
        field_of(rows[i], "model"@)
    } else {
        model_before(rows, thread, i - 1)
    }
}

/// The shake that row `i` tells of.
pub open spec fn event_at(rows: Seq<LogRowView>, i: int) -> Option<ShakeEventView> {
    let row = rows[i];
    if tells_of_shake(row) {
        match fields::metric(row.message->0, "tokens_freed"@, false) {
            Some(tokens_freed) => Some(
                ShakeEventView {
                    id: row.id,
                    ts: row.ts,
                    ts_nanos: row.ts_nanos,
                    thread_id: thread_of(row),
                    model: known(model_before(rows, thread_of(row), i)),
                    turn_id: context_policy::first_given(
                        field_of(row, "turn.id"@),
                        field_of(row, "turn_id"@),
                    ),
                    trigger: known(field_of(row, "trigger"@)),
                    tokens_freed,
                    cache_metadata: cache::metadata_in(row.message),
                },
            ),
            None => None,
        }
    } else {
        None
    }
}

/// The shakes that the first `n` rows tell of.
pub open spec fn events_in(rows: Seq<LogRowView>, n: int) -> Seq<ShakeEventView>
    decreases n,
{
    if n <= 0 {
        Seq::empty()
    } else {
        match event_at(rows, n - 1) {
            Some(event) => events_in(rows, n - 1).push(event),
            None => events_in(rows, n - 1),
        }
    }
}

fn text_or_unknown(value: Option<String>) -> (r: String)
    ensures
        r@ == known(value.deep_view()),
{
    match value {
        Some(value) => value,
        None => "unknown".to_owned(),
    }
}

/// The model that the rows up to `i` last named in a thread.
fn find_model(rows: &[LogRow], thread: &Option<String>, i: usize) -> (model: Option<String>)
    requires
        i < rows@.len(),
    ensures
        model.deep_view() == model_before(rows.deep_view(), thread.deep_view(), i as int),
{
    let ghost views = rows.deep_view();
    let len = rows.len();
    let mut k: usize = i + 1;
    while k > 0
        invariant
            k <= i + 1 <= rows@.len(),
            views == rows.deep_view(),
            model_before(views, thread.deep_view(), i as int) == model_before(
                views,
                thread.deep_view(),
                k - 1,
            ),
        decreases k,
    {
        let row = &rows[k - 1];
        assert(views[k - 1] == row.deep_view());
        let id = effective_thread_id(row);
        if same_optional(&id, thread) {
            let model = row_field(row, "model");
            if model.is_some() {
                return model;
            }
        }
        k = k - 1;
    }
    None
}

/// The shake that row `i` tells of.
fn parse_shake(rows: &[LogRow], i: usize) -> (event: Option<ShakeEvent>)
    requires
        i < rows@.len(),
    ensures
        event.deep_view() == event_at(rows.deep_view(), i as int),
{
    let row = &rows[i];
    assert(rows.deep_view()[i as int] == row.deep_view());
    if !is_shake_row(row) {
        return None;
    }
    match &row.message {
        Some(message) => {
            let tokens_freed = match fields::parse_metric(message.as_str(), "tokens_freed") {
                Some(tokens_freed) => tokens_freed,
                None => {
                    return None;
                },
            };
            let thread_id = effective_thread_id(row);
            let model = find_model(rows, &thread_id, i);
            let turn_id = match row_field(row, "turn.id") {
                Some(turn_id) => Some(turn_id),
                None => row_field(row, "turn_id"),
            };
            Some(
                ShakeEvent {
                    id: row.id,
                    ts: row.ts,
                    ts_nanos: row.ts_nanos,
                    thread_id,
                    model: text_or_unknown(model),
                    turn_id,
                    trigger: text_or_unknown(row_field(row, "trigger")),
                    tokens_freed,
                    cache_metadata: cache::parse_cache_metadata(Some(message.as_str())),
                },
            )
        },
        None => None,
    }
}

/// The shakes that the log tells of.
pub fn shake_events(rows: &[LogRow]) -> (events: Vec<ShakeEvent>)
    ensures
        events.deep_view() == events_in(rows.deep_view(), rows@.len() as int),
{
    let mut events: Vec<ShakeEvent> = Vec::new();
    let ghost views = rows.deep_view();
    let mut i: usize = 0;
    assert(events.deep_view() =~= Seq::empty());
    while i < rows.len()
        invariant
            i <= rows@.len(),
            views == rows.deep_view(),
            events.deep_view() == events_in(views, i as int),
        decreases rows@.len() - i,
    {
        let ghost before = events.deep_view();
        match parse_shake(rows, i) {
            Some(event) => {
                let ghost told = event.deep_view();
                events.push(event);
                assert(events.deep_view() =~= before.push(told));
            },
            None => {},
        }
        i = i + 1;
    }
    events
}

/// The id of the next shake in the same thread, at or behind place `from`.
pub open spec fn next_event_id(
    events: Seq<ShakeEventView>,
    thread: Option<Seq<char>>,
    from: int,
) -> Option<i64>
    decreases events.len() - from,
{
    if from < 0 || from >= events.len() {
        None
    } else if events[from].thread_id == thread {
        Some(events[from].id)
    } else {
        next_event_id(events, thread, from + 1)
    }
}

/// The id of the next shake in the same thread.
pub fn next_shake_id(events: &Vec<ShakeEvent>, thread: &Option<String>, from: usize) -> (id: Option<
    i64,
>)
    requires
        from <= events@.len(),
    ensures
        id == next_event_id(events.deep_view(), thread.deep_view(), from as int),
{
    let ghost views = events.deep_view();
    let mut k: usize = from;
    while k < events.len()
        invariant
            k <= events@.len(),
            views == events.deep_view(),
            next_event_id(views, thread.deep_view(), from as int) == next_event_id(
                views,
                thread.deep_view(),
                k as int,
            ),
        decreases events@.len() - k,
    {
        assert(views[k as int] == events@[k as int].deep_view());
        if same_optional(&events[k].thread_id, thread) {
            return Some(events[k].id);
        }
        k = k + 1;
    }
    None
}

/// A row comes between a shake and the next one in its thread.
pub open spec fn follows(row: LogRowView, event: ShakeEventView, next: Option<i64>) -> bool {
    &&& row.id > event.id
    &&& next matches Some(id) ==> row.id < id
    &&& event.thread_id is Some
    &&& thread_of(row) == event.thread_id
}

/// The usage after a shake, as the first `n` rows tell it.
pub open spec fn usages_after(
    rows: Seq<LogRowView>,
    event: ShakeEventView,
    next: Option<i64>,
    n: int,
) -> Seq<TokenUsage>
    decreases n,
{
    if n <= 0 {
        Seq::empty()
    } else {
        let before = usages_after(rows, event, next, n - 1);
        match usage_of(rows[n - 1]) {
            Some(usage) if follows(rows[n - 1], event, next) => before.push(usage),
            _ => before,
        }
    }
}

/// The usage after a shake, before the next one in its thread.
pub fn following_usages(rows: &[LogRow], event: &ShakeEvent, next: Option<i64>) -> (usages: Vec<
    TokenUsage,
>)
    ensures
        usages@ == usages_after(rows.deep_view(), event.deep_view(), next, rows@.len() as int),
{
    let mut usages: Vec<TokenUsage> = Vec::new();
    let ghost views = rows.deep_view();
    let mut i: usize = 0;
    while i < rows.len()
        invariant
            i <= rows@.len(),
            views == rows.deep_view(),
            usages@ == usages_after(views, event.deep_view(), next, i as int),
        decreases rows@.len() - i,
    {
        let row = &rows[i];
        assert(views[i as int] == row.deep_view());
        let in_time = row.id > event.id && match next {
            Some(id) => row.id < id,
            None => true,
        };
        if in_time && event.thread_id.is_some() {
            let id = effective_thread_id(row);
            if same_optional(&id, &event.thread_id) {
                if let Some(usage) = parse_token_usage(row) {
                    usages.push(usage);
                }
            }
        }
        i = i + 1;
    }
    usages
}

/// A shake for which the request before it is to be looked up. Without a thread
/// there is nothing to look up.
#[derive(Debug, PartialEq, Eq)]
pub struct SamplingQuery {
    pub shake_id: i64,
    pub thread_id: Option<String>,
}

/// The value of a [`SamplingQuery`].
pub struct SamplingQueryView {
    pub shake_id: i64,
    pub thread_id: Option<Seq<char>>,
}

impl DeepView for SamplingQuery {
    type V = SamplingQueryView;

    open spec fn deep_view(&self) -> SamplingQueryView {
        SamplingQueryView { shake_id: self.shake_id, thread_id: self.thread_id.deep_view() }
    }
}

/// What is to be looked up for the first `n` rows.
pub open spec fn queries_for(rows: Seq<LogRowView>, n: int) -> Seq<SamplingQueryView>
    decreases n,
{
    if n <= 0 {
        Seq::empty()
    } else if tells_of_shake(rows[n - 1]) {
        queries_for(rows, n - 1).push(
            SamplingQueryView { shake_id: rows[n - 1].id, thread_id: thread_of(rows[n - 1]) },
        )
    } else {
        queries_for(rows, n - 1)
    }
}

/// What is to be looked up before a report can be made.
pub fn sampling_queries(rows: &[LogRow]) -> (queries: Vec<SamplingQuery>)
    ensures
        queries.deep_view() == queries_for(rows.deep_view(), rows@.len() as int),
{
    let mut queries: Vec<SamplingQuery> = Vec::new();
    let ghost views = rows.deep_view();
    let mut i: usize = 0;
    assert(queries.deep_view() =~= Seq::empty());
    while i < rows.len()
        invariant
            i <= rows@.len(),
            views == rows.deep_view(),
            queries.deep_view() == queries_for(views, i as int),
        decreases rows@.len() - i,
    {
        let row = &rows[i];
        assert(views[i as int] == row.deep_view());
        if is_shake_row(row) {
            let ghost before = queries.deep_view();
            let query = SamplingQuery { shake_id: row.id, thread_id: effective_thread_id(row) };
            let ghost told = query.deep_view();
            queries.push(query);
            assert(queries.deep_view() =~= before.push(told));
        }
        i = i + 1;
    }
    queries
}

/// A row follows at most one shake of a thread: of two shakes with their ids in
/// order, the later one bounds what follows the earlier.
pub proof fn law_usage_is_counted_once(
    rows: Seq<LogRowView>,
    row: LogRowView,
    earlier: int,
    later: int,
)
    requires
        ({
            let events = events_in(rows, rows.len() as int);
            &&& 0 <= earlier < later < events.len()
            &&& forall|i: int, j: int|
                0 <= i < j < events.len() ==> (#[trigger] events[i]).id < (#[trigger] events[j]).id
        }),
    ensures
        ({
            let events = events_in(rows, rows.len() as int);
            let first = events[earlier];
            let second = events[later];
            !(follows(row, first, next_event_id(events, first.thread_id, earlier + 1)) && follows(
                row,
                second,
                next_event_id(events, second.thread_id, later + 1),
            ))
        }),
{
    let events = events_in(rows, rows.len() as int);
    let first = events[earlier];
    if first.thread_id == events[later].thread_id {
        lemma_next_event_id(events, first.thread_id, earlier + 1, later);
    }
}

proof fn lemma_next_event_id(
    events: Seq<ShakeEventView>,
    thread: Option<Seq<char>>,
    from: int,
    later: int,
)
    requires
        0 <= from <= later < events.len(),
        events[later].thread_id == thread,
        forall|i: int, j: int|
            0 <= i < j < events.len() ==> (#[trigger] events[i]).id < (#[trigger] events[j]).id,
    ensures
        next_event_id(events, thread, from) matches Some(id) && id <= events[later].id,
    decreases later - from,
{
    if events[from].thread_id != thread {
        lemma_next_event_id(events, thread, from + 1, later);
    }
}

/// What follows a shake belongs to its thread.
pub proof fn law_usage_stays_in_its_thread(
    row: LogRowView,
    event: ShakeEventView,
    next: Option<i64>,
)
    requires
        follows(row, event, next),
    ensures
        thread_of(row) is Some,
        thread_of(row) == event.thread_id,
{
}

} // verus!
