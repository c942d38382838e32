//! The report on shakes: each one, all of them, and those of each model.

use vstd::prelude::*;
use vstd::string::*;

use std::collections::HashMap;

use crate::cache_staleness::CacheStaleness;
use crate::items;
use crate::shake::preview;
use crate::stats::cache;
use crate::stats::cache::CacheEvidenceView;
use crate::stats::cache::LogRow;
use crate::stats::cache::LogRowView;
use crate::stats::cache::SamplingTimestamp;
use crate::stats::events;
use crate::stats::events::ShakeEvent;
use crate::stats::events::ShakeEventView;
use crate::stats::events::TokenUsage;
use crate::text;

verus! {

/// What the numbers of a report mean.
pub const ESTIMATE_NOTE: &'static str =
    "Cache reads and total tokens are observed telemetry. Rewrite burn is a raw proxy for the first uncached follow-up input, not necessarily a provider cache-write charge. Incremental rewrite is zero when the cache is likely expired and otherwise uses that proxy; net is saved-input proxy minus incremental rewrite. Historical timestamp evidence has lower confidence than runtime clock evidence. Unknown-derived estimates are provisional, and no cache state guarantees a provider cache hit.";

/// A moment as RFC 3339 writes it, where there is such a moment.
pub uninterp spec fn rfc3339_text(secs: int, nanos: int) -> Option<Seq<char>>;

/// `chrono::DateTime::from_timestamp` gives the moment so many seconds and
/// nanoseconds after the epoch, if it is in range, and `to_rfc3339` writes it.
/// The text is a function of the two numbers.
#[verifier::external_body]
fn rfc3339(secs: i64, nanos: u32) -> (moment: Option<String>)
    ensures
        moment.deep_view() == rfc3339_text(secs as int, nanos as int),
{
    chrono::DateTime::<chrono::Utc>::from_timestamp(secs, nanos).map(|moment| moment.to_rfc3339())
}

/// `n` zeros.
pub open spec fn zeros(n: int) -> Seq<char>
    decreases n,
{
    if n <= 0 {
        Seq::empty()
    } else {
        zeros(n - 1).push('0')
    }
}

/// A number with zeros in front of its digits, so that it is at least so wide.
pub open spec fn zero_padded(n: int, width: int) -> Seq<char> {
    let sign = if n < 0 {
        "-"@
    } else {
        ""@
    };
    let digits = text::decimal(
        (if n < 0 {
            -n
        } else {
            n
        }) as nat,
    );
    sign + zeros(width - sign.len() - digits.len()) + digits
}

/// The text of a moment. One that is out of range is written as its numbers.
pub open spec fn timestamp_text(ts: int, ts_nanos: int) -> Seq<char> {
    let nanos = if 0 <= ts_nanos <= u32::MAX {
        ts_nanos
    } else {
        0
    };
    match rfc3339_text(ts, nanos) {
        Some(moment) => moment,
        None => text::signed_decimal(ts) + "."@ + zero_padded(ts_nanos, 9) + "Z"@,
    }
}

fn zero_padded_text(n: i64, width: usize) -> (r: String)
    ensures
        r@ == zero_padded(n as int, width as int),
{
    proof {
        reveal_strlit("-");
        reveal_strlit("");
    }
    let mut r = if n < 0 {
        "-".to_owned()
    } else {
        "".to_owned()
    };
    let magnitude: u64 = if n < 0 {
        (-(n as i128)) as u64
    } else {
        n as u64
    };
    let digits = text::decimal_text(magnitude);
    let used = text::chars_of(digits.as_str()).len() as u128 + (if n < 0 {
        1u128
    } else {
        0u128
    });
    let ghost sign = r@;
    let ghost count = width - sign.len() - digits@.len();
    let mut padded: u128 = used;
    assert(zeros(0) =~= Seq::empty());
    assert(r@ =~= sign + Seq::<char>::empty());
    if used >= width as u128 {
        assert(zeros(count) =~= Seq::empty());
    }
    while padded < width as u128
        invariant
            used <= padded,
            padded <= width || padded == used,
            used == sign.len() + digits@.len(),
            r@ == sign + zeros(padded - used),
        decreases width - padded,
    {
        r.push('0');
        padded = padded + 1;
        assert(r@ =~= sign + zeros(padded - used));
    }
    assert(zeros(count) == zeros(padded - used));
    r.append(digits.as_str());
    r
}

/// The text of a moment.
pub fn format_timestamp(ts: i64, ts_nanos: i64) -> (moment: String)
    ensures
        moment@ == timestamp_text(ts as int, ts_nanos as int),
{
    let nanos: u32 = if 0 <= ts_nanos && ts_nanos <= u32::MAX as i64 {
        ts_nanos as u32
    } else {
        0
    };
    match rfc3339(ts, nanos) {
        Some(moment) => moment,
        None => {
            let mut moment = text::signed_decimal_text(ts);
            moment.append(".");
            moment.append(zero_padded_text(ts_nanos, 9).as_str());
            moment.append("Z");
            moment
        },
    }
}

/// The start of the time that a report covers, so many days before now.
pub fn since_timestamp(now: i64, since_days: i64) -> (since: Result<i64, String>)
    ensures
        match since {
            Ok(since) => since_days >= 0 && since == clamped(now - since_days * 86_400),
            Err(message) => since_days < 0 && message@ == "--since-days must be non-negative"@,
        },
{
    if since_days < 0 {
        return Err("--since-days must be non-negative".to_owned());
    }
    Ok(clamp_tokens(now as i128 - since_days as i128 * 86_400))
}

/// A number, kept inside the range of a count.
pub open spec fn clamped(n: int) -> int {
    if n > i64::MAX {
        i64::MAX as int
    } else if n < i64::MIN {
        i64::MIN as int
    } else {
        n
    }
}

fn clamp_tokens(n: i128) -> (r: i64)
    ensures
        r == clamped(n as int),
{
    if n > i64::MAX as i128 {
        i64::MAX
    } else if n < i64::MIN as i128 {
        i64::MIN
    } else {
        n as i64
    }
}

/// The sum of two token counts.
pub open spec fn plus(a: i64, b: i64) -> i64 {
    preview::saturating_sum(a as int, b as int) as i64
}

/// The sum of two numbers of things.
pub open spec fn more(a: usize, b: usize) -> usize {
    text::capped((a + b) as nat) as usize
}

/// A token count, or none.
pub open spec fn or_zero(n: Option<i64>) -> i64 {
    match n {
        Some(n) => n,
        None => 0,
    }
}

/// How often a cache was found in each state.
#[derive(Clone, Copy, Debug, PartialEq, Eq, Structural)]
pub struct CacheStateCounts {
    pub warm: usize,
    pub likely_expired: usize,
    pub unknown: usize,
}

/// Counts with one more state.
pub open spec fn counted(counts: CacheStateCounts, state: CacheStaleness) -> CacheStateCounts {
    match state {
        CacheStaleness::Warm => CacheStateCounts { warm: more(counts.warm, 1), ..counts },
        CacheStaleness::LikelyExpired => CacheStateCounts {
            likely_expired: more(counts.likely_expired, 1),
            ..counts
        },
        CacheStaleness::Unknown => CacheStateCounts { unknown: more(counts.unknown, 1), ..counts },
    }
}

impl CacheStateCounts {
    fn add_state(&mut self, state: CacheStaleness)
        ensures
            *final(self) == counted(*old(self), state),
    {
        match state {
            CacheStaleness::Warm => {
                self.warm = self.warm.saturating_add(1);
            },
            CacheStaleness::LikelyExpired => {
                self.likely_expired = self.likely_expired.saturating_add(1);
            },
            CacheStaleness::Unknown => {
                self.unknown = self.unknown.saturating_add(1);
            },
        }
    }
}

/// One shake in a report.
#[derive(Debug, PartialEq, Eq)]
pub struct ShakeReport {
    pub timestamp: String,
    pub thread_id: Option<String>,
    pub turn_id: Option<String>,
    pub model: String,
    pub provider_id: Option<String>,
    pub trigger: String,
    pub tokens_freed: i64,
    pub cache_rewrite_burn_tokens: Option<i64>,
    pub cache_read_tokens: i64,
    pub quota_usage_tokens: i64,
    pub following_prompts_observed: usize,
    pub likely_saved_tokens: i64,
    pub raw_net_estimated_tokens: i64,
    pub incremental_cache_rewrite_tokens: i64,
    pub net_estimated_tokens: i64,
    pub cache_state: CacheStaleness,
    pub measured_idle_nanos: Option<u64>,
    pub cache_ttl_secs: Option<i64>,
    pub cache_ttl_source: Option<String>,
    pub previous_sampling_timestamp: Option<String>,
    pub evidence_source: Option<String>,
    pub evidence_confidence: Option<String>,
    pub unknown_reason: Option<String>,
    pub estimate_provisional: bool,
}

/// The value of a [`ShakeReport`].
pub struct ShakeReportView {
    pub timestamp: Seq<char>,
    pub thread_id: Option<Seq<char>>,
    pub turn_id: Option<Seq<char>>,
    pub model: Seq<char>,
    pub provider_id: Option<Seq<char>>,
    pub trigger: Seq<char>,
    pub tokens_freed: i64,
    pub cache_rewrite_burn_tokens: Option<i64>,
    pub cache_read_tokens: i64,
    pub quota_usage_tokens: i64,
    pub following_prompts_observed: usize,
    pub likely_saved_tokens: i64,
    pub raw_net_estimated_tokens: i64,
    pub incremental_cache_rewrite_tokens: i64,
    pub net_estimated_tokens: i64,
    pub cache_state: CacheStaleness,
    pub measured_idle_nanos: Option<u64>,
    pub cache_ttl_secs: Option<i64>,
    pub cache_ttl_source: Option<Seq<char>>,
    pub previous_sampling_timestamp: Option<Seq<char>>,
    pub evidence_source: Option<Seq<char>>,
    pub evidence_confidence: Option<Seq<char>>,
    pub unknown_reason: Option<Seq<char>>,
    pub estimate_provisional: bool,
}

impl DeepView for ShakeReport {
    type V = ShakeReportView;

    open spec fn deep_view(&self) -> ShakeReportView {
        ShakeReportView {
            timestamp: self.timestamp@,
            thread_id: self.thread_id.deep_view(),
            turn_id: self.turn_id.deep_view(),
            model: self.model@,
            provider_id: self.provider_id.deep_view(),
            trigger: self.trigger@,
            tokens_freed: self.tokens_freed,
            cache_rewrite_burn_tokens: self.cache_rewrite_burn_tokens,
            cache_read_tokens: self.cache_read_tokens,
            quota_usage_tokens: self.quota_usage_tokens,
            following_prompts_observed: self.following_prompts_observed,
            likely_saved_tokens: self.likely_saved_tokens,
            raw_net_estimated_tokens: self.raw_net_estimated_tokens,
            incremental_cache_rewrite_tokens: self.incremental_cache_rewrite_tokens,
            net_estimated_tokens: self.net_estimated_tokens,
            cache_state: self.cache_state,
            measured_idle_nanos: self.measured_idle_nanos,
            cache_ttl_secs: self.cache_ttl_secs,
            cache_ttl_source: self.cache_ttl_source.deep_view(),
            previous_sampling_timestamp: self.previous_sampling_timestamp.deep_view(),
            evidence_source: self.evidence_source.deep_view(),
            evidence_confidence: self.evidence_confidence.deep_view(),
            unknown_reason: self.unknown_reason.deep_view(),
            estimate_provisional: self.estimate_provisional,
        }
    }
}

/// What followed a shake: the first prompts after it, as many as are looked at.
#[derive(Clone, Copy, Debug, PartialEq, Eq, Structural)]
pub struct FollowUp {
    pub prompts: usize,
    pub cache_read_tokens: i64,
    pub quota_usage_tokens: i64,
    pub likely_saved_tokens: i64,
}

/// What a prompt saved: what the shake freed, but no more than the prompt held.
pub open spec fn saved_by(usage: TokenUsage, tokens_freed: i64) -> i64 {
    let input = if usage.input_tokens > 0 {
        usage.input_tokens
    } else {
        0
    };
    if tokens_freed < input {
        tokens_freed
    } else {
        input
    }
}

/// What followed a shake, from the first `n` prompts.
pub open spec fn follow_up(usages: Seq<TokenUsage>, tokens_freed: i64, n: nat) -> FollowUp
    decreases n,
{
    if n == 0 {
        FollowUp {
            prompts: 0,
            cache_read_tokens: 0,
            quota_usage_tokens: 0,
            likely_saved_tokens: 0,
        }
    } else {
        let before = follow_up(usages, tokens_freed, (n - 1) as nat);
        let usage = usages[n - 1];
        FollowUp {
            prompts: n as usize,
            cache_read_tokens: plus(before.cache_read_tokens, usage.cached_input_tokens),
            quota_usage_tokens: plus(before.quota_usage_tokens, usage.total_tokens),
            likely_saved_tokens: plus(before.likely_saved_tokens, saved_by(usage, tokens_freed)),
        }
    }
}

/// How many prompts are looked at.
pub open spec fn observed(usages: Seq<TokenUsage>, following_turns: usize) -> nat {
    if usages.len() < following_turns {
        usages.len()
    } else {
        following_turns as nat
    }
}

/// What the first prompt after a shake wrote to the cache anew.
pub open spec fn first_rewrite(usages: Seq<TokenUsage>) -> Option<i64> {
    if usages.len() == 0 {
        None
    } else {
        Some(events::rewritten(usages[0]) as i64)
    }
}

/// One shake in a report.
pub open spec fn report_of(
    event: ShakeEventView,
    usages: Seq<TokenUsage>,
    following_turns: usize,
    evidence: CacheEvidenceView,
) -> ShakeReportView {
    let after = follow_up(usages, event.tokens_freed, observed(usages, following_turns));
    let rewrite = first_rewrite(usages);
    let incremental = if evidence.state is LikelyExpired {
        0
    } else {
        or_zero(rewrite)
    };
    ShakeReportView {
        timestamp: timestamp_text(event.ts as int, event.ts_nanos as int),
        thread_id: event.thread_id,
        turn_id: event.turn_id,
        model: event.model,
        provider_id: event.cache_metadata.provider_id,
        trigger: event.trigger,
        tokens_freed: event.tokens_freed,
        cache_rewrite_burn_tokens: rewrite,
        cache_read_tokens: after.cache_read_tokens,
        quota_usage_tokens: after.quota_usage_tokens,
        following_prompts_observed: after.prompts,
        likely_saved_tokens: after.likely_saved_tokens,
        raw_net_estimated_tokens: clamped(after.likely_saved_tokens - or_zero(rewrite)) as i64,
        incremental_cache_rewrite_tokens: incremental,
        net_estimated_tokens: clamped(after.likely_saved_tokens - incremental) as i64,
        cache_state: evidence.state,
        measured_idle_nanos: evidence.measured_idle_nanos,
        cache_ttl_secs: evidence.ttl_secs,
        cache_ttl_source: evidence.ttl_source,
        previous_sampling_timestamp: match evidence.previous_sampling {
            Some(time) => Some(timestamp_text(time.ts as int, time.ts_nanos as int)),
            None => None,
        },
        evidence_source: match evidence.evidence_source {
            Some(_) => Some("historical_timestamp"@),
            None => None,
        },
        evidence_confidence: match evidence.evidence_source {
            Some(_) => Some("lower_than_runtime_clock"@),
            None => None,
        },
        unknown_reason: evidence.unknown_reason,
        estimate_provisional: evidence.state is Unknown,
    }
}

fn observe(usages: &Vec<TokenUsage>, tokens_freed: i64, following_turns: usize) -> (after: FollowUp)
    ensures
        after == follow_up(usages@, tokens_freed, observed(usages@, following_turns)),
{
    let mut after = FollowUp {
        prompts: 0,
        cache_read_tokens: 0,
        quota_usage_tokens: 0,
        likely_saved_tokens: 0,
    };
    let mut i: usize = 0;
    while i < usages.len() && i < following_turns
        invariant
            i <= usages@.len(),
            i <= following_turns,
            after == follow_up(usages@, tokens_freed, i as nat),
        decreases usages@.len() - i,
    {
        let usage = usages[i];
        let input = if usage.input_tokens > 0 {
            usage.input_tokens
        } else {
            0
        };
        let saved = if tokens_freed < input {
            tokens_freed
        } else {
            input
        };
        after = FollowUp {
            prompts: i + 1,
            cache_read_tokens: preview::add_tokens(
                after.cache_read_tokens,
                usage.cached_input_tokens,
            ),
            quota_usage_tokens: preview::add_tokens(after.quota_usage_tokens, usage.total_tokens),
            likely_saved_tokens: preview::add_tokens(after.likely_saved_tokens, saved),
        };
        i = i + 1;
    }
    after
}

fn optional_static(value: Option<&'static str>) -> (r: Option<String>)
    ensures
        r.deep_view() == (match value {
            Some(value) => Some(value@),
            None => None,
        }),
{
    match value {
        Some(value) => Some(value.to_owned()),
        None => None,
    }
}

/// The request before a shake, where one was found.
pub open spec fn sampling_time(sampling: Map<i64, Option<LogRow>>, id: i64) -> Option<
    SamplingTimestamp,
> {
    if sampling.contains_key(id) {
        match sampling[id] {
            Some(row) => Some(cache::time_of(row.deep_view())),
            None => None,
        }
    } else {
        None
    }
}

/// Shake `i` of a report.
pub open spec fn report_at(
    rows: Seq<LogRowView>,
    sampling: Map<i64, Option<LogRow>>,
    following_turns: usize,
    events: Seq<ShakeEventView>,
    i: int,
) -> ShakeReportView {
    let event = events[i];
    report_of(
        event,
        events::usages_after(
            rows,
            event,
            events::next_event_id(events, event.thread_id, i + 1),
            rows.len() as int,
        ),
        following_turns,
        cache::evidence_for(
            SamplingTimestamp { ts: event.ts, ts_nanos: event.ts_nanos },
            event.cache_metadata,
            sampling_time(sampling, event.id),
        ),
    )
}

/// The shakes of a report.
pub open spec fn shake_reports(
    rows: Seq<LogRowView>,
    sampling: Map<i64, Option<LogRow>>,
    following_turns: usize,
) -> Seq<ShakeReportView> {
    let events = events::events_in(rows, rows.len() as int);
    Seq::new(
        events.len(),
        |i: int| report_at(rows, sampling, following_turns, events, i),
    )
}

fn report_shake(
    rows: &[LogRow],
    sampling_rows: &HashMap<i64, Option<LogRow>>,
    following_turns: usize,
    shakes: &Vec<ShakeEvent>,
    i: usize,
) -> (report: ShakeReport)
    requires
        i < shakes@.len(),
    ensures
        report.deep_view() == report_at(
            rows.deep_view(),
            sampling_rows@,
            following_turns,
            shakes.deep_view(),
            i as int,
        ),
{
    broadcast use vstd::std_specs::hash::group_hash_axioms;

    let count = shakes.len();
    let shake = &shakes[i];
    assert(shakes.deep_view()[i as int] == shake.deep_view());
    let next = events::next_shake_id(shakes, &shake.thread_id, i + 1);
    let usages = events::following_usages(rows, shake, next);
    let after = observe(&usages, shake.tokens_freed, following_turns);
    let rewrite = if usages.len() == 0 {
        None
    } else {
        Some(usages[0].cache_rewrite_burn_tokens())
    };
    let previous = match sampling_rows.get(&shake.id) {
        Some(Some(row)) => Some(row),
        _ => None,
    };
    let evidence = cache::classify_at(
        SamplingTimestamp { ts: shake.ts, ts_nanos: shake.ts_nanos },
        &shake.cache_metadata,
        previous,
    );
    let raw: i64 = match rewrite {
        Some(tokens) => tokens,
        None => 0,
    };
    let incremental: i64 = match evidence.state {
        CacheStaleness::LikelyExpired => 0,
        _ => raw,
    };
    let provisional = match evidence.state {
        CacheStaleness::Unknown => true,
        _ => false,
    };
    ShakeReport {
        timestamp: format_timestamp(shake.ts, shake.ts_nanos),
        thread_id: items::clone_optional(&shake.thread_id),
        turn_id: items::clone_optional(&shake.turn_id),
        model: shake.model.clone(),
        provider_id: items::clone_optional(&shake.cache_metadata.provider_id),
        trigger: shake.trigger.clone(),
        tokens_freed: shake.tokens_freed,
        cache_rewrite_burn_tokens: rewrite,
        cache_read_tokens: after.cache_read_tokens,
        quota_usage_tokens: after.quota_usage_tokens,
        following_prompts_observed: after.prompts,
        likely_saved_tokens: after.likely_saved_tokens,
        raw_net_estimated_tokens: clamp_tokens(after.likely_saved_tokens as i128 - raw as i128),
        incremental_cache_rewrite_tokens: incremental,
        net_estimated_tokens: clamp_tokens(
            after.likely_saved_tokens as i128 - incremental as i128,
        ),
        cache_state: evidence.state,
        measured_idle_nanos: evidence.measured_idle_nanos,
        cache_ttl_secs: evidence.ttl_secs,
        cache_ttl_source: evidence.ttl_source,
        previous_sampling_timestamp: match evidence.previous_sampling {
            Some(time) => Some(format_timestamp(time.ts, time.ts_nanos)),
            None => None,
        },
        evidence_source: match evidence.evidence_source {
            Some(source) => Some(source.as_str().to_owned()),
            None => None,
        },
        evidence_confidence: match evidence.evidence_source {
            Some(source) => Some(source.confidence().to_owned()),
            None => None,
        },
        unknown_reason: optional_static(evidence.unknown_reason),
        estimate_provisional: provisional,
    }
}

/// The sums of a report.
#[derive(Clone, Copy, Debug, PartialEq, Eq, Structural)]
pub struct Totals {
    pub shakes: usize,
    pub tokens_freed: i64,
    pub cache_rewrite_burn_tokens: i64,
    pub cache_rewrite_requests: usize,
    pub cache_read_tokens: i64,
    pub quota_usage_tokens: i64,
    pub following_prompts_observed: usize,
    pub likely_saved_tokens: i64,
    pub net_estimated_tokens: i64,
    pub incremental_cache_rewrite_tokens: i64,
    pub provisional_estimates: usize,
    pub cache_state_counts: CacheStateCounts,
}

/// Sums of nothing.
pub open spec fn no_totals() -> Totals {
    Totals {
        shakes: 0,
        tokens_freed: 0,
        cache_rewrite_burn_tokens: 0,
        cache_rewrite_requests: 0,
        cache_read_tokens: 0,
        quota_usage_tokens: 0,
        following_prompts_observed: 0,
        likely_saved_tokens: 0,
        net_estimated_tokens: 0,
        incremental_cache_rewrite_tokens: 0,
        provisional_estimates: 0,
        cache_state_counts: CacheStateCounts { warm: 0, likely_expired: 0, unknown: 0 },
    }
}

/// One, where it holds.
pub open spec fn one_if(b: bool) -> usize {
    if b {
        1
    } else {
        0
    }
}

/// Sums with the usage of one more prompt.
pub open spec fn with_usage(totals: Totals, usage: TokenUsage) -> Totals {
    Totals {
        cache_read_tokens: plus(totals.cache_read_tokens, usage.cached_input_tokens),
        quota_usage_tokens: plus(totals.quota_usage_tokens, usage.total_tokens),
        ..totals
    }
}

/// Sums with one more shake.
pub open spec fn with_shake(totals: Totals, shake: ShakeReportView) -> Totals {
    Totals {
        shakes: more(totals.shakes, 1),
        tokens_freed: plus(totals.tokens_freed, shake.tokens_freed),
        cache_rewrite_burn_tokens: plus(
            totals.cache_rewrite_burn_tokens,
            or_zero(shake.cache_rewrite_burn_tokens),
        ),
        cache_rewrite_requests: more(
            totals.cache_rewrite_requests,
            one_if(shake.cache_rewrite_burn_tokens is Some),
        ),
        following_prompts_observed: more(
            totals.following_prompts_observed,
            shake.following_prompts_observed,
        ),
        likely_saved_tokens: plus(totals.likely_saved_tokens, shake.likely_saved_tokens),
        net_estimated_tokens: plus(totals.net_estimated_tokens, shake.net_estimated_tokens),
        incremental_cache_rewrite_tokens: plus(
            totals.incremental_cache_rewrite_tokens,
            shake.incremental_cache_rewrite_tokens,
        ),
        provisional_estimates: more(
            totals.provisional_estimates,
            one_if(shake.estimate_provisional),
        ),
        cache_state_counts: counted(totals.cache_state_counts, shake.cache_state),
        ..totals
    }
}

/// A name that `only` asks for: any, where it asks for none.
pub open spec fn is_asked(only: Option<Seq<char>>, model: Seq<char>) -> bool {
    match only {
        Some(name) => name == model,
        None => true,
    }
}

/// The model that a row names.
pub open spec fn model_of(row: LogRowView) -> Seq<char> {
    events::known(events::field_of(row, "model"@))
}

/// The sums of the usage in the first `n` rows, of one model or of all.
pub open spec fn usage_totals(rows: Seq<LogRowView>, only: Option<Seq<char>>, n: int) -> Totals
    decreases n,
{
    if n <= 0 {
        no_totals()
    } else {
        let before = usage_totals(rows, only, n - 1);
        match events::usage_of(rows[n - 1]) {
            Some(usage) if is_asked(only, model_of(rows[n - 1])) => with_usage(before, usage),
            _ => before,
        }
    }
}

/// The sums of the usage in all rows and of the first `n` shakes, of one model
/// or of all.
pub open spec fn totals_of(
    rows: Seq<LogRowView>,
    shakes: Seq<ShakeReportView>,
    only: Option<Seq<char>>,
    n: int,
) -> Totals
    decreases n,
{
    if n <= 0 {
        usage_totals(rows, only, rows.len() as int)
    } else {
        let before = totals_of(rows, shakes, only, n - 1);
        if is_asked(only, shakes[n - 1].model) {
            with_shake(before, shakes[n - 1])
        } else {
            before
        }
    }
}

impl Totals {
    fn new() -> (totals: Self)
        ensures
            totals == no_totals(),
    {
        Totals {
            shakes: 0,
            tokens_freed: 0,
            cache_rewrite_burn_tokens: 0,
            cache_rewrite_requests: 0,
            cache_read_tokens: 0,
            quota_usage_tokens: 0,
            following_prompts_observed: 0,
            likely_saved_tokens: 0,
            net_estimated_tokens: 0,
            incremental_cache_rewrite_tokens: 0,
            provisional_estimates: 0,
            cache_state_counts: CacheStateCounts { warm: 0, likely_expired: 0, unknown: 0 },
        }
    }

    fn add_usage(&mut self, usage: &TokenUsage)
        ensures
            *final(self) == with_usage(*old(self), *usage),
    {
        self.cache_read_tokens = preview::add_tokens(
            self.cache_read_tokens,
            usage.cached_input_tokens,
        );
        self.quota_usage_tokens = preview::add_tokens(self.quota_usage_tokens, usage.total_tokens);
    }

    fn add_shake(&mut self, shake: &ShakeReport)
        ensures
            *final(self) == with_shake(*old(self), shake.deep_view()),
    {
        self.shakes = self.shakes.saturating_add(1);
        self.tokens_freed = preview::add_tokens(self.tokens_freed, shake.tokens_freed);
        match shake.cache_rewrite_burn_tokens {
            Some(tokens) => {
                self.cache_rewrite_requests = self.cache_rewrite_requests.saturating_add(1);
                self.cache_rewrite_burn_tokens = preview::add_tokens(
                    self.cache_rewrite_burn_tokens,
                    tokens,
                );
            },
            None => {},
        }
        self.following_prompts_observed = self.following_prompts_observed.saturating_add(
            shake.following_prompts_observed,
        );
        self.likely_saved_tokens = preview::add_tokens(
            self.likely_saved_tokens,
            shake.likely_saved_tokens,
        );
        self.net_estimated_tokens = preview::add_tokens(
            self.net_estimated_tokens,
            shake.net_estimated_tokens,
        );
        self.incremental_cache_rewrite_tokens = preview::add_tokens(
            self.incremental_cache_rewrite_tokens,
            shake.incremental_cache_rewrite_tokens,
        );
        if shake.estimate_provisional {
            self.provisional_estimates = self.provisional_estimates.saturating_add(1);
        }
        self.cache_state_counts.add_state(shake.cache_state);
    }
}

/// The sums of one model.
#[derive(Debug, PartialEq, Eq)]
pub struct ModelStats {
    pub model: String,
    pub totals: Totals,
}

/// The value of a [`ModelStats`].
pub struct ModelStatsView {
    pub model: Seq<char>,
    pub totals: Totals,
}

impl DeepView for ModelStats {
    type V = ModelStatsView;

    open spec fn deep_view(&self) -> ModelStatsView {
        ModelStatsView { model: self.model@, totals: self.totals }
    }
}

/// The models are in the order of their names, each once.
pub open spec fn in_order(models: Seq<ModelStatsView>) -> bool {
    forall|i: int, j: int|
        0 <= i < j < models.len() ==> text::lex_before(
            (#[trigger] models[i]).model,
            (#[trigger] models[j]).model,
        )
}

/// The list has a model.
pub open spec fn has_model(models: Seq<ModelStatsView>, name: Seq<char>) -> bool {
    exists|i: int| 0 <= i < models.len() && (#[trigger] models[i]).model == name
}

/// A model is named by the usage in the first `n` rows.
pub open spec fn names_usage(rows: Seq<LogRowView>, name: Seq<char>, n: int) -> bool {
    exists|i: int|
        0 <= i < n && events::usage_of(#[trigger] rows[i]) is Some && model_of(rows[i]) == name
}

/// A model is named by one of the first `n` shakes.
pub open spec fn names_shake(shakes: Seq<ShakeReportView>, name: Seq<char>, n: int) -> bool {
    exists|i: int| 0 <= i < n && (#[trigger] shakes[i]).model == name
}

/// The models of a report: each that has usage or a shake, with its sums.
pub open spec fn are_models(
    models: Seq<ModelStatsView>,
    rows: Seq<LogRowView>,
    shakes: Seq<ShakeReportView>,
) -> bool {
    &&& in_order(models)
    &&& forall|i: int|
        0 <= i < models.len() ==> (#[trigger] models[i]).totals == totals_of(
            rows,
            shakes,
            Some(models[i].model),
            shakes.len() as int,
        )
    &&& forall|name: Seq<char>| #[trigger]
        has_model(models, name) == (names_usage(rows, name, rows.len() as int) || names_shake(
            shakes,
            name,
            shakes.len() as int,
        ))
}

/// `now` is `before`, with the model `name` at place `i`: it was there, or it
/// was put there without any sums.
pub open spec fn found_or_added(
    before: Seq<ModelStatsView>,
    now: Seq<ModelStatsView>,
    name: Seq<char>,
    i: int,
) -> bool {
    &&& 0 <= i < now.len() && now[i].model == name
    &&& in_order(now)
    &&& now == before || (!has_model(before, name) && 0 <= i <= before.len() && now
        == before.insert(i, ModelStatsView { model: name, totals: no_totals() }))
}

fn text_before(a: &str, b: &str) -> (r: bool)
    ensures
        r == text::lex_before(a@, b@),
{
    let a = text::chars_of(a);
    let b = text::chars_of(b);
    text::is_before(a.as_slice(), b.as_slice())
}

/// The place of a model, which is added where it is missing.
fn entry(models: &mut Vec<ModelStats>, name: &str) -> (i: usize)
    requires
        in_order(old(models).deep_view()),
    ensures
        found_or_added(old(models).deep_view(), final(models).deep_view(), name@, i as int),
{
    let ghost before = models.deep_view();
    let mut i: usize = 0;
    while i < models.len() && text_before(models[i].model.as_str(), name)
        invariant
            i <= models@.len(),
            before == models.deep_view(),
            forall|k: int| 0 <= k < i ==> text::lex_before((#[trigger] before[k]).model, name@),
        decreases models@.len() - i,
    {
        assert(before[i as int] == models@[i as int].deep_view());
        i = i + 1;
    }
    if i < models.len() {
        assert(before[i as int] == models@[i as int].deep_view());
        if text::same_text(models[i].model.as_str(), name) {
            return i;
        }
    }
    proof {
        assert forall|k: int| i <= k < before.len() implies text::lex_before(
            name@,
            (#[trigger] before[k]).model,
        ) by {
            text::lemma_lex_before_total(before[i as int].model, name@);
            if i < k {
                text::lemma_lex_before_transitive(name@, before[i as int].model, before[k].model);
            }
        }
        assert forall|k: int| 0 <= k < before.len() implies (#[trigger] before[k]).model
            != name@ by {
            text::lemma_lex_before_irreflexive(name@);
        }
    }
    let added = ModelStats { model: name.to_owned(), totals: Totals::new() };
    let ghost told = added.deep_view();
    models.insert(i, added);
    proof {
        let now = models.deep_view();
        assert(now =~= before.insert(i as int, told));
        assert forall|a: int, b: int| 0 <= a < b < now.len() implies text::lex_before(
            (#[trigger] now[a]).model,
            (#[trigger] now[b]).model,
        ) by {
            let x = if a < i {
                a
            } else {
                a - 1
            };
            let y = if b < i {
                b
            } else {
                b - 1
            };
            if a == i {
                assert(now[b] == before[y]);
            } else if b == i {
                assert(now[a] == before[x]);
            } else {
                assert(now[a] == before[x]);
                assert(now[b] == before[y]);
            }
        }
    }
    i
}

/// The models of the usage in the first `n` rows, with their sums.
spec fn tallied_usage(models: Seq<ModelStatsView>, rows: Seq<LogRowView>, n: int) -> bool {
    &&& in_order(models)
    &&& forall|i: int|
        0 <= i < models.len() ==> (#[trigger] models[i]).totals == usage_totals(
            rows,
            Some(models[i].model),
            n,
        )
    &&& forall|name: Seq<char>| #[trigger]
        has_model(models, name) == names_usage(rows, name, n)
}

/// The models of the usage and of the first `n` shakes, with their sums.
spec fn tallied_shakes(
    models: Seq<ModelStatsView>,
    rows: Seq<LogRowView>,
    shakes: Seq<ShakeReportView>,
    n: int,
) -> bool {
    &&& in_order(models)
    &&& forall|i: int|
        0 <= i < models.len() ==> (#[trigger] models[i]).totals == totals_of(
            rows,
            shakes,
            Some(models[i].model),
            n,
        )
    &&& forall|name: Seq<char>| #[trigger]
        has_model(models, name) == (names_usage(rows, name, rows.len() as int) || names_shake(
            shakes,
            name,
            n,
        ))
}

proof fn lemma_unnamed_usage(rows: Seq<LogRowView>, name: Seq<char>, n: int)
    requires
        0 <= n <= rows.len(),
        !names_usage(rows, name, n),
    ensures
        usage_totals(rows, Some(name), n) == no_totals(),
    decreases n,
{
    if n > 0 {
        assert(!names_usage(rows, name, n - 1)) by {
            if names_usage(rows, name, n - 1) {
                let i = choose|i: int|
                    0 <= i < n - 1 && events::usage_of(#[trigger] rows[i]) is Some && model_of(
                        rows[i],
                    ) == name;
                assert(events::usage_of(rows[i]) is Some);
            }
        }
        lemma_unnamed_usage(rows, name, n - 1);
        assert(!(events::usage_of(rows[n - 1]) is Some && model_of(rows[n - 1]) == name));
    }
}

proof fn lemma_unnamed(
    rows: Seq<LogRowView>,
    shakes: Seq<ShakeReportView>,
    name: Seq<char>,
    n: int,
)
    requires
        0 <= n <= shakes.len(),
        !names_usage(rows, name, rows.len() as int),
        !names_shake(shakes, name, n),
    ensures
        totals_of(rows, shakes, Some(name), n) == no_totals(),
    decreases n,
{
    if n > 0 {
        assert(!names_shake(shakes, name, n - 1)) by {
            if names_shake(shakes, name, n - 1) {
                let i = choose|i: int| 0 <= i < n - 1 && (#[trigger] shakes[i]).model == name;
                assert(shakes[i].model == name);
            }
        }
        assert(shakes[n - 1].model != name);
        lemma_unnamed(rows, shakes, name, n - 1);
    } else {
        lemma_unnamed_usage(rows, name, rows.len() as int);
    }
}

/// What `found_or_added` leaves of a list: its names and the new one, and the
/// sums that they had.
proof fn lemma_found_or_added(
    before: Seq<ModelStatsView>,
    now: Seq<ModelStatsView>,
    name: Seq<char>,
    at: int,
)
    requires
        found_or_added(before, now, name, at),
    ensures
        forall|other: Seq<char>| #[trigger]
            has_model(now, other) == (has_model(before, other) || other == name),
        forall|i: int|
            0 <= i < now.len() ==> (exists|k: int|
                0 <= k < before.len() && before[k] == #[trigger] now[i]) || (!has_model(
                before,
                name,
            ) && now[i] == (ModelStatsView { model: name, totals: no_totals() })),
        forall|i: int| 0 <= i < now.len() && i != at ==> (#[trigger] now[i]).model != name,
{
    text::lemma_lex_before_irreflexive(name);
    assert forall|other: Seq<char>| #[trigger] has_model(now, other) == (has_model(before, other)
        || other == name) by {
        if has_model(before, other) {
            let k = choose|k: int| 0 <= k < before.len() && (#[trigger] before[k]).model == other;
            if now == before {
                assert(now[k].model == other);
            } else if k < at {
                assert(now[k] == before[k]);
            } else {
                assert(now[k + 1] == before[k]);
            }
        }
        if other == name {
            assert(now[at].model == other);
        }
        if has_model(now, other) && other != name && now != before {
            let i = choose|i: int| 0 <= i < now.len() && (#[trigger] now[i]).model == other;
            if i < at {
                assert(before[i] == now[i]);
            } else {
                assert(before[i - 1] == now[i]);
            }
        }
    }
    assert forall|i: int| 0 <= i < now.len() implies (exists|k: int|
        0 <= k < before.len() && before[k] == #[trigger] now[i]) || (!has_model(before, name)
        && now[i] == (ModelStatsView { model: name, totals: no_totals() })) by {
        if now == before {
            assert(before[i] == now[i]);
        } else if i < at {
            assert(before[i] == now[i]);
        } else if i > at {
            assert(before[i - 1] == now[i]);
        }
    }
}

proof fn lemma_same_names(
    now: Seq<ModelStatsView>,
    after: Seq<ModelStatsView>,
    at: int,
    totals: Totals,
)
    requires
        0 <= at < now.len(),
        in_order(now),
        after == now.update(at, ModelStatsView { model: now[at].model, totals }),
    ensures
        in_order(after),
        forall|name: Seq<char>| #[trigger] has_model(after, name) == has_model(now, name),
{
    assert forall|i: int| 0 <= i < now.len() implies (#[trigger] after[i]).model
        == now[i].model by {}
    assert forall|name: Seq<char>| #[trigger] has_model(after, name) == has_model(now, name) by {
        if has_model(now, name) {
            let i = choose|i: int| 0 <= i < now.len() && (#[trigger] now[i]).model == name;
            assert(after[i].model == name);
        }
        if has_model(after, name) {
            let i = choose|i: int| 0 <= i < after.len() && (#[trigger] after[i]).model == name;
            assert(now[i].model == name);
        }
    }
}

proof fn lemma_usage_step(
    rows: Seq<LogRowView>,
    n: int,
    before: Seq<ModelStatsView>,
    now: Seq<ModelStatsView>,
    at: int,
    usage: TokenUsage,
)
    requires
        0 <= n < rows.len(),
        tallied_usage(before, rows, n),
        events::usage_of(rows[n]) == Some(usage),
        found_or_added(before, now, model_of(rows[n]), at),
    ensures
        tallied_usage(
            now.update(
                at,
                ModelStatsView {
                    model: model_of(rows[n]),
                    totals: with_usage(now[at].totals, usage),
                },
            ),
            rows,
            n + 1,
        ),
{
    let name = model_of(rows[n]);
    let totals = with_usage(now[at].totals, usage);
    let after = now.update(at, ModelStatsView { model: name, totals });
    lemma_found_or_added(before, now, name, at);
    lemma_same_names(now, after, at, totals);
    assert forall|i: int| 0 <= i < now.len() implies (#[trigger] now[i]).totals == usage_totals(
        rows,
        Some(now[i].model),
        n,
    ) by {
        if !(exists|k: int| 0 <= k < before.len() && before[k] == now[i]) {
            lemma_unnamed_usage(rows, name, n);
        }
    }
    assert forall|i: int| 0 <= i < after.len() implies (#[trigger] after[i]).totals
        == usage_totals(rows, Some(after[i].model), n + 1) by {
        assert(now[i].totals == usage_totals(rows, Some(now[i].model), n));
    }
    assert forall|other: Seq<char>| #[trigger] has_model(after, other) == names_usage(
        rows,
        other,
        n + 1,
    ) by {
        if names_usage(rows, other, n) {
            let i = choose|i: int|
                0 <= i < n && events::usage_of(#[trigger] rows[i]) is Some && model_of(rows[i])
                    == other;
            assert(events::usage_of(rows[i]) is Some);
        }
        if other == name {
            assert(events::usage_of(rows[n]) is Some);
        }
        if names_usage(rows, other, n + 1) && other != name {
            let i = choose|i: int|
                0 <= i < n + 1 && events::usage_of(#[trigger] rows[i]) is Some && model_of(rows[i])
                    == other;
            assert(i < n);
            assert(names_usage(rows, other, n));
        }
        assert(has_model(now, other) == (has_model(before, other) || other == name));
    }
}

proof fn lemma_no_usage_step(rows: Seq<LogRowView>, n: int, models: Seq<ModelStatsView>)
    requires
        0 <= n < rows.len(),
        tallied_usage(models, rows, n),
        events::usage_of(rows[n]) is None,
    ensures
        tallied_usage(models, rows, n + 1),
{
    assert forall|other: Seq<char>| #[trigger] has_model(models, other) == names_usage(
        rows,
        other,
        n + 1,
    ) by {
        if names_usage(rows, other, n) {
            let i = choose|i: int|
                0 <= i < n && events::usage_of(#[trigger] rows[i]) is Some && model_of(rows[i])
                    == other;
            assert(events::usage_of(rows[i]) is Some);
        }
        if names_usage(rows, other, n + 1) {
            let i = choose|i: int|
                0 <= i < n + 1 && events::usage_of(#[trigger] rows[i]) is Some && model_of(rows[i])
                    == other;
            assert(i < n);
            assert(names_usage(rows, other, n));
        }
    }
    assert forall|i: int| 0 <= i < models.len() implies (#[trigger] models[i]).totals
        == usage_totals(rows, Some(models[i].model), n + 1) by {}
}

proof fn lemma_shake_step(
    rows: Seq<LogRowView>,
    shakes: Seq<ShakeReportView>,
    n: int,
    before: Seq<ModelStatsView>,
    now: Seq<ModelStatsView>,
    at: int,
)
    requires
        0 <= n < shakes.len(),
        tallied_shakes(before, rows, shakes, n),
        found_or_added(before, now, shakes[n].model, at),
    ensures
        tallied_shakes(
            now.update(
                at,
                ModelStatsView {
                    model: shakes[n].model,
                    totals: with_shake(now[at].totals, shakes[n]),
                },
            ),
            rows,
            shakes,
            n + 1,
        ),
{
    let name = shakes[n].model;
    let totals = with_shake(now[at].totals, shakes[n]);
    let after = now.update(at, ModelStatsView { model: name, totals });
    lemma_found_or_added(before, now, name, at);
    lemma_same_names(now, after, at, totals);
    assert forall|i: int| 0 <= i < now.len() implies (#[trigger] now[i]).totals == totals_of(
        rows,
        shakes,
        Some(now[i].model),
        n,
    ) by {
        if !(exists|k: int| 0 <= k < before.len() && before[k] == now[i]) {
            lemma_unnamed(rows, shakes, name, n);
        }
    }
    assert forall|i: int| 0 <= i < after.len() implies (#[trigger] after[i]).totals == totals_of(
        rows,
        shakes,
        Some(after[i].model),
        n + 1,
    ) by {
        assert(now[i].totals == totals_of(rows, shakes, Some(now[i].model), n));
    }
    assert forall|other: Seq<char>| #[trigger] has_model(after, other) == (names_usage(
        rows,
        other,
        rows.len() as int,
    ) || names_shake(shakes, other, n + 1)) by {
        if names_shake(shakes, other, n) {
            let i = choose|i: int| 0 <= i < n && (#[trigger] shakes[i]).model == other;
            assert(shakes[i].model == other);
        }
        if other == name {
            assert(shakes[n].model == other);
        }
        if names_shake(shakes, other, n + 1) && other != name {
            let i = choose|i: int| 0 <= i < n + 1 && (#[trigger] shakes[i]).model == other;
            assert(i < n);
            assert(names_shake(shakes, other, n));
        }
        assert(has_model(now, other) == (has_model(before, other) || other == name));
    }
}

/// A report on the shakes in the log.
#[derive(Debug, PartialEq, Eq)]
pub struct Report {
    pub since: String,
    pub following_turns: usize,
    pub estimate_note: &'static str,
    pub totals: Totals,
    pub models: Vec<ModelStats>,
    pub shakes: Vec<ShakeReport>,
}

/// `report` is the report on the rows of a log.
pub open spec fn is_report(
    report: Report,
    rows: Seq<LogRowView>,
    sampling: Map<i64, Option<LogRow>>,
    since_ts: i64,
    following_turns: usize,
) -> bool {
    let shakes = shake_reports(rows, sampling, following_turns);
    &&& report.since@ == timestamp_text(since_ts as int, 0)
    &&& report.following_turns == following_turns
    &&& report.estimate_note@ == ESTIMATE_NOTE@
    &&& report.shakes.deep_view() == shakes
    &&& report.totals == totals_of(rows, shakes, None, shakes.len() as int)
    &&& are_models(report.models.deep_view(), rows, shakes)
}

fn row_model(row: &LogRow) -> (model: String)
    ensures
        model@ == model_of(row.deep_view()),
{
    let found = match &row.message {
        Some(message) => crate::stats::fields::parse_field(message.as_str(), "model"),
        None => None,
    };
    match found {
        Some(model) => model,
        None => "unknown".to_owned(),
    }
}

fn tally_usage(rows: &[LogRow]) -> (r: (Totals, Vec<ModelStats>))
    ensures
        r.0 == usage_totals(rows.deep_view(), None, rows@.len() as int),
        tallied_usage(r.1.deep_view(), rows.deep_view(), rows@.len() as int),
{
    let mut totals = Totals::new();
    let mut models: Vec<ModelStats> = Vec::new();
    let ghost views = rows.deep_view();
    assert(models.deep_view() =~= Seq::empty());
    let mut i: usize = 0;
    while i < rows.len()
        invariant
            i <= rows@.len(),
            views == rows.deep_view(),
            totals == usage_totals(views, None, i as int),
            tallied_usage(models.deep_view(), views, i as int),
        decreases rows@.len() - i,
    {
        let row = &rows[i];
        assert(views[i as int] == row.deep_view());
        let ghost before = models.deep_view();
        match events::parse_token_usage(row) {
            Some(usage) => {
                let name = row_model(row);
                let at = entry(&mut models, name.as_str());
                let ghost now = models.deep_view();
                totals.add_usage(&usage);
                let mut sums = models[at].totals;
                assert(now[at as int].totals == sums);
                sums.add_usage(&usage);
                models[at].totals = sums;
                proof {
                    assert(models.deep_view() =~= now.update(
                        at as int,
                        ModelStatsView {
                            model: name@,
                            totals: with_usage(now[at as int].totals, usage),
                        },
                    ));
                    lemma_usage_step(views, i as int, before, now, at as int, usage);
                }
            },
            None => {
                proof {
                    lemma_no_usage_step(views, i as int, before);
                }
            },
        }
        i = i + 1;
    }
    (totals, models)
}

/// The report on the shakes in the log. `sampling_rows` gives, for the id of a
/// shake, the row of the last request before it.
pub fn build_report_with_sampling(
    rows: &[LogRow],
    sampling_rows: &HashMap<i64, Option<LogRow>>,
    since_ts: i64,
    following_turns: usize,
) -> (report: Report)
    ensures
        is_report(report, rows.deep_view(), sampling_rows@, since_ts, following_turns),
{
    let ghost views = rows.deep_view();
    let found = events::shake_events(rows);
    let ghost wanted = shake_reports(views, sampling_rows@, following_turns);
    let mut shakes: Vec<ShakeReport> = Vec::new();
    let mut i: usize = 0;
    assert(shakes.deep_view() =~= wanted.take(0));
    while i < found.len()
        invariant
            i <= found@.len(),
            views == rows.deep_view(),
            found.deep_view() == events::events_in(views, views.len() as int),
            wanted == shake_reports(views, sampling_rows@, following_turns),
            shakes.deep_view() == wanted.take(i as int),
        decreases found@.len() - i,
    {
        let shake = report_shake(rows, sampling_rows, following_turns, &found, i);
        let ghost before = shakes.deep_view();
        let ghost told = shake.deep_view();
        assert(told == wanted[i as int]);
        shakes.push(shake);
        assert(shakes.deep_view() =~= before.push(told));
        assert(wanted.take(i + 1) =~= wanted.take(i as int).push(wanted[i as int]));
        i = i + 1;
    }
    assert(shakes.deep_view() =~= wanted);
    let (mut totals, mut models) = tally_usage(rows);
    let mut k: usize = 0;
    assert(tallied_shakes(models.deep_view(), views, wanted, 0)) by {
        assert forall|name: Seq<char>| !names_shake(wanted, name, 0) by {}
    }
    while k < shakes.len()
        invariant
            k <= shakes@.len(),
            shakes.deep_view() == wanted,
            totals == totals_of(views, wanted, None, k as int),
            tallied_shakes(models.deep_view(), views, wanted, k as int),
        decreases shakes@.len() - k,
    {
        let shake = &shakes[k];
        assert(wanted[k as int] == shake.deep_view());
        let ghost before = models.deep_view();
        let at = entry(&mut models, shake.model.as_str());
        let ghost now = models.deep_view();
        totals.add_shake(shake);
        let mut sums = models[at].totals;
        assert(now[at as int].totals == sums);
        sums.add_shake(shake);
        models[at].totals = sums;
        proof {
            assert(models.deep_view() =~= now.update(
                at as int,
                ModelStatsView {
                    model: shake.model@,
                    totals: with_shake(now[at as int].totals, wanted[k as int]),
                },
            ));
            lemma_shake_step(views, wanted, k as int, before, now, at as int);
        }
        k = k + 1;
    }
    Report {
        since: format_timestamp(since_ts, 0),
        following_turns,
        estimate_note: ESTIMATE_NOTE,
        totals,
        models,
        shakes,
    }
}

/// The report on the shakes in the log, where nothing is known of the requests
/// before them.
pub fn build_report(rows: &[LogRow], since_ts: i64, following_turns: usize) -> (report: Report)
    ensures
        is_report(
            report,
            rows.deep_view(),
            Map::<i64, Option<LogRow>>::empty(),
            since_ts,
            following_turns,
        ),
{
    let sampling_rows: HashMap<i64, Option<LogRow>> = HashMap::new();
    build_report_with_sampling(rows, &sampling_rows, since_ts, following_turns)
}

} // verus!
