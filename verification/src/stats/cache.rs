//! Whether a prompt was still cached when it was shaken, as the log tells it.

use vstd::prelude::*;

use crate::cache_staleness;
use crate::cache_staleness::CacheStaleness;
use crate::items;
use crate::stats::fields;
use crate::text;
use crate::time::Duration;
use crate::time::NANOS_PER_SEC;

verus! {

/// The target of the rows that tell of a request to the model.
pub const SAMPLING_TARGET: &'static str = "codex_core::sampling_request_started";

/// A row of the log.
#[derive(Clone, Debug, PartialEq, Eq)]
pub struct LogRow {
    pub id: i64,
    /// Unix seconds.
    pub ts: i64,
    /// Nanoseconds of the second.
    pub ts_nanos: i64,
    pub target: String,
    pub message: Option<String>,
    pub thread_id: Option<String>,
}

/// The value of a [`LogRow`].
pub struct LogRowView {
    pub id: i64,
    pub ts: i64,
    pub ts_nanos: i64,
    pub target: Seq<char>,
    pub message: Option<Seq<char>>,
    pub thread_id: Option<Seq<char>>,
}

impl DeepView for LogRow {
    type V = LogRowView;

    open spec fn deep_view(&self) -> LogRowView {
        LogRowView {
            id: self.id,
            ts: self.ts,
            ts_nanos: self.ts_nanos,
            target: self.target@,
            message: self.message.deep_view(),
            thread_id: self.thread_id.deep_view(),
        }
    }
}

/// What a row says of the cache.
#[derive(Debug, PartialEq, Eq)]
pub struct CacheMetadata {
    pub provider_id: Option<String>,
    pub ttl_secs: Option<i64>,
    pub ttl_source: Option<String>,
}

/// The value of a [`CacheMetadata`].
pub struct CacheMetadataView {
    pub provider_id: Option<Seq<char>>,
    pub ttl_secs: Option<i64>,
    pub ttl_source: Option<Seq<char>>,
}

impl DeepView for CacheMetadata {
    type V = CacheMetadataView;

    open spec fn deep_view(&self) -> CacheMetadataView {
        CacheMetadataView {
            provider_id: self.provider_id.deep_view(),
            ttl_secs: self.ttl_secs,
            ttl_source: self.ttl_source.deep_view(),
        }
    }
}

/// What a message says of the cache.
pub open spec fn metadata_in(message: Option<Seq<char>>) -> CacheMetadataView {
    match message {
        Some(message) => CacheMetadataView {
            provider_id: fields::field(message, "provider_id"@),
            ttl_secs: fields::metric(message, "cache_ttl_secs"@, true),
            ttl_source: fields::field(message, "cache_ttl_source"@),
        },
        None => CacheMetadataView { provider_id: None, ttl_secs: None, ttl_source: None },
    }
}

/// What a message says of the cache.
pub fn parse_cache_metadata(message: Option<&str>) -> (metadata: CacheMetadata)
    ensures
        metadata.deep_view() == metadata_in(
            match message {
                Some(message) => Some(message@),
                None => None,
            },
        ),
{
    match message {
        Some(message) => CacheMetadata {
            provider_id: fields::parse_field(message, "provider_id"),
            ttl_secs: fields::parse_optional_metric(message, "cache_ttl_secs"),
            ttl_source: fields::parse_field(message, "cache_ttl_source"),
        },
        None => CacheMetadata { provider_id: None, ttl_secs: None, ttl_source: None },
    }
}

/// Where an idle interval was read from.
#[derive(Clone, Copy, Debug, PartialEq, Eq, Structural)]
pub enum CacheEvidenceSource {
    /// From the times of two rows of the log.
    HistoricalTimestamp,
}

impl CacheEvidenceSource {
    /// The machine-readable name.
    pub fn as_str(self) -> (name: &'static str)
        ensures
            name@ == "historical_timestamp"@,
    {
        match self {
            CacheEvidenceSource::HistoricalTimestamp => "historical_timestamp",
        }
    }

    /// How far the evidence can be trusted.
    pub fn confidence(self) -> (name: &'static str)
        ensures
            name@ == "lower_than_runtime_clock"@,
    {
        match self {
            CacheEvidenceSource::HistoricalTimestamp => "lower_than_runtime_clock",
        }
    }
}

/// When a request to the model was made.
#[derive(Clone, Copy, Debug, PartialEq, Eq, Structural)]
pub struct SamplingTimestamp {
    pub ts: i64,
    pub ts_nanos: i64,
}

/// What is known of the cache at the time of a shake.
#[derive(Debug, PartialEq, Eq)]
pub struct CacheEvidence {
    pub state: CacheStaleness,
    pub measured_idle_nanos: Option<u64>,
    pub ttl_secs: Option<i64>,
    pub ttl_source: Option<String>,
    pub previous_sampling: Option<SamplingTimestamp>,
    pub evidence_source: Option<CacheEvidenceSource>,
    /// Why nothing is known.
    pub unknown_reason: Option<&'static str>,
}

/// The value of a [`CacheEvidence`].
pub struct CacheEvidenceView {
    pub state: CacheStaleness,
    pub measured_idle_nanos: Option<u64>,
    pub ttl_secs: Option<i64>,
    pub ttl_source: Option<Seq<char>>,
    pub previous_sampling: Option<SamplingTimestamp>,
    pub evidence_source: Option<CacheEvidenceSource>,
    pub unknown_reason: Option<Seq<char>>,
}

impl DeepView for CacheEvidence {
    type V = CacheEvidenceView;

    open spec fn deep_view(&self) -> CacheEvidenceView {
        CacheEvidenceView {
            state: self.state,
            measured_idle_nanos: self.measured_idle_nanos,
            ttl_secs: self.ttl_secs,
            ttl_source: self.ttl_source.deep_view(),
            previous_sampling: self.previous_sampling,
            evidence_source: self.evidence_source,
            unknown_reason: match self.unknown_reason {
                Some(reason) => Some(reason@),
                None => None,
            },
        }
    }
}

/// A text that is not there, or blank.
pub open spec fn is_blank(value: Option<Seq<char>>) -> bool {
    match value {
        Some(value) => text::trim(value).len() == 0,
        None => true,
    }
}

/// A source of lifetimes that can be relied on.
pub open spec fn is_known_source(source: Seq<char>) -> bool {
    source == "provider_override"@ || source == "global_override"@ || source == "builtin_openai"@
}

/// Why the lifetime of the cache is not known, if it is not.
pub open spec fn metadata_fault(metadata: CacheMetadataView) -> Option<Seq<char>> {
    if is_blank(metadata.provider_id) {
        Some("missing_provider_id"@)
    } else if metadata.ttl_secs is None {
        Some("missing_cache_ttl"@)
    } else if metadata.ttl_secs->0 < 0 {
        Some("invalid_cache_ttl"@)
    } else if is_blank(metadata.ttl_source) {
        Some("missing_cache_ttl_source"@)
    } else if !is_known_source(metadata.ttl_source->0) {
        Some("unknown_cache_ttl_source"@)
    } else {
        None
    }
}

/// The time of a row.
pub open spec fn time_of(row: LogRowView) -> SamplingTimestamp {
    SamplingTimestamp { ts: row.ts, ts_nanos: row.ts_nanos }
}

/// A time in nanoseconds.
pub open spec fn nanos_of(time: SamplingTimestamp) -> int {
    time.ts * NANOS_PER_SEC + time.ts_nanos
}

/// Evidence of nothing, for a reason.
pub open spec fn no_evidence(
    metadata: CacheMetadataView,
    previous: Option<SamplingTimestamp>,
    reason: Seq<char>,
) -> CacheEvidenceView {
    CacheEvidenceView {
        state: CacheStaleness::Unknown,
        measured_idle_nanos: None,
        ttl_secs: metadata.ttl_secs,
        ttl_source: metadata.ttl_source,
        previous_sampling: previous,
        evidence_source: match previous {
            Some(_) => Some(CacheEvidenceSource::HistoricalTimestamp),
            None => None,
        },
        unknown_reason: Some(reason),
    }
}

/// What is known of the cache at the time of a shake, from the last request
/// before it.
pub open spec fn evidence_for(
    shake: SamplingTimestamp,
    metadata: CacheMetadataView,
    previous: Option<SamplingTimestamp>,
) -> CacheEvidenceView {
    match (metadata_fault(metadata), previous) {
        (Some(reason), _) => no_evidence(metadata, None, reason),
        (None, None) => no_evidence(metadata, None, "missing_sampling_evidence"@),
        (None, Some(last)) => {
            let idle = nanos_of(shake) - nanos_of(last);
            if idle < 0 {
                no_evidence(metadata, previous, "negative_elapsed"@)
            } else if idle > u64::MAX {
                no_evidence(metadata, previous, "elapsed_overflow"@)
            } else {
                CacheEvidenceView {
                    state: if idle < metadata.ttl_secs->0 * NANOS_PER_SEC {
                        CacheStaleness::Warm
                    } else {
                        CacheStaleness::LikelyExpired
                    },
                    measured_idle_nanos: Some(idle as u64),
                    unknown_reason: None,
                    ..no_evidence(metadata, previous, Seq::empty())
                }
            }
        },
    }
}

fn is_blank_text(value: &Option<String>) -> (r: bool)
    ensures
        r == is_blank(value.deep_view()),
{
    match value {
        Some(value) => {
            let chars = text::chars_of(value.as_str());
            text::trimmed(chars.as_slice()).len() == 0
        },
        None => true,
    }
}

fn is_reliable_source(source: &Option<String>) -> (r: bool)
    ensures
        r == (source.deep_view() matches Some(words) && is_known_source(words)),
{
    match source {
        Some(source) => text::same_text(source.as_str(), "provider_override") || text::same_text(
            source.as_str(),
            "global_override",
        ) || text::same_text(source.as_str(), "builtin_openai"),
        None => false,
    }
}

fn time_nanos(time: SamplingTimestamp) -> (nanos: i128)
    ensures
        nanos == nanos_of(time),
{
    time.ts as i128 * 1_000_000_000 + time.ts_nanos as i128
}

/// The time between two moments, in nanoseconds.
fn elapsed_nanos(previous: SamplingTimestamp, current: SamplingTimestamp) -> (r: Result<
    u64,
    &'static str,
>)
    ensures
        ({
            let idle = nanos_of(current) - nanos_of(previous);
            match r {
                Ok(nanos) => nanos == idle,
                Err(reason) => if idle < 0 {
                    reason@ == "negative_elapsed"@
                } else {
                    idle > u64::MAX && reason@ == "elapsed_overflow"@
                },
            }
        }),
{
    let delta = time_nanos(current) - time_nanos(previous);
    if delta < 0 {
        return Err("negative_elapsed");
    }
    if delta > u64::MAX as i128 {
        return Err("elapsed_overflow");
    }
    Ok(delta as u64)
}

/// What is known of the cache at the time of a shake, from the last request
/// before it.
pub fn classify_cache_evidence(
    shake: &LogRow,
    metadata: &CacheMetadata,
    previous_sampling: Option<&LogRow>,
) -> (evidence: CacheEvidence)
    ensures
        evidence.deep_view() == evidence_for(
            time_of(shake.deep_view()),
            metadata.deep_view(),
            match previous_sampling {
                Some(row) => Some(time_of(row.deep_view())),
                None => None,
            },
        ),
{
    classify_at(
        SamplingTimestamp { ts: shake.ts, ts_nanos: shake.ts_nanos },
        metadata,
        previous_sampling,
    )
}

/// What is known of the cache at a time, from the last request before it.
pub fn classify_at(
    shake: SamplingTimestamp,
    metadata: &CacheMetadata,
    previous_sampling: Option<&LogRow>,
) -> (evidence: CacheEvidence)
    ensures
        evidence.deep_view() == evidence_for(
            shake,
            metadata.deep_view(),
            match previous_sampling {
                Some(row) => Some(time_of(row.deep_view())),
                None => None,
            },
        ),
{
    let mut evidence = CacheEvidence {
        state: CacheStaleness::Unknown,
        measured_idle_nanos: None,
        ttl_secs: metadata.ttl_secs,
        ttl_source: items::clone_optional(&metadata.ttl_source),
        previous_sampling: None,
        evidence_source: None,
        unknown_reason: None,
    };
    if is_blank_text(&metadata.provider_id) {
        evidence.unknown_reason = Some("missing_provider_id");
        return evidence;
    }
    let ttl_secs = match metadata.ttl_secs {
        Some(ttl_secs) => ttl_secs,
        None => {
            evidence.unknown_reason = Some("missing_cache_ttl");
            return evidence;
        },
    };
    if ttl_secs < 0 {
        evidence.unknown_reason = Some("invalid_cache_ttl");
        return evidence;
    }
    if is_blank_text(&metadata.ttl_source) {
        evidence.unknown_reason = Some("missing_cache_ttl_source");
        return evidence;
    }
    if !is_reliable_source(&metadata.ttl_source) {
        evidence.unknown_reason = Some("unknown_cache_ttl_source");
        return evidence;
    }
    let previous = match previous_sampling {
        Some(previous) => previous,
        None => {
            evidence.unknown_reason = Some("missing_sampling_evidence");
            return evidence;
        },
    };
    let last = SamplingTimestamp { ts: previous.ts, ts_nanos: previous.ts_nanos };
    evidence.previous_sampling = Some(last);
    evidence.evidence_source = Some(CacheEvidenceSource::HistoricalTimestamp);
    match elapsed_nanos(last, shake) {
        Ok(idle_nanos) => {
            evidence.measured_idle_nanos = Some(idle_nanos);
            evidence.state = cache_staleness::classify_cache_staleness(
                Some(Duration { nanos: idle_nanos as u128 }),
                Some(Duration::from_secs(ttl_secs as u64)),
            );
            evidence
        },
        Err(reason) => {
            evidence.unknown_reason = Some(reason);
            evidence
        },
    }
}

/// Either the state of the cache is known or the reason is told why it is not.
/// An interval that was measured comes with the row that it was measured from.
pub proof fn law_unknown_states_have_a_reason(
    shake: SamplingTimestamp,
    metadata: CacheMetadataView,
    previous: Option<SamplingTimestamp>,
)
    ensures
        ({
            let evidence = evidence_for(shake, metadata, previous);
            &&& (evidence.state is Unknown) == (evidence.unknown_reason is Some)
            &&& (evidence.state is Unknown) == (evidence.measured_idle_nanos is None)
            &&& evidence.measured_idle_nanos is Some ==> evidence.previous_sampling is Some
                && evidence.evidence_source is Some
        }),
{
}

/// The state that the log tells is the one that a running session would have
/// found after the same idle time.
pub proof fn law_history_agrees_with_the_clock(
    shake: SamplingTimestamp,
    metadata: CacheMetadataView,
    previous: SamplingTimestamp,
    idle: Duration,
    ttl: Duration,
)
    requires
        metadata_fault(metadata) is None,
        idle.nanos == nanos_of(shake) - nanos_of(previous),
        idle.nanos <= u64::MAX,
        ttl.nanos == metadata.ttl_secs->0 * NANOS_PER_SEC,
    ensures
        evidence_for(shake, metadata, Some(previous)).state == cache_staleness::staleness(
            Some(idle),
            Some(ttl),
        ),
{
}

/// What keeps the state of a cache from being known, in the order in which it is
/// told: no provider, no lifetime, one below zero, no source of it, a source that
/// cannot be relied on, no request before, a request that comes later, and a time
/// that does not fit. Otherwise the state is known.
pub proof fn law_reasons_are_told_in_order(
    shake: SamplingTimestamp,
    metadata: CacheMetadataView,
    previous: Option<SamplingTimestamp>,
)
    ensures
        ({
            let evidence = evidence_for(shake, metadata, previous);
            let no_provider = metadata.provider_id is None || text::trim(
                metadata.provider_id->0,
            ).len() == 0;
            let no_source = metadata.ttl_source is None || text::trim(
                metadata.ttl_source->0,
            ).len() == 0;
            let reliable = metadata.ttl_source == Some("provider_override"@) || metadata.ttl_source
                == Some("global_override"@) || metadata.ttl_source == Some("builtin_openai"@);
            let idle = (shake.ts - previous->0.ts) * 1_000_000_000 + (shake.ts_nanos
                - previous->0.ts_nanos);
            evidence.unknown_reason == (if no_provider {
                Some("missing_provider_id"@)
            } else if metadata.ttl_secs is None {
                Some("missing_cache_ttl"@)
            } else if metadata.ttl_secs->0 < 0 {
                Some("invalid_cache_ttl"@)
            } else if no_source {
                Some("missing_cache_ttl_source"@)
            } else if !reliable {
                Some("unknown_cache_ttl_source"@)
            } else if previous is None {
                Some("missing_sampling_evidence"@)
            } else if idle < 0 {
                Some("negative_elapsed"@)
            } else if idle > u64::MAX {
                Some("elapsed_overflow"@)
            } else {
                None
            })
        }),
{
}

/// Where the state of a cache is known, it is warm just as long as its lifetime
/// has not passed since the request before; the time since is told, with the
/// request and the lifetime that were used.
pub proof fn law_caches_are_warm_for_their_lifetime(
    shake: SamplingTimestamp,
    metadata: CacheMetadataView,
    previous: SamplingTimestamp,
)
    requires
        evidence_for(shake, metadata, Some(previous)).unknown_reason is None,
    ensures
        ({
            let evidence = evidence_for(shake, metadata, Some(previous));
            let idle = (shake.ts - previous.ts) * 1_000_000_000 + (shake.ts_nanos
                - previous.ts_nanos);
            &&& evidence.measured_idle_nanos == Some(idle as u64)
            &&& 0 <= idle <= u64::MAX
            &&& idle < metadata.ttl_secs->0 * 1_000_000_000 ==> evidence.state is Warm
            &&& idle >= metadata.ttl_secs->0 * 1_000_000_000 ==> evidence.state is LikelyExpired
            &&& evidence.previous_sampling == Some(previous)
        }),
{
}

/// What the log says of a lifetime is repeated, whether or not it can be used.
/// A request is named only where it was looked at.
pub proof fn law_lifetimes_are_repeated(
    shake: SamplingTimestamp,
    metadata: CacheMetadataView,
    previous: Option<SamplingTimestamp>,
)
    ensures
        ({
            let evidence = evidence_for(shake, metadata, previous);
            &&& evidence.ttl_secs == metadata.ttl_secs
            &&& evidence.ttl_source == metadata.ttl_source
            &&& evidence.previous_sampling is Some ==> evidence.previous_sampling == previous
            &&& (evidence.evidence_source is Some) == (evidence.previous_sampling is Some)
        }),
{
}

} // verus!
