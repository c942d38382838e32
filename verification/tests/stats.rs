use std::collections::HashMap;

use context_shake::cache_staleness::CacheStaleness;
use context_shake::stats::cache::classify_cache_evidence;
use context_shake::stats::cache::parse_cache_metadata;
use context_shake::stats::cache::CacheEvidenceSource;
use context_shake::stats::cache::CacheMetadata;
use context_shake::stats::cache::LogRow;
use context_shake::stats::cache::SAMPLING_TARGET;
use context_shake::stats::events::effective_thread_id;
use context_shake::stats::events::parse_token_usage;
use context_shake::stats::events::sampling_queries;
use context_shake::stats::events::TokenUsage;
use context_shake::stats::events::SHAKE_TARGET;
use context_shake::stats::fields::parse_field;
use context_shake::stats::fields::parse_metric;
use context_shake::stats::fields::parse_optional_metric;
use context_shake::stats::output::render_report;
use context_shake::stats::report::build_report;
use context_shake::stats::report::build_report_with_sampling;
use context_shake::stats::report::format_timestamp;
use context_shake::stats::report::since_timestamp;
use context_shake::stats::report::Report;
use context_shake::stats::report::Totals;

fn seconds(nanos: Option<u64>) -> Option<f64> {
    nanos.map(|nanos| nanos as f64 / 1e9)
}

fn render(report: &Report, color: bool) -> String {
    let idle = report
        .shakes
        .iter()
        .map(|shake| seconds(shake.measured_idle_nanos).map(|idle| format!("{idle:.9}")))
        .collect();
    render_report(report, &idle, color)
}

fn row(id: i64, target: &str, message: &str, thread_id: &str) -> LogRow {
    LogRow {
        id,
        ts: id,
        ts_nanos: 0,
        target: target.to_string(),
        message: Some(message.to_string()),
        thread_id: Some(thread_id.to_string()),
    }
}

#[test]
fn report_separates_observed_reduction_rewrite_burn_and_estimate() {
    let rows = vec![
        row(1, SHAKE_TARGET, "[shake] tokens_freed=100", "thread-1"),
        row(
            2,
            "codex_otel",
            "codex.turn.token_usage.input_tokens=80 codex.turn.token_usage.cached_input_tokens=20 codex.turn.token_usage.non_cached_input_tokens=60 codex.turn.token_usage.cache_write_input_tokens=100 codex.turn.token_usage.total_tokens=90",
            "thread-1",
        ),
        row(
            3,
            "codex_otel",
            "codex.turn.token_usage.input_tokens=120 codex.turn.token_usage.cached_input_tokens=100 codex.turn.token_usage.non_cached_input_tokens=20 codex.turn.token_usage.cache_write_input_tokens=0 codex.turn.token_usage.total_tokens=130",
            "thread-1",
        ),
    ];
    let report = build_report(&rows, 0, 2);
    assert_eq!(report.totals.shakes, 1);
    assert_eq!(report.totals.tokens_freed, 100);
    assert_eq!(report.totals.cache_rewrite_burn_tokens, 100);
    assert_eq!(report.totals.cache_read_tokens, 120);
    assert_eq!(report.totals.quota_usage_tokens, 220);
    assert_eq!(report.totals.likely_saved_tokens, 180);
    assert_eq!(report.totals.following_prompts_observed, 2);
}

#[test]
fn report_does_not_cross_threads() {
    let rows = vec![
        row(1, SHAKE_TARGET, "[shake] tokens_freed=100", "thread-1"),
        row(
            2,
            "codex_otel",
            "codex.turn.token_usage.input_tokens=80 codex.turn.token_usage.cached_input_tokens=40 codex.turn.token_usage.non_cached_input_tokens=40 codex.turn.token_usage.cache_write_input_tokens=40 codex.turn.token_usage.total_tokens=90",
            "thread-2",
        ),
    ];
    let report = build_report(&rows, 0, 3);
    assert_eq!(report.totals.cache_rewrite_requests, 0);
    assert_eq!(report.totals.following_prompts_observed, 0);
}

#[test]
fn report_joins_threadless_usage_by_trace_thread_id() {
    let rows = [
        row(
            1,
            SHAKE_TARGET,
            "session_loop{thread.id=thread-1}:turn{model=gpt-5.6-luna turn.id=turn-1}: [shake] trigger=automatic tokens_freed=100",
            "thread-1",
        ),
        row(
            2,
            "codex_otel.agent_communication",
            "session_loop{thread.id=thread-1}:turn{model=gpt-5.6-luna turn.id=turn-2}: codex.turn.token_usage.input_tokens=80 codex.turn.token_usage.cached_input_tokens=20 codex.turn.token_usage.non_cached_input_tokens=60 codex.turn.token_usage.cache_write_input_tokens=0 codex.turn.token_usage.total_tokens=90",
            "thread-1",
        ),
    ];
    let mut threadless_row = rows[1].clone();
    threadless_row.thread_id = None;
    let report = build_report(&[rows[0].clone(), threadless_row], 0, 1);
    assert_eq!(report.totals.following_prompts_observed, 1);
    assert_eq!(report.totals.cache_read_tokens, 20);
    assert_eq!(report.totals.likely_saved_tokens, 80);
    assert_eq!(report.models[0].model, "gpt-5.6-luna");
}

#[test]
fn report_does_not_double_count_followups_between_shakes() {
    let rows = vec![
        row(1, SHAKE_TARGET, "[shake] tokens_freed=100", "thread-1"),
        row(
            2,
            "codex_otel",
            "codex.turn.token_usage.input_tokens=80 codex.turn.token_usage.cached_input_tokens=20 codex.turn.token_usage.non_cached_input_tokens=60 codex.turn.token_usage.cache_write_input_tokens=0 codex.turn.token_usage.total_tokens=90",
            "thread-1",
        ),
        row(3, SHAKE_TARGET, "[shake] tokens_freed=50", "thread-1"),
        row(
            4,
            "codex_otel",
            "codex.turn.token_usage.input_tokens=40 codex.turn.token_usage.cached_input_tokens=10 codex.turn.token_usage.non_cached_input_tokens=30 codex.turn.token_usage.cache_write_input_tokens=0 codex.turn.token_usage.total_tokens=45",
            "thread-1",
        ),
    ];
    let report = build_report(&rows, 0, 3);
    assert_eq!(report.totals.following_prompts_observed, 2);
    assert_eq!(report.totals.likely_saved_tokens, 120);
    assert_eq!(report.totals.net_estimated_tokens, 30);
}

fn cache_row(id: i64, ts: i64, message: &str, target: &str, thread_id: &str) -> LogRow {
    let mut row = row(id, target, message, thread_id);
    row.ts = ts;
    row
}

fn metadata_message(extra: &str) -> String {
    format!(
        "model=gpt-5.6-luna provider_id=openai cache_ttl_secs=3600 cache_ttl_source=builtin_openai tokens_freed=100 trigger=automatic [shake] {extra}"
    )
}

#[test]
fn report_classifies_warm_and_likely_expired_with_incremental_economics() {
    let warm_shake = cache_row(
        10,
        100,
        &metadata_message("warm"),
        SHAKE_TARGET,
        "thread-warm",
    );
    let expired_shake = cache_row(
        20,
        4_000,
        &metadata_message("expired"),
        SHAKE_TARGET,
        "thread-expired",
    );
    let warm_sampling = cache_row(
        9,
        0,
        "model=gpt-5.6-luna provider_id=openai",
        SAMPLING_TARGET,
        "thread-warm",
    );
    let expired_sampling = cache_row(
        19,
        0,
        "model=gpt-5.6-luna provider_id=openai",
        SAMPLING_TARGET,
        "thread-expired",
    );
    let warm_usage = cache_row(
        11,
        101,
        "model=gpt-5.6-luna codex.turn.token_usage.input_tokens=80 codex.turn.token_usage.cached_input_tokens=20 codex.turn.token_usage.non_cached_input_tokens=60 codex.turn.token_usage.cache_write_input_tokens=60 codex.turn.token_usage.total_tokens=90",
        "codex_otel",
        "thread-warm",
    );
    let expired_usage = cache_row(
        21,
        4_001,
        "model=gpt-5.6-luna codex.turn.token_usage.input_tokens=80 codex.turn.token_usage.cached_input_tokens=20 codex.turn.token_usage.non_cached_input_tokens=60 codex.turn.token_usage.cache_write_input_tokens=60 codex.turn.token_usage.total_tokens=90",
        "codex_otel",
        "thread-expired",
    );
    let rows = vec![warm_shake, expired_shake, warm_usage, expired_usage];
    let sampling = HashMap::from([(10, Some(warm_sampling)), (20, Some(expired_sampling))]);
    let report = build_report_with_sampling(&rows, &sampling, 0, 1);

    assert_eq!(report.totals.cache_state_counts.warm, 1);
    assert_eq!(report.totals.cache_state_counts.likely_expired, 1);
    assert_eq!(report.totals.cache_state_counts.unknown, 0);
    assert_eq!(report.totals.incremental_cache_rewrite_tokens, 60);
    assert_eq!(report.totals.net_estimated_tokens, 100);
    assert_eq!(
        seconds(report.shakes[0].measured_idle_nanos),
        Some(100.0)
    );
    assert_eq!(
        report.shakes[0].evidence_source.as_deref(),
        Some("historical_timestamp")
    );
    assert_eq!(report.shakes[1].incremental_cache_rewrite_tokens, 0);
    assert_eq!(report.shakes[1].net_estimated_tokens, 80);

    assert_eq!(
        report.shakes[0].cache_ttl_source.as_deref(),
        Some("builtin_openai")
    );
    assert_eq!(
        report.shakes[0].evidence_confidence.as_deref(),
        Some("lower_than_runtime_clock")
    );
}

#[test]
fn report_marks_missing_and_negative_sampling_evidence_provisional() {
    let missing_sampling_shake = cache_row(
        10,
        100,
        &metadata_message("missing"),
        SHAKE_TARGET,
        "thread-missing",
    );
    let negative_shake = cache_row(
        20,
        90,
        &metadata_message("negative"),
        SHAKE_TARGET,
        "thread-negative",
    );
    let negative_sampling = cache_row(
        19,
        100,
        "model=gpt-5.6-luna provider_id=openai",
        SAMPLING_TARGET,
        "thread-negative",
    );
    let report = build_report_with_sampling(
        &[missing_sampling_shake, negative_shake],
        &HashMap::from([(20, Some(negative_sampling))]),
        0,
        0,
    );

    assert_eq!(report.totals.cache_state_counts.unknown, 2);
    assert_eq!(report.totals.provisional_estimates, 2);
    assert_eq!(
        report.shakes[0].unknown_reason.as_deref(),
        Some("missing_sampling_evidence")
    );
    assert_eq!(
        report.shakes[1].unknown_reason.as_deref(),
        Some("negative_elapsed")
    );
    assert_eq!(report.shakes[1].previous_sampling_timestamp.is_some(), true);
    assert_eq!(report.shakes[0].incremental_cache_rewrite_tokens, 0);
}

#[test]
fn human_report_snapshot_covers_cache_state_summary() {
    let report = build_report(&[], 0, 3);
    let lines = [
        "Shake stats since 1970-01-01T00:00:00+00:00",
        "  shakes: 0",
        "  tokens shaken out: 0",
        "  cache reads: 0 tokens",
        "  cache rewrite burn proxy: 0 tokens across 0 observed following prompts",
        "  observed quota usage: 0 total tokens",
        "  likely saved in following prompts: 0 tokens across 0 prompts",
        "  net estimated input impact: 0 tokens",
        "  incremental rewrite estimate: 0 tokens",
        "  cache states: warm=0 likely_expired=0 unknown=0",
        "",
        "By model",
        "",
        "Shakes by turn",
        "",
        "  note: Cache reads and total tokens are observed telemetry. Rewrite burn is a raw proxy for the first uncached follow-up input, not necessarily a provider cache-write charge. Incremental rewrite is zero when the cache is likely expired and otherwise uses that proxy; net is saved-input proxy minus incremental rewrite. Historical timestamp evidence has lower confidence than runtime clock evidence. Unknown-derived estimates are provisional, and no cache state guarantees a provider cache hit.",
        "",
    ];
    assert_eq!(render(&report, false), lines.join("\n"));
}

#[test]
fn human_report_snapshot_covers_classified_and_provisional_shakes() {
    let warm_shake = cache_row(
        10,
        100,
        &metadata_message("warm"),
        SHAKE_TARGET,
        "thread-warm",
    );
    let unknown_shake = cache_row(
        20,
        200,
        "model=gpt-5.6-luna trigger=automatic [shake] tokens_freed=50",
        SHAKE_TARGET,
        "thread-unknown",
    );
    let sampling = cache_row(
        9,
        0,
        "model=gpt-5.6-luna provider_id=openai",
        SAMPLING_TARGET,
        "thread-warm",
    );
    let usage = cache_row(
        11,
        101,
        "model=gpt-5.6-luna codex.turn.token_usage.input_tokens=80 codex.turn.token_usage.cached_input_tokens=20 codex.turn.token_usage.non_cached_input_tokens=60 codex.turn.token_usage.cache_write_input_tokens=60 codex.turn.token_usage.total_tokens=90",
        "codex_otel",
        "thread-warm",
    );
    let unknown_usage = cache_row(
        21,
        201,
        "model=gpt-5.6-luna codex.turn.token_usage.input_tokens=40 codex.turn.token_usage.cached_input_tokens=10 codex.turn.token_usage.non_cached_input_tokens=30 codex.turn.token_usage.cache_write_input_tokens=30 codex.turn.token_usage.total_tokens=45",
        "codex_otel",
        "thread-unknown",
    );
    let report = build_report_with_sampling(
        &[warm_shake, unknown_shake, usage, unknown_usage],
        &HashMap::from([(10, Some(sampling))]),
        0,
        1,
    );
    assert_eq!(report.shakes[1].incremental_cache_rewrite_tokens, 30);
    assert_eq!(report.shakes[1].net_estimated_tokens, 10);
    assert!(report.shakes[1].estimate_provisional);
    assert_eq!(report.totals.incremental_cache_rewrite_tokens, 90);
    assert_eq!(report.totals.net_estimated_tokens, 30);
    assert_eq!(report.totals.provisional_estimates, 1);
    let lines = [
        "Shake stats since 1970-01-01T00:00:00+00:00",
        "  shakes: 2",
        "  tokens shaken out: 150",
        "  cache reads: 30 tokens",
        "  cache rewrite burn proxy: 90 tokens across 2 observed following prompts",
        "  observed quota usage: 135 total tokens",
        "  likely saved in following prompts: 120 tokens across 2 prompts",
        "  net estimated input impact: 30 tokens",
        "  incremental rewrite estimate: 90 tokens",
        "  cache states: warm=1 likely_expired=0 unknown=1",
        "  provisional estimates: 1 (cache state unknown)",
        "",
        "By model",
        "  gpt-5.6-luna         shakes=2   freed=150       reads=30        rewrite=90        incremental=90        saved=120       net=30 states=1/0/1 provisional=1",
        "",
        "Shakes by turn",
        "  1970-01-01T00:01:40+00:00 automatic provider=openai gpt-5.6-luna turn=unknown freed=100 cache_state=warm idle_secs=100.000000000 ttl_secs=3600 ttl_source=builtin_openai evidence=historical_timestamp confidence=lower_than_runtime_clock rewrite=60 incremental=60 saved=80 net=20",
        "    previous sampling: 1970-01-01T00:00:00+00:00 (historical timestamp; lower confidence than runtime clock)",
        "  1970-01-01T00:03:20+00:00 automatic provider=unknown gpt-5.6-luna turn=unknown freed=50 cache_state=unknown idle_secs=unknown ttl_secs=unknown ttl_source=unknown evidence=unknown confidence=unknown rewrite=30 incremental=30 saved=40 net=10 (provisional)",
        "    unknown reason: missing_provider_id",
        "",
    ];
    let text = render(&report, false);
    assert!(text.starts_with(&lines.join("\n")), "{text}");
    let bright = render(&report, true);
    assert!(bright.starts_with("\x1b[1;36mShake stats since 1970-01-01T00:00:00+00:00\x1b[0m\n"));
    assert!(bright.contains("tokens shaken out: \x1b[1;32m150\x1b[0m\n"));
}

fn timed_row(id: i64, ts: i64, ts_nanos: i64, message: &str) -> LogRow {
    LogRow {
        id,
        ts,
        ts_nanos,
        target: "codex_core::shake".to_string(),
        message: Some(message.to_string()),
        thread_id: Some("thread-1".to_string()),
    }
}

fn metadata() -> CacheMetadata {
    CacheMetadata {
        provider_id: Some("openai".to_string()),
        ttl_secs: Some(3_600),
        ttl_source: Some("builtin_openai".to_string()),
    }
}

#[test]
fn historical_evidence_preserves_subsecond_idle_and_boundary() {
    let shake = timed_row(2, 3_600, 300, "[shake]");
    let sampling = timed_row(1, 0, 0, "sampling");
    let evidence = classify_cache_evidence(&shake, &metadata(), Some(&sampling));
    assert_eq!(evidence.state, CacheStaleness::LikelyExpired);
    assert_eq!(
        seconds(evidence.measured_idle_nanos),
        Some(3_600.0000003)
    );
    assert_eq!(
        evidence.evidence_source,
        Some(CacheEvidenceSource::HistoricalTimestamp)
    );
    assert_eq!(
        evidence.previous_sampling.map(|value| value.ts_nanos),
        Some(0)
    );
}

#[test]
fn warm_idle_and_zero_ttl_use_shared_classifier() {
    let shake = timed_row(2, 10, 0, "[shake]");
    let sampling = timed_row(1, 0, 0, "sampling");
    let mut warm_metadata = metadata();
    warm_metadata.ttl_secs = Some(60);
    assert_eq!(
        classify_cache_evidence(&shake, &warm_metadata, Some(&sampling)).state,
        CacheStaleness::Warm
    );

    warm_metadata.ttl_secs = Some(0);
    assert_eq!(
        classify_cache_evidence(&shake, &warm_metadata, Some(&sampling)).state,
        CacheStaleness::LikelyExpired
    );
}

#[test]
fn missing_metadata_and_negative_elapsed_are_explicit_unknowns() {
    let shake = timed_row(2, 10, 0, "[shake]");
    let sampling = timed_row(1, 11, 0, "sampling");
    let mut missing_provider = metadata();
    missing_provider.provider_id = None;
    let evidence = classify_cache_evidence(&shake, &missing_provider, Some(&sampling));
    assert_eq!(evidence.state, CacheStaleness::Unknown);
    assert_eq!(evidence.unknown_reason, Some("missing_provider_id"));
    assert_eq!(evidence.previous_sampling, None);

    let evidence = classify_cache_evidence(&shake, &metadata(), Some(&sampling));
    assert_eq!(evidence.state, CacheStaleness::Unknown);
    assert_eq!(evidence.unknown_reason, Some("negative_elapsed"));
    assert_eq!(evidence.previous_sampling.map(|value| value.ts), Some(11));
    assert_eq!(
        evidence.evidence_source,
        Some(CacheEvidenceSource::HistoricalTimestamp)
    );
}

#[test]
fn fields_end_where_values_do() {
    let message = "turn{model=gpt-6 turn.id=t1}: thread.id=abc, n=\"42\" cut=-4x none=None some=Some(7)";
    assert_eq!(parse_field(message, "model").as_deref(), Some("gpt-6"));
    assert_eq!(parse_field(message, "turn.id").as_deref(), Some("t1"));
    assert_eq!(parse_field(message, "missing"), None);
    assert_eq!(parse_field(message, "n").as_deref(), Some("42"));
    assert_eq!(parse_metric(message, "n"), None);
    assert_eq!(parse_metric(message, "cut"), Some(-4));
    assert_eq!(parse_metric(message, "some"), None);
    assert_eq!(parse_optional_metric(message, "none"), None);
    assert_eq!(parse_optional_metric(message, "some"), Some(7));
}

#[test]
fn threads_are_told_by_rows_before_messages() {
    let mut with = row(1, "x", "thread.id=inner", "outer");
    assert_eq!(effective_thread_id(&with).as_deref(), Some("outer"));
    with.thread_id = None;
    assert_eq!(effective_thread_id(&with).as_deref(), Some("inner"));
    with.message = None;
    assert_eq!(effective_thread_id(&with), None);
}

#[test]
fn usage_needs_all_of_its_numbers() {
    let whole = row(
        1,
        "codex_otel",
        "codex.turn.token_usage.input_tokens=80 codex.turn.token_usage.cached_input_tokens=20 codex.turn.token_usage.non_cached_input_tokens=60 codex.turn.token_usage.cache_write_input_tokens=7 codex.turn.token_usage.total_tokens=90",
        "t",
    );
    let usage = parse_token_usage(&whole).expect("usage");
    assert_eq!(
        usage,
        TokenUsage {
            input_tokens: 80,
            cached_input_tokens: 20,
            non_cached_input_tokens: 60,
            cache_write_input_tokens: 7,
            total_tokens: 90,
        }
    );
    assert_eq!(parse_token_usage(&row(1, "codex_otel", "nothing", "t")), None);
}

#[test]
fn moments_are_written_in_utc() {
    assert_eq!(format_timestamp(0, 0), "1970-01-01T00:00:00+00:00");
    assert_eq!(
        format_timestamp(1, 500_000_000),
        "1970-01-01T00:00:01.500+00:00"
    );
    assert_eq!(since_timestamp(1_000_000, 3), Ok(1_000_000 - 3 * 86_400));
    assert_eq!(
        since_timestamp(1_000_000, -1),
        Err("--since-days must be non-negative".to_string())
    );
}

#[test]
fn shakes_ask_for_the_request_before_them() {
    let mut orphan = row(3, SHAKE_TARGET, "[shake] tokens_freed=5", "x");
    orphan.thread_id = None;
    let rows = vec![
        row(1, SHAKE_TARGET, "[shake] tokens_freed=5", "thread-1"),
        row(2, SHAKE_TARGET, "unrelated", "thread-1"),
        orphan,
    ];
    let queries: Vec<(i64, Option<String>)> = sampling_queries(&rows)
        .into_iter()
        .map(|query| (query.shake_id, query.thread_id))
        .collect();
    assert_eq!(
        queries,
        vec![(1, Some("thread-1".to_string())), (3, None)]
    );
}

#[test]
fn each_gap_in_the_evidence_has_its_reason() {
    let shake = timed_row(2, 10, 0, "[shake]");
    let sampling = timed_row(1, 0, 0, "sampling");
    let reason = |change: fn(&mut CacheMetadata)| {
        let mut metadata = metadata();
        change(&mut metadata);
        classify_cache_evidence(&shake, &metadata, Some(&sampling)).unknown_reason
    };
    assert_eq!(reason(|_| {}), None);
    assert_eq!(reason(|m| m.ttl_secs = None), Some("missing_cache_ttl"));
    assert_eq!(reason(|m| m.ttl_secs = Some(-1)), Some("invalid_cache_ttl"));
    assert_eq!(
        reason(|m| m.ttl_source = None),
        Some("missing_cache_ttl_source")
    );
    assert_eq!(
        reason(|m| m.ttl_source = Some("guess".to_string())),
        Some("unknown_cache_ttl_source")
    );
    let evidence = classify_cache_evidence(&shake, &metadata(), None);
    assert_eq!(evidence.unknown_reason, Some("missing_sampling_evidence"));
}

#[test]
fn metadata_is_read_from_messages() {
    assert_eq!(
        parse_cache_metadata(Some(&metadata_message("x"))),
        CacheMetadata {
            provider_id: Some("openai".to_string()),
            ttl_secs: Some(3_600),
            ttl_source: Some("builtin_openai".to_string()),
        }
    );
    assert_eq!(
        parse_cache_metadata(None),
        CacheMetadata {
            provider_id: None,
            ttl_secs: None,
            ttl_source: None,
        }
    );
}

#[test]
fn expired_caches_have_no_rewrite() {
    let shake = cache_row(10, 3_601, &metadata_message("late"), SHAKE_TARGET, "t");
    let sampling = cache_row(9, 0, "provider_id=openai", SAMPLING_TARGET, "t");
    let usage = cache_row(
        11,
        3_602,
        "model=gpt-5.6-luna codex.turn.token_usage.input_tokens=80 codex.turn.token_usage.cached_input_tokens=0 codex.turn.token_usage.non_cached_input_tokens=80 codex.turn.token_usage.cache_write_input_tokens=80 codex.turn.token_usage.total_tokens=90",
        "codex_otel",
        "t",
    );
    let report =
        build_report_with_sampling(&[shake, usage], &HashMap::from([(10, Some(sampling))]), 0, 3);
    let shake = &report.shakes[0];
    assert_eq!(shake.cache_state, CacheStaleness::LikelyExpired);
    assert_eq!(shake.cache_rewrite_burn_tokens, Some(80));
    assert_eq!(shake.raw_net_estimated_tokens, 0);
    assert_eq!(shake.incremental_cache_rewrite_tokens, 0);
    assert_eq!(shake.net_estimated_tokens, 80);
    assert!(!shake.estimate_provisional);
    assert_eq!(report.models.len(), 1);
    assert_eq!(report.models[0].totals.shakes, report.totals.shakes);
}

#[test]
fn the_request_before_the_window_is_evidence_but_no_usage() {
    let mut sampling = cache_row(
        1,
        900,
        "model=gpt-5.6-luna provider_id=openai codex.turn.token_usage.input_tokens=999 codex.turn.token_usage.cached_input_tokens=999 codex.turn.token_usage.non_cached_input_tokens=0 codex.turn.token_usage.cache_write_input_tokens=0 codex.turn.token_usage.total_tokens=999",
        SAMPLING_TARGET,
        "thread-1",
    );
    sampling.ts_nanos = 999;
    let mut shake = cache_row(
        2,
        1_100,
        &metadata_message("database"),
        SHAKE_TARGET,
        "thread-1",
    );
    shake.ts_nanos = 1;
    let report =
        build_report_with_sampling(&[shake], &HashMap::from([(2, Some(sampling))]), 1_000, 1);
    assert_eq!(report.totals.cache_state_counts.warm, 1);
    assert_eq!(report.totals.cache_read_tokens, 0);
    assert_eq!(report.totals.quota_usage_tokens, 0);
    assert!(report.shakes[0].previous_sampling_timestamp.is_some());
    assert_eq!(report.shakes[0].measured_idle_nanos, Some(199_999_999_002));
}

#[test]
fn a_thread_without_shakes_changes_no_shake() {
    let usage = "turn{model=gpt-5.6-sol}: codex.turn.token_usage.input_tokens=80 codex.turn.token_usage.cached_input_tokens=20 codex.turn.token_usage.non_cached_input_tokens=60 codex.turn.token_usage.cache_write_input_tokens=0 codex.turn.token_usage.total_tokens=90";
    let rows = vec![
        row(1, "codex_otel", usage, "thread-1"),
        row(3, SHAKE_TARGET, "[shake] tokens_freed=100", "thread-1"),
        row(5, "codex_otel", usage, "thread-1"),
    ];
    let before = build_report(&rows, 0, 3);
    assert_eq!(before.shakes[0].model, "gpt-5.6-sol");
    assert_eq!(before.shakes[0].following_prompts_observed, 1);
    for at in 0..4 {
        let mut more = rows.clone();
        let other = usage.replace("sol", "terra");
        more.insert(at, row(2 * at as i64, "codex_otel", &other, "thread-2"));
        let after = build_report(&more, 0, 3);
        assert_eq!(after.shakes, before.shakes);
        assert_ne!(after.totals, before.totals);
    }
}

#[test]
fn models_share_what_shakes_freed_and_saved() {
    let usage = "codex.turn.token_usage.input_tokens=80 codex.turn.token_usage.cached_input_tokens=20 codex.turn.token_usage.non_cached_input_tokens=60 codex.turn.token_usage.cache_write_input_tokens=0 codex.turn.token_usage.total_tokens=90";
    let rows = vec![
        row(1, SHAKE_TARGET, "turn{model=a}: [shake] tokens_freed=100", "thread-1"),
        row(2, "codex_otel", usage, "thread-1"),
        row(3, SHAKE_TARGET, "turn{model=b}: [shake] tokens_freed=30", "thread-2"),
        row(4, "codex_otel", usage, "thread-2"),
        row(5, SHAKE_TARGET, "turn{model=a}: [shake] tokens_freed=7", "thread-3"),
    ];
    let report = build_report(&rows, 0, 3);
    let sum = |of: fn(&Totals) -> i64| -> i64 {
        report.models.iter().map(|model| of(&model.totals)).sum()
    };
    assert_eq!(report.totals.tokens_freed, 137);
    assert_eq!(sum(|totals| totals.tokens_freed), 137);
    assert_eq!(report.totals.likely_saved_tokens, 110);
    assert_eq!(sum(|totals| totals.likely_saved_tokens), 110);
    assert_eq!(report.totals.cache_rewrite_burn_tokens, 120);
    assert_eq!(sum(|totals| totals.cache_rewrite_burn_tokens), 120);
    assert_eq!(report.totals.incremental_cache_rewrite_tokens, 120);
    assert_eq!(sum(|totals| totals.incremental_cache_rewrite_tokens), 120);
    assert_eq!(report.totals.net_estimated_tokens, -10);
    assert_eq!(sum(|totals| totals.net_estimated_tokens), -10);
}
