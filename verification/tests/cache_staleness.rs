use context_shake::cache_staleness::classify_cache_staleness;
use context_shake::cache_staleness::resolve_cache_ttl;
use context_shake::cache_staleness::CacheStaleness;
use context_shake::cache_staleness::CacheTtlInputs;
use context_shake::cache_staleness::CacheTtlSource;
use context_shake::cache_staleness::ResolvedCacheTtl;
use context_shake::config::OPENAI_PROVIDER_ID;
use context_shake::session::prompt_cache_clock::PromptCacheClock;
use context_shake::time::Duration;

fn inputs<'a>(
    provider_id: Option<&'a str>,
    provider_override: Option<u64>,
    global_override: Option<u64>,
) -> CacheTtlInputs<'a> {
    CacheTtlInputs {
        provider_id,
        provider_override: provider_override.map(Duration::from_secs),
        global_override: global_override.map(Duration::from_secs),
    }
}

#[test]
fn ttl_override_precedence_is_provider_then_global_then_builtin() {
    assert_eq!(
        resolve_cache_ttl(inputs(Some(OPENAI_PROVIDER_ID), Some(30), Some(60))),
        ResolvedCacheTtl {
            ttl: Some(Duration::from_secs(30)),
            source: CacheTtlSource::ProviderOverride,
        }
    );
    assert_eq!(
        resolve_cache_ttl(inputs(Some(OPENAI_PROVIDER_ID), None, Some(60))),
        ResolvedCacheTtl {
            ttl: Some(Duration::from_secs(60)),
            source: CacheTtlSource::GlobalOverride,
        }
    );
    assert_eq!(
        resolve_cache_ttl(inputs(Some(OPENAI_PROVIDER_ID), None, None)),
        ResolvedCacheTtl {
            ttl: Some(Duration::from_secs(3_600)),
            source: CacheTtlSource::BuiltinOpenai,
        }
    );
}

#[test]
fn unknown_provider_does_not_use_overrides() {
    for provider_id in [None, Some(""), Some(" ")] {
        assert_eq!(
            resolve_cache_ttl(inputs(provider_id, Some(30), Some(60))),
            ResolvedCacheTtl {
                ttl: None,
                source: CacheTtlSource::Unknown,
            }
        );
    }
    assert_eq!(
        resolve_cache_ttl(inputs(Some("ollama"), None, None)),
        ResolvedCacheTtl {
            ttl: None,
            source: CacheTtlSource::Unknown,
        }
    );
}

#[test]
fn zero_ttl_is_valid_and_stale_at_zero_idle() {
    let zero = Duration::from_secs(0);
    let resolved = resolve_cache_ttl(inputs(Some("ollama"), Some(0), None));
    assert_eq!(resolved.ttl, Some(zero));
    assert_eq!(resolved.source, CacheTtlSource::ProviderOverride);
    assert_eq!(
        classify_cache_staleness(Some(zero), resolved.ttl),
        CacheStaleness::LikelyExpired
    );
}

#[test]
fn staleness_uses_strictly_less_than_for_warm_boundary() {
    assert_eq!(
        classify_cache_staleness(Some(Duration::from_secs(59)), Some(Duration::from_secs(60))),
        CacheStaleness::Warm
    );
    assert_eq!(
        classify_cache_staleness(Some(Duration::from_secs(60)), Some(Duration::from_secs(60))),
        CacheStaleness::LikelyExpired
    );
    assert_eq!(
        classify_cache_staleness(Some(Duration::from_secs(61)), Some(Duration::from_secs(60))),
        CacheStaleness::LikelyExpired
    );
}

#[test]
fn missing_idle_or_ttl_is_unknown() {
    assert_eq!(
        classify_cache_staleness(None, Some(Duration::from_secs(60))),
        CacheStaleness::Unknown
    );
    assert_eq!(
        classify_cache_staleness(Some(Duration::from_secs(60)), None),
        CacheStaleness::Unknown
    );
}

#[test]
fn names_of_states_and_sources() {
    assert_eq!(CacheStaleness::Warm.as_str(), "warm");
    assert_eq!(CacheStaleness::LikelyExpired.as_str(), "likely_expired");
    assert_eq!(CacheStaleness::Unknown.as_str(), "unknown");
    assert_eq!(CacheTtlSource::ProviderOverride.as_str(), "provider_override");
    assert_eq!(CacheTtlSource::GlobalOverride.as_str(), "global_override");
    assert_eq!(CacheTtlSource::BuiltinOpenai.as_str(), "builtin_openai");
    assert_eq!(CacheTtlSource::Unknown.as_str(), "unknown");
}

const SECOND: u128 = 1_000_000_000;

#[test]
fn a_thread_with_no_request_yet_has_no_idle_window() {
    let clock = PromptCacheClock::default();
    assert_eq!(clock.idle_since_last_request_at(5 * SECOND), None);
    assert!(!clock.cold_resume_already_decided());
}

#[test]
fn idle_is_measured_from_the_last_sampling_request() {
    let mut clock = PromptCacheClock::default();
    let start = 17 * SECOND;
    clock.record_sampling_request_at(start);
    assert_eq!(
        clock.idle_since_last_request_at(start + 90 * SECOND),
        Some(Duration::from_secs(90))
    );
    clock.record_sampling_request_at(start + 60 * SECOND);
    assert_eq!(
        clock.idle_since_last_request_at(start + 90 * SECOND),
        Some(Duration::from_secs(30))
    );
}

#[test]
fn the_dedupe_key_clears_when_the_next_request_goes_out() {
    let mut clock = PromptCacheClock::default();
    let start = 17 * SECOND;
    clock.record_sampling_request_at(start);
    assert!(!clock.cold_resume_already_decided());

    clock.mark_cold_resume_decided();
    assert!(
        clock.cold_resume_already_decided(),
        "a second pre-sampling check in the same idle window must not re-decide"
    );

    clock.record_sampling_request_at(start + SECOND);
    assert!(
        !clock.cold_resume_already_decided(),
        "a new sampling request opens a new idle window"
    );
}

#[test]
fn a_clock_that_seems_to_go_back_shows_no_idle_time() {
    let mut clock = PromptCacheClock::default();
    clock.record_sampling_request_at(10 * SECOND);
    assert_eq!(
        clock.idle_since_last_request_at(9 * SECOND),
        Some(Duration::from_secs(0))
    );
    let fresh = PromptCacheClock::default();
    let mut marked = fresh;
    marked.mark_cold_resume_decided();
    assert!(!marked.cold_resume_already_decided());
}
