use context_shake::config::AutoShakeDurationToml;
use context_shake::config::AutoShakeModelToml;
use context_shake::config::AutoShakeProviderToml;
use context_shake::config::AutoShakeThresholdToml;
use context_shake::config::AutoShakeToml;
use context_shake::config::WrittenThreshold;
use context_shake::session::prompt_cache_clock::PromptCacheClock;
use context_shake::shake::auto::elidable_percent;
use context_shake::shake::auto::model_family_matches;
use context_shake::shake::auto::AutoShakeConfig;
use context_shake::shake::auto::AutoShakeDecision;
use context_shake::shake::auto::AutoShakeSkip;
use context_shake::shake::auto::AutoShakeThresholdKind;
use context_shake::time::Duration;

const LUNA: &str = "gpt-5.6-luna";
const ASTRA: &str = "gpt-6-astra";
const OPENAI: &str = "openai";

fn read_threshold(value: &toml::Value) -> Result<AutoShakeThresholdToml, String> {
    match value {
        toml::Value::Integer(n) => AutoShakeThresholdToml::from_bare_int(*n),
        toml::Value::String(s) => AutoShakeThresholdToml::parse_str(s),
        other => Err(format!("neither a number nor a string: {other:?}")),
    }
}

fn read_duration(value: &toml::Value) -> Result<AutoShakeDurationToml, String> {
    match value {
        toml::Value::Integer(n) => AutoShakeDurationToml::from_int(*n),
        toml::Value::String(s) => AutoShakeDurationToml::parse_str(s),
        other => Err(format!("neither a number nor a string: {other:?}")),
    }
}

fn parse(value: &str) -> Result<AutoShakeToml, String> {
    let table = toml::from_str::<toml::Table>(value).map_err(|error| error.to_string())?;
    let mut parsed = AutoShakeToml::default();
    for (key, value) in &table {
        match key.as_str() {
            "threshold" => parsed.threshold = Some(read_threshold(value)?),
            "min_elidable_percent" => parsed.min_elidable_percent = value.as_integer(),
            "min_savings_tokens" => parsed.min_savings_tokens = value.as_integer(),
            "cold_resume" => parsed.cold_resume = value.as_bool(),
            "cache_ttl" => parsed.cache_ttl = Some(read_duration(value)?),
            "models" => {
                for (name, entry) in value.as_table().unwrap() {
                    let threshold = match entry.get("threshold") {
                        Some(threshold) => Some(read_threshold(threshold)?),
                        None => None,
                    };
                    parsed.models.push((
                        name.clone(),
                        AutoShakeModelToml {
                            threshold,
                            min_elidable_percent: entry
                                .get("min_elidable_percent")
                                .and_then(|percent| percent.as_integer()),
                        },
                    ));
                }
            }
            "providers" => {
                for (name, entry) in value.as_table().unwrap() {
                    let cache_ttl = match entry.get("cache_ttl") {
                        Some(ttl) => Some(read_duration(ttl)?),
                        None => None,
                    };
                    parsed
                        .providers
                        .push((name.clone(), AutoShakeProviderToml { cache_ttl }));
                }
            }
            other => return Err(format!("unknown field {other}")),
        }
    }
    Ok(parsed)
}

fn config(value: &str) -> AutoShakeConfig {
    let parsed = parse(value).expect("parse auto_shake toml");
    AutoShakeConfig::from_toml(Some(&parsed)).expect("valid auto_shake toml")
}

fn secs(n: u64) -> Duration {
    Duration::from_secs(n)
}

fn hours(n: u64) -> Duration {
    Duration::from_secs(3_600 * n)
}

fn preview(min_elidable_percent: i64) -> AutoShakeDecision {
    AutoShakeDecision::Preview {
        min_elidable_percent,
        min_savings_tokens: 4_000,
    }
}

#[test]
fn gpt_5_6_family_defaults_to_an_absolute_160k_token_threshold() {
    let config = AutoShakeConfig::default();
    for slug in ["gpt-5.6", "gpt-5.6-sol", "gpt-5.6-terra", LUNA] {
        let settings = config.settings_for_model(slug);
        assert!(settings.enabled, "{slug} should default to enabled");
        assert_eq!(
            settings.threshold,
            AutoShakeThresholdKind::Tokens(160_000),
            "{slug}"
        );
        assert_eq!(settings.min_elidable_percent, 30, "{slug}");
    }
}

#[test]
fn gpt_5_6_family_can_be_overridden_to_inherit_the_global_value() {
    let config = config(
        r#"
threshold = "75%"
[models."gpt-5.6"]
threshold = "inherit"
"#,
    );
    let settings = config.settings_for_model(LUNA);
    assert!(settings.enabled);
    assert_eq!(settings.threshold, AutoShakeThresholdKind::Percent(75));
}

#[test]
fn gpt_6_astra_is_on_at_forty_percent_by_default() {
    let settings = AutoShakeConfig::default().settings_for_model(ASTRA);
    assert!(settings.enabled);
    assert_eq!(settings.threshold, AutoShakeThresholdKind::Percent(40));
    assert_eq!(settings.min_elidable_percent, 30);
}

#[test]
fn unknown_families_inherit_the_global_default() {
    let settings = AutoShakeConfig::default().settings_for_model("some-local-model");
    assert!(settings.enabled);
    assert_eq!(settings.threshold, AutoShakeThresholdKind::Percent(60));
}

#[test]
fn provider_and_region_qualifiers_are_stripped() {
    let config = AutoShakeConfig::default();
    for slug in [
        "us.openai.gpt-5.6-sol",
        "global.openai.gpt-5.6-sol",
        "bedrock/us.openai.gpt-5.6-sol",
    ] {
        assert!(config.settings_for_model(slug).enabled, "{slug}");
        assert_eq!(
            config.settings_for_model(slug).threshold,
            AutoShakeThresholdKind::Tokens(160_000)
        );
    }
    let settings = config.settings_for_model("gpt-5.61-sol");
    assert!(settings.enabled);
    assert_eq!(settings.threshold, AutoShakeThresholdKind::Percent(60));
}

#[test]
fn family_off_beats_global_percent() {
    let config = config(
        r#"
threshold = 75
[models."gpt-6-astra"]
threshold = "off"
"#,
    );
    assert!(!config.settings_for_model(ASTRA).enabled);
    let settings = config.settings_for_model("some-local-model");
    assert!(settings.enabled);
    assert_eq!(settings.threshold, AutoShakeThresholdKind::Percent(75));
}

#[test]
fn family_percent_beats_global_off() {
    let config = config(
        r#"
threshold = "off"
[models."gpt-6-astra"]
threshold = 55
"#,
    );
    let settings = config.settings_for_model(ASTRA);
    assert!(settings.enabled);
    assert_eq!(settings.threshold, AutoShakeThresholdKind::Percent(55));
    assert!(config.settings_for_model(LUNA).enabled);
    assert_eq!(
        config.settings_for_model(LUNA).threshold,
        AutoShakeThresholdKind::Tokens(160_000)
    );
    assert!(!config.settings_for_model("some-local-model").enabled);
}

#[test]
fn percent_string_with_percent_sign_parses() {
    let config = config(
        r#"
[models."gpt-6-astra"]
threshold = "45%"
"#,
    );
    let settings = config.settings_for_model(ASTRA);
    assert!(settings.enabled);
    assert_eq!(settings.threshold, AutoShakeThresholdKind::Percent(45));
}

#[test]
fn absolute_token_threshold_string_parses() {
    let config = config(
        r#"
[models."gpt-6-astra"]
threshold = "160k"
"#,
    );
    let settings = config.settings_for_model(ASTRA);
    assert!(settings.enabled);
    assert_eq!(settings.threshold, AutoShakeThresholdKind::Tokens(160_000));
}

#[test]
fn global_inherit_is_rejected() {
    let parsed = parse("threshold = \"inherit\"\n").expect("parse auto_shake toml");
    let error = AutoShakeConfig::from_toml(Some(&parsed))
        .expect_err("global inherit must be a config error");
    assert!(error.contains("inherit"), "{error}");
}

#[test]
fn per_family_min_elidable_percent_overrides_the_builtin_default() {
    let config = config(
        r#"
[models."gpt-6-astra"]
threshold = 80
min_elidable_percent = 10
"#,
    );
    let settings = config.settings_for_model(ASTRA);
    assert!(settings.enabled);
    assert_eq!(settings.threshold, AutoShakeThresholdKind::Percent(80));
    assert_eq!(settings.min_elidable_percent, 10);

    assert!(config.settings_for_model(LUNA).enabled);
    assert_eq!(
        config.settings_for_model(LUNA).threshold,
        AutoShakeThresholdKind::Tokens(160_000)
    );
}

#[test]
fn global_min_elidable_percent_wins_over_family_entry() {
    let config = config(
        r#"
min_elidable_percent = 5
[models."gpt-6-astra"]
min_elidable_percent = 90
"#,
    );
    assert_eq!(config.settings_for_model(ASTRA).min_elidable_percent, 5);
}

#[test]
fn out_of_range_percents_are_clamped() {
    let config = config("threshold = \"400%\"\nmin_elidable_percent = -5\n");
    let settings = config.settings_for_model("some-local-model");
    assert_eq!(settings.threshold, AutoShakeThresholdKind::Percent(100));
    assert_eq!(settings.min_elidable_percent, 0);
}

#[test]
fn a_bare_integer_above_one_hundred_is_an_absolute_token_count() {
    let config = config("threshold = 400\n");
    let settings = config.settings_for_model("some-local-model");
    assert_eq!(settings.threshold, AutoShakeThresholdKind::Tokens(400));
}

#[test]
fn threshold_compares_against_the_resolved_context_window() {
    let config = AutoShakeConfig::default();
    assert_eq!(
        config.decide(ASTRA, 39_999, Some(100_000), true),
        AutoShakeDecision::Skip(AutoShakeSkip::BelowThreshold)
    );
    assert_eq!(
        config.decide(ASTRA, 40_000, Some(100_000), true),
        AutoShakeDecision::Preview {
            min_elidable_percent: 30,
            min_savings_tokens: 4_000,
        }
    );
}

#[test]
fn absolute_threshold_fires_without_a_context_window() {
    let config = AutoShakeConfig::default();
    assert_eq!(
        config.decide(LUNA, 159_999, None, true),
        AutoShakeDecision::Skip(AutoShakeSkip::BelowThreshold)
    );
    assert_eq!(config.decide(LUNA, 160_000, None, true), preview(30));
}

#[test]
fn absolute_threshold_is_capped_at_a_smaller_context_window() {
    let config = AutoShakeConfig::default();
    assert_eq!(
        config.decide(LUNA, 99_999, Some(100_000), true),
        AutoShakeDecision::Skip(AutoShakeSkip::BelowThreshold)
    );
    assert_eq!(
        config.decide(LUNA, 100_000, Some(100_000), true),
        preview(30)
    );
}

#[test]
fn absolute_threshold_uses_its_own_value_under_a_larger_context_window() {
    let config = AutoShakeConfig::default();
    assert_eq!(
        config.decide(LUNA, 159_999, Some(872_000), true),
        AutoShakeDecision::Skip(AutoShakeSkip::BelowThreshold)
    );
    assert_eq!(
        config.decide(LUNA, 160_000, Some(872_000), true),
        preview(30)
    );
}

#[test]
fn decide_skips_disabled_models_before_anything_else() {
    let families = config(
        r#"
[models."gpt-5.6"]
threshold = "off"
"#,
    );
    assert_eq!(
        families.decide(LUNA, 900_000, Some(100_000), true),
        AutoShakeDecision::Skip(AutoShakeSkip::Disabled)
    );

    let families = config(
        r#"
threshold = 75
[models."gpt-6-astra"]
threshold = "off"
"#,
    );
    assert_eq!(
        families.decide(ASTRA, 900_000, Some(100_000), true),
        AutoShakeDecision::Skip(AutoShakeSkip::Disabled)
    );

    let global = config("threshold = \"off\"\n");
    assert_eq!(
        global.decide("some-local-model", 900_000, Some(100_000), true),
        AutoShakeDecision::Skip(AutoShakeSkip::Disabled)
    );
}

#[test]
fn decide_skips_ephemeral_threads() {
    assert_eq!(
        AutoShakeConfig::default().decide(LUNA, 900_000, Some(100_000), false),
        AutoShakeDecision::Skip(AutoShakeSkip::EphemeralThread)
    );
}

#[test]
fn decide_skips_percent_thresholds_without_a_context_window() {
    let config = AutoShakeConfig::default();
    assert_eq!(
        config.decide(ASTRA, 90_000, None, true),
        AutoShakeDecision::Skip(AutoShakeSkip::NoContextWindow)
    );
    assert_eq!(
        config.decide(ASTRA, 90_000, Some(0), true),
        AutoShakeDecision::Skip(AutoShakeSkip::NoContextWindow)
    );
}

#[test]
fn the_builtin_cache_ttl_policy_only_identifies_openai() {
    let config = AutoShakeConfig::default();
    assert_eq!(
        config.resolved_cache_ttl_for_provider(Some(OPENAI)).ttl,
        Some(hours(1))
    );
    for provider in [
        "amazon-bedrock",
        "amazon-bedrock-runtime",
        "ollama",
        "lmstudio",
        "some-custom-provider",
    ] {
        assert_eq!(
            config.resolved_cache_ttl_for_provider(Some(provider)).ttl,
            None,
            "{provider}"
        );
    }
}

#[test]
fn cold_resume_skips_when_provider_ttl_is_unknown() {
    assert_eq!(
        AutoShakeConfig::default().decide_cold_resume(
            LUNA,
            Some("ollama"),
            true,
            Some(secs(3_600)),
            false,
        ),
        AutoShakeDecision::Skip(AutoShakeSkip::CacheStalenessUnknown)
    );
}

#[test]
fn cache_ttl_precedence_is_provider_then_global_then_builtin() {
    let global = config("cache_ttl = \"30m\"\n");
    assert_eq!(
        global.resolved_cache_ttl_for_provider(Some(OPENAI)).ttl,
        Some(secs(1_800)),
        "a global override replaces the built-in openai entry"
    );
    assert_eq!(
        global.resolved_cache_ttl_for_provider(Some("ollama")).ttl,
        Some(secs(1_800)),
        "a global override resolves an otherwise unknown provider"
    );

    let both = config(
        r#"
cache_ttl = "30m"
[providers."ollama"]
cache_ttl = "2h"
"#,
    );
    assert_eq!(
        both.resolved_cache_ttl_for_provider(Some("ollama")).ttl,
        Some(secs(7_200))
    );
    assert_eq!(
        both.resolved_cache_ttl_for_provider(Some(OPENAI)).ttl,
        Some(secs(1_800))
    );
}

#[test]
fn cold_resume_fires_once_the_provider_ttl_has_elapsed() {
    let config = AutoShakeConfig::default();
    assert_eq!(
        config.decide_cold_resume(LUNA, Some(OPENAI), true, Some(secs(3_599)), false),
        AutoShakeDecision::Skip(AutoShakeSkip::CacheStillWarm)
    );
    for idle in [hours(1), secs(3_601), hours(10)] {
        assert_eq!(
            config.decide_cold_resume(LUNA, Some(OPENAI), true, Some(idle), false),
            preview(30),
            "{idle:?}"
        );
    }
}

#[test]
fn cold_resume_ignores_the_context_threshold_entirely() {
    let config = AutoShakeConfig::default();
    assert_eq!(
        config.decide(LUNA, 1_000, None, true),
        AutoShakeDecision::Skip(AutoShakeSkip::BelowThreshold)
    );
    assert_eq!(
        config.decide_cold_resume(LUNA, Some(OPENAI), true, Some(hours(1)), false),
        preview(30)
    );
}

#[test]
fn cold_resume_is_deduped_within_one_idle_window() {
    let config = AutoShakeConfig::default();
    assert_eq!(
        config.decide_cold_resume(LUNA, Some(OPENAI), true, Some(hours(5)), true),
        AutoShakeDecision::Skip(AutoShakeSkip::ColdResumeAlreadyDecided)
    );
}

#[test]
fn a_thread_that_never_sampled_has_nothing_to_cold_resume_from() {
    assert_eq!(
        AutoShakeConfig::default().decide_cold_resume(LUNA, Some(OPENAI), true, None, false),
        AutoShakeDecision::Skip(AutoShakeSkip::CacheStalenessUnknown)
    );
}

#[test]
fn cold_resume_false_disables_only_this_trigger() {
    let config = config("cold_resume = false\n");
    assert_eq!(
        config.decide_cold_resume(LUNA, Some(OPENAI), true, Some(hours(5)), false),
        AutoShakeDecision::Skip(AutoShakeSkip::ColdResumeDisabled)
    );
    assert_eq!(config.decide(LUNA, 160_000, None, true), preview(30));
}

#[test]
fn threshold_off_disables_cold_resume_too() {
    let config = config(
        r#"
[models."gpt-5.6"]
threshold = "off"
"#,
    );
    assert_eq!(
        config.decide_cold_resume(LUNA, Some(OPENAI), true, Some(hours(5)), false),
        AutoShakeDecision::Skip(AutoShakeSkip::Disabled)
    );
    assert_eq!(
        config.decide_cold_resume(ASTRA, Some(OPENAI), true, Some(hours(5)), false),
        preview(30)
    );
}

#[test]
fn cold_resume_still_needs_a_persistent_thread() {
    assert_eq!(
        AutoShakeConfig::default().decide_cold_resume(
            LUNA,
            Some(OPENAI),
            false,
            Some(hours(5)),
            false,
        ),
        AutoShakeDecision::Skip(AutoShakeSkip::EphemeralThread)
    );
}

#[test]
fn cold_resume_carries_the_resolved_min_elidable_condition() {
    let config = config(
        r#"
min_elidable_percent = 12
min_savings_tokens = 900
"#,
    );
    assert_eq!(
        config.decide_cold_resume(LUNA, Some(OPENAI), true, Some(hours(5)), false),
        AutoShakeDecision::Preview {
            min_elidable_percent: 12,
            min_savings_tokens: 900,
        }
    );
}

#[test]
fn a_zero_cache_ttl_treats_every_gap_as_expired() {
    let config = config("cache_ttl = 0\n");
    assert_eq!(
        config.resolved_cache_ttl_for_provider(Some(OPENAI)).ttl,
        Some(secs(0))
    );
    assert_eq!(
        config.decide_cold_resume(LUNA, Some(OPENAI), true, Some(secs(0)), false),
        preview(30)
    );
}

#[test]
fn duration_strings_accept_seconds_minutes_hours_and_days() {
    for (written, expected_secs) in [
        ("\"90s\"", 90),
        ("\"30m\"", 1_800),
        ("\"1h\"", 3_600),
        ("\"2d\"", 172_800),
        ("450", 450),
        ("\"450\"", 450),
    ] {
        let config = config(&format!("cache_ttl = {written}\n"));
        assert_eq!(
            config.resolved_cache_ttl_for_provider(Some(OPENAI)).ttl,
            Some(secs(expected_secs)),
            "{written}"
        );
    }
}

#[test]
fn a_negative_cache_ttl_is_a_config_error() {
    let error = match parse("cache_ttl = -5\n") {
        Ok(_) => panic!("a negative duration must be rejected"),
        Err(error) => error,
    };
    assert!(error.contains("negative"), "{error}");
}

#[test]
fn min_elidable_share_gates_the_shake() {
    assert_eq!(elidable_percent(1_000, 700), 30);
    assert_eq!(elidable_percent(1_000, 710), 29);
    assert_eq!(elidable_percent(1_000, 1_000), 0);
    assert_eq!(elidable_percent(1_000, 1_200), 0);
    assert_eq!(elidable_percent(0, 0), 0);
}

#[test]
fn cold_resume_decision_is_deduped_before_the_next_sampling_request() {
    let config = config("cache_ttl = 0\n");
    let mut clock = PromptCacheClock::default();
    clock.record_sampling_request_at(1_000);
    let decide = |clock: &PromptCacheClock| {
        config.decide_cold_resume(
            LUNA,
            Some(OPENAI),
            true,
            clock.idle_since_last_request_at(2_000),
            clock.cold_resume_already_decided(),
        )
    };
    assert_eq!(decide(&clock), preview(30));
    clock.mark_cold_resume_decided();
    assert!(clock.cold_resume_already_decided());
    let repeated = decide(&clock);
    assert_eq!(
        repeated,
        AutoShakeDecision::Skip(AutoShakeSkip::ColdResumeAlreadyDecided)
    );
    assert_eq!(
        AutoShakeSkip::ColdResumeAlreadyDecided.as_str(),
        "cold_resume_already_decided"
    );
    clock.record_sampling_request_at(3_000);
    assert_eq!(decide(&clock), preview(30));
}

#[test]
fn families_match_by_name_and_dash() {
    assert!(model_family_matches("gpt-5.6", "gpt-5.6"));
    assert!(model_family_matches("gpt-5.6-sol", "gpt-5.6"));
    assert!(model_family_matches("bedrock/us.openai.gpt-5.6", "gpt-5.6"));
    assert!(!model_family_matches("gpt-5.61-sol", "gpt-5.6"));
    assert!(!model_family_matches("gpt-5", "gpt-5.6"));
}

#[test]
fn skips_have_machine_readable_names() {
    for (skip, name) in [
        (AutoShakeSkip::Disabled, "disabled"),
        (AutoShakeSkip::NoContextWindow, "no_context_window"),
        (AutoShakeSkip::BelowThreshold, "below_threshold"),
        (AutoShakeSkip::EphemeralThread, "ephemeral_thread"),
        (AutoShakeSkip::ColdResumeDisabled, "cold_resume_disabled"),
        (AutoShakeSkip::CacheStillWarm, "cache_still_warm"),
        (
            AutoShakeSkip::CacheStalenessUnknown,
            "cache_staleness_unknown",
        ),
    ] {
        assert_eq!(skip.as_str(), name);
    }
}

#[test]
fn size_decisions_are_monotone_and_a_full_window_is_due() {
    let config = AutoShakeConfig::default();
    let mut due = false;
    for tokens in (0..=200_000).step_by(5_000) {
        let now = config.decide(ASTRA, tokens, Some(200_000), true) == preview(30);
        assert!(now || !due);
        due = now;
    }
    assert!(due);
}

#[test]
fn written_thresholds_are_read_back() {
    for threshold in [
        AutoShakeThresholdToml::Off,
        AutoShakeThresholdToml::Inherit,
        AutoShakeThresholdToml::Percent(1),
        AutoShakeThresholdToml::Percent(100),
        AutoShakeThresholdToml::Tokens(101),
        AutoShakeThresholdToml::Tokens(160_000),
    ] {
        let read = match threshold.written() {
            WrittenThreshold::Word(word) => AutoShakeThresholdToml::parse_str(word),
            WrittenThreshold::Number(n) => AutoShakeThresholdToml::from_bare_int(n),
        };
        assert_eq!(read, Ok(threshold));
    }
}
