//! When a shake is due without anyone asking for it.
//!
//! These are decisions only: they resolve the settings for a model and say
//! whether a shake should be measured. A decision to measure still has to find
//! enough to remove.

use vstd::prelude::*;

use crate::cache_staleness;
use crate::cache_staleness::CacheStaleness;
use crate::cache_staleness::CacheTtlInputs;
use crate::cache_staleness::ResolvedCacheTtl;
use crate::config;
use crate::config::AutoShakeDurationToml;
use crate::config::AutoShakeThresholdToml;
use crate::config::AutoShakeToml;
use crate::text;
use crate::time::Duration;
use crate::time::NANOS_PER_SEC;

verus! {

/// The share of the context window at which a shake is due by default.
pub const DEFAULT_THRESHOLD_PERCENT: i64 = 60;

/// The share of the context that a shake has to free by default.
pub const DEFAULT_MIN_ELIDABLE_PERCENT: i64 = 30;

/// The tokens that a shake has to free by default.
pub const DEFAULT_MIN_SAVINGS_TOKENS: i64 = 4_000;

/// The tokens at which a shake is due by default for the `gpt-5.6` family,
/// whatever its context window: well below the point where long contexts cost
/// more.
pub const GPT_5_6_DEFAULT_THRESHOLD_TOKENS: i64 = 160_000;

/// The share of the context window at which a shake is due by default for the
/// `gpt-6-astra` family.
pub const GPT_6_ASTRA_DEFAULT_THRESHOLD_PERCENT: i64 = 40;

/// Whether an expired prompt cache makes a shake due by default: the next
/// request pays for the whole context anyway.
pub const DEFAULT_COLD_RESUME: bool = true;

/// A threshold with nothing left to resolve.
#[derive(Clone, Copy, Debug, PartialEq, Eq, Structural)]
pub enum AutoShakeThresholdKind {
    /// A share of the context window.
    Percent(i64),
    /// A number of tokens.
    Tokens(i64),
}

/// The settings that hold for one model.
#[derive(Clone, Copy, Debug, PartialEq, Eq, Structural)]
pub struct AutoShakeSettings {
    pub enabled: bool,
    pub threshold: AutoShakeThresholdKind,
    pub min_elidable_percent: i64,
    pub min_savings_tokens: i64,
    /// Whether an expired prompt cache makes a shake due. It counts only where
    /// automatic shakes are enabled at all.
    pub cold_resume: bool,
}

/// Why no shake is measured.
#[derive(Clone, Copy, Debug, PartialEq, Eq, Structural)]
pub enum AutoShakeSkip {
    /// Automatic shakes are off for the model.
    Disabled,
    /// A share of the context window is asked for, and the window is unknown.
    NoContextWindow,
    /// The context has not reached the threshold.
    BelowThreshold,
    /// The thread keeps no artifacts, so nothing could be recovered.
    EphemeralThread,
    /// An expired prompt cache is not to make a shake due.
    ColdResumeDisabled,
    /// The prompt cache has not expired.
    CacheStillWarm,
    /// This idle interval has made a shake due already.
    ColdResumeAlreadyDecided,
    /// Whether the prompt cache has expired is not known.
    CacheStalenessUnknown,
}

impl AutoShakeSkip {
    /// The machine-readable name.
    pub fn as_str(self) -> (name: &'static str)
        ensures
            name@ == match self {
                AutoShakeSkip::Disabled => "disabled"@,
                AutoShakeSkip::NoContextWindow => "no_context_window"@,
                AutoShakeSkip::BelowThreshold => "below_threshold"@,
                AutoShakeSkip::EphemeralThread => "ephemeral_thread"@,
                AutoShakeSkip::ColdResumeDisabled => "cold_resume_disabled"@,
                AutoShakeSkip::CacheStillWarm => "cache_still_warm"@,
                AutoShakeSkip::ColdResumeAlreadyDecided => "cold_resume_already_decided"@,
                AutoShakeSkip::CacheStalenessUnknown => "cache_staleness_unknown"@,
            },
    {
        match self {
            AutoShakeSkip::Disabled => "disabled",
            AutoShakeSkip::NoContextWindow => "no_context_window",
            AutoShakeSkip::BelowThreshold => "below_threshold",
            AutoShakeSkip::EphemeralThread => "ephemeral_thread",
            AutoShakeSkip::ColdResumeDisabled => "cold_resume_disabled",
            AutoShakeSkip::CacheStillWarm => "cache_still_warm",
            AutoShakeSkip::ColdResumeAlreadyDecided => "cold_resume_already_decided",
            AutoShakeSkip::CacheStalenessUnknown => "cache_staleness_unknown",
        }
    }
}

/// Whether a shake is measured, and what it then has to free.
#[derive(Clone, Copy, Debug, PartialEq, Eq, Structural)]
pub enum AutoShakeDecision {
    Skip(AutoShakeSkip),
    Preview { min_elidable_percent: i64, min_savings_tokens: i64 },
}

/// Settings of one model family.
#[derive(Clone, Copy, Debug, PartialEq, Eq, Structural)]
pub struct AutoShakeModelConfig {
    pub threshold: Option<AutoShakeThresholdToml>,
    pub min_elidable_percent: Option<i64>,
}

/// Settings of one provider.
#[derive(Clone, Copy, Debug, PartialEq, Eq, Structural)]
pub struct AutoShakeProviderConfig {
    pub cache_ttl: Option<AutoShakeDurationToml>,
}

/// Settings of automatic shakes.
#[derive(Debug, PartialEq, Eq)]
pub struct AutoShakeConfig {
    pub threshold: Option<AutoShakeThresholdToml>,
    pub min_elidable_percent: Option<i64>,
    pub min_savings_tokens: Option<i64>,
    /// Settings of model families, by the family's name.
    pub models: Vec<(String, AutoShakeModelConfig)>,
    pub cold_resume: Option<bool>,
    pub cache_ttl: Option<AutoShakeDurationToml>,
    /// Settings of providers, by the provider's id.
    pub providers: Vec<(String, AutoShakeProviderConfig)>,
}

impl Default for AutoShakeConfig {
    /// Nothing is set.
    fn default() -> (r: Self)
        ensures
            r.threshold is None,
            r.min_elidable_percent is None,
            r.min_savings_tokens is None,
            r.models@.len() == 0,
            r.cold_resume is None,
            r.cache_ttl is None,
            r.providers@.len() == 0,
    {
        AutoShakeConfig {
            threshold: None,
            min_elidable_percent: None,
            min_savings_tokens: None,
            models: Vec::new(),
            cold_resume: None,
            cache_ttl: None,
            providers: Vec::new(),
        }
    }
}

/// A model's name without the qualifiers of a provider or a region.
pub open spec fn bare_slug(model_slug: Seq<char>) -> Seq<char> {
    text::after_last(text::after_last(model_slug, "/"@), "openai."@)
}

/// A family takes in its own name and every name that extends it by a hyphen.
pub open spec fn family_matches(model_slug: Seq<char>, family: Seq<char>) -> bool {
    let bare = bare_slug(model_slug);
    bare == family || (text::starts_with(bare, family) && bare.len() > family.len()
        && bare[family.len() as int] == '-')
}

/// Decides [`family_matches`].
pub fn model_family_matches(model_slug: &str, family: &str) -> (r: bool)
    ensures
        r == family_matches(model_slug@, family@),
{
    let slug = text::chars_of(model_slug);
    let family = text::chars_of(family);
    let unqualified = text::rest_after_last(slug.as_slice(), "/");
    let bare = text::rest_after_last(unqualified, "openai.");
    if text::same_chars(bare, family.as_slice()) {
        return true;
    }
    text::matches_at(bare, family.as_slice(), 0) && bare.len() > family.len()
        && bare[family.len()] == '-'
}

/// Of the first `n` families that take in a model, the position of the one that
/// comes first by name.
pub open spec fn family_entry(
    models: Seq<(String, AutoShakeModelConfig)>,
    model_slug: Seq<char>,
    n: int,
) -> Option<int>
    decreases n,
{
    if n <= 0 {
        None
    } else {
        let best = family_entry(models, model_slug, n - 1);
        if family_matches(model_slug, models[n - 1].0@) && (best is None || text::lex_before(
            models[n - 1].0@,
            models[best->0].0@,
        )) {
            Some(n - 1)
        } else {
            best
        }
    }
}

/// The first of the first `n` providers with an id.
pub open spec fn provider_entry(
    providers: Seq<(String, AutoShakeProviderConfig)>,
    id: Seq<char>,
    n: int,
) -> Option<AutoShakeProviderConfig>
    decreases n,
{
    if n <= 0 {
        None
    } else {
        match provider_entry(providers, id, n - 1) {
            Some(entry) => Some(entry),
            None => if providers[n - 1].0@ == id {
                Some(providers[n - 1].1)
            } else {
                None
            },
        }
    }
}

/// The threshold that a family has by default.
pub open spec fn family_default(model_slug: Seq<char>) -> Option<AutoShakeThresholdToml> {
    if family_matches(model_slug, "gpt-5.6"@) {
        Some(AutoShakeThresholdToml::Tokens(GPT_5_6_DEFAULT_THRESHOLD_TOKENS))
    } else if family_matches(model_slug, "gpt-6-astra"@) {
        Some(AutoShakeThresholdToml::Percent(GPT_6_ASTRA_DEFAULT_THRESHOLD_PERCENT))
    } else {
        None
    }
}

/// A number kept inside a range.
pub open spec fn clamped(n: int, low: int, high: int) -> int {
    if n < low {
        low
    } else if n > high {
        high
    } else {
        n
    }
}

/// The duration of a setting.
pub open spec fn setting_duration(setting: AutoShakeDurationToml) -> Duration {
    Duration {
        nanos: ((if setting.0 < 0 {
            -setting.0
        } else {
            setting.0 as int
        }) * NANOS_PER_SEC) as u128,
    }
}

fn auto_shake_duration(value: AutoShakeDurationToml) -> (d: Duration)
    ensures
        d == setting_duration(value),
{
    let secs: i64 = value.as_secs();
    let magnitude: u64 = if secs == i64::MIN {
        9_223_372_036_854_775_808
    } else if secs < 0 {
        (-secs) as u64
    } else {
        secs as u64
    };
    Duration::from_secs(magnitude)
}

/// Why a global `inherit` is refused.
pub open spec fn global_inherit_text() -> Seq<char> {
    "auto_shake.threshold cannot be \"inherit\": there is nothing for the global scope to inherit from. Use \"off\" or a percent value, or omit the key to keep the built-in default."@
}

/// The settings of a configuration file, taken over one by one.
pub open spec fn takes_over(config: AutoShakeConfig, toml: AutoShakeToml) -> bool {
    &&& config.threshold == toml.threshold
    &&& config.min_elidable_percent == toml.min_elidable_percent
    &&& config.min_savings_tokens == toml.min_savings_tokens
    &&& config.cold_resume == toml.cold_resume
    &&& config.cache_ttl == toml.cache_ttl
    &&& config.models@.len() == toml.models@.len()
    &&& forall|i: int|
        0 <= i < toml.models@.len() ==> (#[trigger] config.models@[i]).0@ == toml.models@[i].0@
            && config.models@[i].1 == (AutoShakeModelConfig {
            threshold: toml.models@[i].1.threshold,
            min_elidable_percent: toml.models@[i].1.min_elidable_percent,
        })
    &&& config.providers@.len() == toml.providers@.len()
    &&& forall|i: int|
        0 <= i < toml.providers@.len() ==> (#[trigger] config.providers@[i]).0@
            == toml.providers@[i].0@ && config.providers@[i].1 == (AutoShakeProviderConfig {
            cache_ttl: toml.providers@[i].1.cache_ttl,
        })
}

/// Nothing is set.
pub open spec fn is_unset(config: AutoShakeConfig) -> bool {
    &&& config.threshold is None
    &&& config.min_elidable_percent is None
    &&& config.min_savings_tokens is None
    &&& config.models@.len() == 0
    &&& config.cold_resume is None
    &&& config.cache_ttl is None
    &&& config.providers@.len() == 0
}

fn clamp(n: i64, low: i64, high: i64) -> (r: i64)
    requires
        low <= high,
    ensures
        r == clamped(n as int, low as int, high as int),
{
    if n < low {
        low
    } else if n > high {
        high
    } else {
        n
    }
}

impl AutoShakeConfig {
    /// The threshold of all models.
    pub open spec fn global_threshold(self) -> AutoShakeThresholdToml {
        match self.threshold {
            Some(threshold) => threshold,
            None => AutoShakeThresholdToml::Percent(DEFAULT_THRESHOLD_PERCENT),
        }
    }

    /// What the user set for the family of a model.
    pub open spec fn family_of(self, model_slug: Seq<char>) -> Option<AutoShakeModelConfig> {
        match family_entry(self.models@, model_slug, self.models@.len() as int) {
            Some(i) => Some(self.models@[i].1),
            None => None,
        }
    }

    /// The threshold of a model: what the user set for its family, then what
    /// the family has by default, then the global threshold. `inherit` stands
    /// for the global threshold.
    pub open spec fn threshold_for(self, model_slug: Seq<char>) -> AutoShakeThresholdToml {
        let set = match self.family_of(model_slug) {
            Some(family) => family.threshold,
            None => None,
        };
        match set {
            Some(AutoShakeThresholdToml::Inherit) => self.global_threshold(),
            Some(threshold) => threshold,
            None => match family_default(model_slug) {
                Some(threshold) => threshold,
                None => self.global_threshold(),
            },
        }
    }

    /// The settings that hold for a model.
    pub open spec fn settings_of(self, model_slug: Seq<char>) -> AutoShakeSettings {
        let threshold = self.threshold_for(model_slug);
        let family_share = match self.family_of(model_slug) {
            Some(family) => family.min_elidable_percent,
            None => None,
        };
        let share = match self.min_elidable_percent {
            Some(share) => share,
            None => match family_share {
                Some(share) => share,
                None => DEFAULT_MIN_ELIDABLE_PERCENT,
            },
        };
        let savings = match self.min_savings_tokens {
            Some(savings) => savings,
            None => DEFAULT_MIN_SAVINGS_TOKENS,
        };
        AutoShakeSettings {
            enabled: threshold is Percent || threshold is Tokens,
            threshold: match threshold {
                AutoShakeThresholdToml::Percent(percent) => AutoShakeThresholdKind::Percent(
                    clamped(percent as int, 1, 100) as i64,
                ),
                AutoShakeThresholdToml::Tokens(tokens) => AutoShakeThresholdKind::Tokens(
                    if tokens < 1 {
                        1
                    } else {
                        tokens
                    },
                ),
                _ => AutoShakeThresholdKind::Percent(DEFAULT_THRESHOLD_PERCENT),
            },
            min_elidable_percent: clamped(share as int, 0, 100) as i64,
            min_savings_tokens: if savings < 0 {
                0
            } else {
                savings
            },
            cold_resume: match self.cold_resume {
                Some(cold_resume) => cold_resume,
                None => DEFAULT_COLD_RESUME,
            },
        }
    }

    /// The lifetime of a provider's prompt cache under these settings.
    pub open spec fn ttl_for(self, provider_id: Option<Seq<char>>) -> ResolvedCacheTtl {
        let entry = match provider_id {
            Some(id) => provider_entry(self.providers@, id, self.providers@.len() as int),
            None => None,
        };
        cache_staleness::resolved_ttl(
            provider_id,
            match entry {
                Some(entry) => match entry.cache_ttl {
                    Some(ttl) => Some(setting_duration(ttl)),
                    None => None,
                },
                None => None,
            },
            match self.cache_ttl {
                Some(ttl) => Some(setting_duration(ttl)),
                None => None,
            },
        )
    }

    /// Takes the settings of a configuration file. A global `inherit` has
    /// nothing to inherit from, and is refused.
    pub fn from_toml(toml: Option<&AutoShakeToml>) -> (r: Result<Self, String>)
        ensures
            match toml {
                None => r matches Ok(config) && is_unset(config),
                Some(toml) => if toml.threshold == Some(AutoShakeThresholdToml::Inherit) {
                    r matches Err(message) && message@ == global_inherit_text()
                } else {
                    r matches Ok(config) && takes_over(config, *toml)
                },
            },
    {
        let toml = match toml {
            None => {
                return Ok(AutoShakeConfig::default());
            },
            Some(toml) => toml,
        };
        if let Some(AutoShakeThresholdToml::Inherit) = toml.threshold {
            return Err(
                "auto_shake.threshold cannot be \"inherit\": there is nothing for the global scope to inherit from. Use \"off\" or a percent value, or omit the key to keep the built-in default.".to_owned(),
            );
        }
        let mut models: Vec<(String, AutoShakeModelConfig)> = Vec::new();
        let mut i: usize = 0;
        while i < toml.models.len()
            invariant
                i <= toml.models@.len(),
                models@.len() == i,
                forall|k: int|
                    0 <= k < i ==> (#[trigger] models@[k]).0@ == toml.models@[k].0@ && models@[k].1
                        == (AutoShakeModelConfig {
                        threshold: toml.models@[k].1.threshold,
                        min_elidable_percent: toml.models@[k].1.min_elidable_percent,
                    }),
            decreases toml.models@.len() - i,
        {
            let entry = &toml.models[i];
            models.push(
                (
                    entry.0.clone(),
                    AutoShakeModelConfig {
                        threshold: entry.1.threshold,
                        min_elidable_percent: entry.1.min_elidable_percent,
                    },
                ),
            );
            i = i + 1;
        }
        let mut providers: Vec<(String, AutoShakeProviderConfig)> = Vec::new();
        let mut j: usize = 0;
        while j < toml.providers.len()
            invariant
                j <= toml.providers@.len(),
                providers@.len() == j,
                forall|k: int|
                    0 <= k < j ==> (#[trigger] providers@[k]).0@ == toml.providers@[k].0@
                        && providers@[k].1 == (AutoShakeProviderConfig {
                        cache_ttl: toml.providers@[k].1.cache_ttl,
                    }),
            decreases toml.providers@.len() - j,
        {
            let entry = &toml.providers[j];
            providers.push(
                (entry.0.clone(), AutoShakeProviderConfig { cache_ttl: entry.1.cache_ttl }),
            );
            j = j + 1;
        }
        Ok(
            AutoShakeConfig {
                threshold: toml.threshold,
                min_elidable_percent: toml.min_elidable_percent,
                min_savings_tokens: toml.min_savings_tokens,
                models,
                cold_resume: toml.cold_resume,
                cache_ttl: toml.cache_ttl,
                providers,
            },
        )
    }

    /// What the user set for the family of a model.
    fn user_family(&self, model_slug: &str) -> (family: Option<AutoShakeModelConfig>)
        ensures
            family == self.family_of(model_slug@),
    {
        let mut best: Option<usize> = None;
        let mut i: usize = 0;
        while i < self.models.len()
            invariant
                i <= self.models@.len(),
                match best {
                    Some(b) => b < i && family_entry(self.models@, model_slug@, i as int) == Some(
                        b as int,
                    ),
                    None => family_entry(self.models@, model_slug@, i as int) is None,
                },
            decreases self.models@.len() - i,
        {
            if model_family_matches(model_slug, self.models[i].0.as_str()) {
                let first: bool = match best {
                    Some(b) => {
                        let name = text::chars_of(self.models[i].0.as_str());
                        let other = text::chars_of(self.models[b].0.as_str());
                        text::is_before(name.as_slice(), other.as_slice())
                    },
                    None => true,
                };
                if first {
                    best = Some(i);
                }
            }
            i = i + 1;
        }
        match best {
            Some(b) => Some(self.models[b].1),
            None => None,
        }
    }

    /// The threshold of all models.
    fn resolved_global_threshold(&self) -> (threshold: AutoShakeThresholdToml)
        ensures
            threshold == self.global_threshold(),
    {
        match self.threshold {
            Some(threshold) => threshold,
            None => AutoShakeThresholdToml::Percent(DEFAULT_THRESHOLD_PERCENT),
        }
    }

    /// The threshold of a model.
    fn resolved_threshold(&self, model_slug: &str) -> (threshold: AutoShakeThresholdToml)
        ensures
            threshold == self.threshold_for(model_slug@),
    {
        let set: Option<AutoShakeThresholdToml> = match self.user_family(model_slug) {
            Some(family) => family.threshold,
            None => None,
        };
        match set {
            Some(AutoShakeThresholdToml::Inherit) => self.resolved_global_threshold(),
            Some(threshold) => threshold,
            None => {
                if model_family_matches(model_slug, "gpt-5.6") {
                    AutoShakeThresholdToml::Tokens(GPT_5_6_DEFAULT_THRESHOLD_TOKENS)
                } else if model_family_matches(model_slug, "gpt-6-astra") {
                    AutoShakeThresholdToml::Percent(GPT_6_ASTRA_DEFAULT_THRESHOLD_PERCENT)
                } else {
                    self.resolved_global_threshold()
                }
            },
        }
    }

    /// The settings that hold for a model.
    pub fn settings_for_model(&self, model_slug: &str) -> (settings: AutoShakeSettings)
        ensures
            settings == self.settings_of(model_slug@),
    {
        let resolved = self.resolved_threshold(model_slug);
        let enabled: bool = match resolved {
            AutoShakeThresholdToml::Percent(_) => true,
            AutoShakeThresholdToml::Tokens(_) => true,
            _ => false,
        };
        let threshold = match resolved {
            AutoShakeThresholdToml::Percent(percent) => AutoShakeThresholdKind::Percent(
                clamp(percent, 1, 100),
            ),
            AutoShakeThresholdToml::Tokens(tokens) => AutoShakeThresholdKind::Tokens(
                if tokens < 1 {
                    1
                } else {
                    tokens
                },
            ),
            _ => AutoShakeThresholdKind::Percent(DEFAULT_THRESHOLD_PERCENT),
        };
        let family_share: Option<i64> = match self.user_family(model_slug) {
            Some(family) => family.min_elidable_percent,
            None => None,
        };
        let share: i64 = match self.min_elidable_percent {
            Some(share) => share,
            None => match family_share {
                Some(share) => share,
                None => DEFAULT_MIN_ELIDABLE_PERCENT,
            },
        };
        let savings: i64 = match self.min_savings_tokens {
            Some(savings) => savings,
            None => DEFAULT_MIN_SAVINGS_TOKENS,
        };
        AutoShakeSettings {
            enabled,
            threshold,
            min_elidable_percent: clamp(share, 0, 100),
            min_savings_tokens: if savings < 0 {
                0
            } else {
                savings
            },
            cold_resume: match self.cold_resume {
                Some(cold_resume) => cold_resume,
                None => DEFAULT_COLD_RESUME,
            },
        }
    }

    /// The lifetime of a provider's prompt cache under these settings.
    pub fn resolved_cache_ttl_for_provider(&self, provider_id: Option<&str>) -> (resolved:
        ResolvedCacheTtl)
        ensures
            resolved == self.ttl_for(cache_staleness::optional_text(provider_id)),
    {
        let provider_override: Option<Duration> = match provider_id {
            Some(id) => {
                let mut found: Option<AutoShakeProviderConfig> = None;
                let mut i: usize = 0;
                while i < self.providers.len()
                    invariant
                        i <= self.providers@.len(),
                        found == provider_entry(self.providers@, id@, i as int),
                    decreases self.providers@.len() - i,
                {
                    if found.is_none() && text::same_text(self.providers[i].0.as_str(), id) {
                        found = Some(self.providers[i].1);
                    }
                    i = i + 1;
                }
                match found {
                    Some(entry) => match entry.cache_ttl {
                        Some(ttl) => Some(auto_shake_duration(ttl)),
                        None => None,
                    },
                    None => None,
                }
            },
            None => None,
        };
        let global_override: Option<Duration> = match self.cache_ttl {
            Some(ttl) => Some(auto_shake_duration(ttl)),
            None => None,
        };
        cache_staleness::resolve_cache_ttl(
            CacheTtlInputs { provider_id, provider_override, global_override },
        )
    }

    /// Whether an expired prompt cache makes a shake due.
    pub open spec fn cold_resume_decision(
        self,
        model_slug: Seq<char>,
        provider_id: Option<Seq<char>>,
        persistent_thread: bool,
        idle: Option<Duration>,
        already_decided: bool,
    ) -> AutoShakeDecision {
        let settings = self.settings_of(model_slug);
        if !settings.enabled {
            AutoShakeDecision::Skip(AutoShakeSkip::Disabled)
        } else if !settings.cold_resume {
            AutoShakeDecision::Skip(AutoShakeSkip::ColdResumeDisabled)
        } else if !persistent_thread {
            AutoShakeDecision::Skip(AutoShakeSkip::EphemeralThread)
        } else if already_decided {
            AutoShakeDecision::Skip(AutoShakeSkip::ColdResumeAlreadyDecided)
        } else {
            match cache_staleness::staleness(idle, self.ttl_for(provider_id).ttl) {
                CacheStaleness::Warm => AutoShakeDecision::Skip(AutoShakeSkip::CacheStillWarm),
                CacheStaleness::Unknown => AutoShakeDecision::Skip(
                    AutoShakeSkip::CacheStalenessUnknown,
                ),
                CacheStaleness::LikelyExpired => AutoShakeDecision::Preview {
                    min_elidable_percent: settings.min_elidable_percent,
                    min_savings_tokens: settings.min_savings_tokens,
                },
            }
        }
    }

    /// Whether an expired prompt cache makes a shake due, however full the
    /// context is. `idle` is the time since the last request of the thread, and
    /// `already_decided` says that the same idle interval made a shake due
    /// before.
    pub fn decide_cold_resume(
        &self,
        model_slug: &str,
        provider_id: Option<&str>,
        persistent_thread: bool,
        idle: Option<Duration>,
        already_decided: bool,
    ) -> (decision: AutoShakeDecision)
        ensures
            decision == self.cold_resume_decision(
                model_slug@,
                cache_staleness::optional_text(provider_id),
                persistent_thread,
                idle,
                already_decided,
            ),
    {
        let settings = self.settings_for_model(model_slug);
        if !settings.enabled {
            return AutoShakeDecision::Skip(AutoShakeSkip::Disabled);
        }
        if !settings.cold_resume {
            return AutoShakeDecision::Skip(AutoShakeSkip::ColdResumeDisabled);
        }
        if !persistent_thread {
            return AutoShakeDecision::Skip(AutoShakeSkip::EphemeralThread);
        }
        if already_decided {
            return AutoShakeDecision::Skip(AutoShakeSkip::ColdResumeAlreadyDecided);
        }
        let ttl = self.resolved_cache_ttl_for_provider(provider_id).ttl;
        match cache_staleness::classify_cache_staleness(idle, ttl) {
            CacheStaleness::Warm => AutoShakeDecision::Skip(AutoShakeSkip::CacheStillWarm),
            CacheStaleness::Unknown => AutoShakeDecision::Skip(
                AutoShakeSkip::CacheStalenessUnknown,
            ),
            CacheStaleness::LikelyExpired => AutoShakeDecision::Preview {
                min_elidable_percent: settings.min_elidable_percent,
                min_savings_tokens: settings.min_savings_tokens,
            },
        }
    }

    /// Whether the size of the context makes a shake due.
    pub open spec fn size_decision(
        self,
        model_slug: Seq<char>,
        active_context_tokens: int,
        context_window: Option<i64>,
        persistent_thread: bool,
    ) -> AutoShakeDecision {
        let settings = self.settings_of(model_slug);
        let window: Option<int> = if context_window is Some && context_window->0 > 0 {
            Some(context_window->0 as int)
        } else {
            None
        };
        if !settings.enabled {
            AutoShakeDecision::Skip(AutoShakeSkip::Disabled)
        } else if !persistent_thread {
            AutoShakeDecision::Skip(AutoShakeSkip::EphemeralThread)
        } else if settings.threshold is Percent && window is None {
            AutoShakeDecision::Skip(AutoShakeSkip::NoContextWindow)
        } else if active_context_tokens < due_tokens(settings.threshold, window) {
            AutoShakeDecision::Skip(AutoShakeSkip::BelowThreshold)
        } else {
            AutoShakeDecision::Preview {
                min_elidable_percent: settings.min_elidable_percent,
                min_savings_tokens: settings.min_savings_tokens,
            }
        }
    }

    /// Whether the size of the context makes a shake due. `context_window` is
    /// the whole window of the model.
    pub fn decide(
        &self,
        model_slug: &str,
        active_context_tokens: i64,
        context_window: Option<i64>,
        persistent_thread: bool,
    ) -> (decision: AutoShakeDecision)
        ensures
            decision == self.size_decision(
                model_slug@,
                active_context_tokens as int,
                context_window,
                persistent_thread,
            ),
    {
        let settings = self.settings_for_model(model_slug);
        if !settings.enabled {
            return AutoShakeDecision::Skip(AutoShakeSkip::Disabled);
        }
        if !persistent_thread {
            return AutoShakeDecision::Skip(AutoShakeSkip::EphemeralThread);
        }
        let window: Option<i64> = match context_window {
            Some(window) => if window > 0 {
                Some(window)
            } else {
                None
            },
            None => None,
        };
        let threshold: i64 = match settings.threshold {
            AutoShakeThresholdKind::Percent(percent) => match window {
                None => {
                    return AutoShakeDecision::Skip(AutoShakeSkip::NoContextWindow);
                },
                Some(window) => {
                    assert(window * percent >= 0) by (nonlinear_arith)
                        requires
                            window > 0,
                            percent > 0,
                    ;
                    config::saturating_mul(window, percent) / 100
                },
            },
            AutoShakeThresholdKind::Tokens(tokens) => match window {
                Some(window) => if tokens < window {
                    tokens
                } else {
                    window
                },
                None => tokens,
            },
        };
        if active_context_tokens < threshold {
            return AutoShakeDecision::Skip(AutoShakeSkip::BelowThreshold);
        }
        AutoShakeDecision::Preview {
            min_elidable_percent: settings.min_elidable_percent,
            min_savings_tokens: settings.min_savings_tokens,
        }
    }
}

/// The tokens at which a shake is due. A number of tokens beyond the window
/// makes one due when the window is full.
pub open spec fn due_tokens(threshold: AutoShakeThresholdKind, window: Option<int>) -> int {
    match threshold {
        AutoShakeThresholdKind::Percent(percent) => config::saturating_product(
            window->0,
            percent as int,
        ) / 100,
        AutoShakeThresholdKind::Tokens(tokens) => match window {
            Some(window) => if tokens < window {
                tokens as int
            } else {
                window
            },
            None => tokens as int,
        },
    }
}

/// The share of the context that a measured shake would free, in percent.
pub open spec fn elidable_share(tokens_before: int, tokens_after: int) -> int {
    if tokens_before <= 0 {
        0
    } else {
        let freed = clamped(tokens_before - tokens_after, 0, i64::MAX as int);
        config::saturating_product(freed, 100) / tokens_before
    }
}

/// The share of the context that a measured shake would free, in percent, and
/// zero where there is nothing to measure.
pub fn elidable_percent(tokens_before: i64, tokens_after: i64) -> (percent: i64)
    ensures
        percent == elidable_share(tokens_before as int, tokens_after as int),
{
    if tokens_before <= 0 {
        return 0;
    }
    let freed: i64 = match tokens_before.checked_sub(tokens_after) {
        Some(freed) => if freed < 0 {
            0
        } else {
            freed
        },
        None => i64::MAX,
    };
    config::saturating_mul(freed, 100) / tokens_before
}

/// The settings of every model are in range, whatever was set.
pub proof fn law_settings_are_in_range(config: AutoShakeConfig, model_slug: Seq<char>)
    ensures
        0 <= config.settings_of(model_slug).min_elidable_percent <= 100,
        config.settings_of(model_slug).min_savings_tokens >= 0,
        match config.settings_of(model_slug).threshold {
            AutoShakeThresholdKind::Percent(percent) => 1 <= percent <= 100,
            AutoShakeThresholdKind::Tokens(tokens) => tokens >= 1,
        },
{
}

/// `off` turns off every automatic shake of a model, the one after an expired
/// cache too.
pub proof fn law_off_disables_every_trigger(
    config: AutoShakeConfig,
    model_slug: Seq<char>,
    active_context_tokens: int,
    context_window: Option<i64>,
    provider_id: Option<Seq<char>>,
    persistent_thread: bool,
    idle: Option<Duration>,
    already_decided: bool,
)
    requires
        config.threshold_for(model_slug) is Off,
    ensures
        config.size_decision(
            model_slug,
            active_context_tokens,
            context_window,
            persistent_thread,
        ) == AutoShakeDecision::Skip(AutoShakeSkip::Disabled),
        config.cold_resume_decision(
            model_slug,
            provider_id,
            persistent_thread,
            idle,
            already_decided,
        ) == AutoShakeDecision::Skip(AutoShakeSkip::Disabled),
{
}

/// A thread that keeps no artifacts is never shaken automatically, and an idle
/// interval that made a shake due before does not do so again.
pub proof fn law_no_shake_without_recovery_or_twice(
    config: AutoShakeConfig,
    model_slug: Seq<char>,
    active_context_tokens: int,
    context_window: Option<i64>,
    provider_id: Option<Seq<char>>,
    persistent_thread: bool,
    idle: Option<Duration>,
)
    ensures
        config.size_decision(model_slug, active_context_tokens, context_window, false) is Skip,
        config.cold_resume_decision(model_slug, provider_id, false, idle, false) is Skip,
        config.cold_resume_decision(model_slug, provider_id, persistent_thread, idle, true) is Skip,
{
}

/// A context that makes a shake due still does so when it has grown.
pub proof fn law_size_decision_is_monotone(
    config: AutoShakeConfig,
    model_slug: Seq<char>,
    tokens: int,
    more_tokens: int,
    context_window: Option<i64>,
    persistent_thread: bool,
)
    requires
        tokens <= more_tokens,
        config.size_decision(model_slug, tokens, context_window, persistent_thread) is Preview,
    ensures
        config.size_decision(model_slug, more_tokens, context_window, persistent_thread)
            == config.size_decision(model_slug, tokens, context_window, persistent_thread),
{
}

/// A full context window always makes a shake due: no threshold lies beyond it.
pub proof fn law_full_window_is_due(
    config: AutoShakeConfig,
    model_slug: Seq<char>,
    context_window: i64,
)
    requires
        context_window > 0,
        config.settings_of(model_slug).enabled,
    ensures
        config.size_decision(
            model_slug,
            context_window as int,
            Some(context_window),
            true,
        ) is Preview,
{
    law_settings_are_in_range(config, model_slug);
    if let AutoShakeThresholdKind::Percent(percent) = config.settings_of(model_slug).threshold {
        let p = percent as int;
        let w = context_window as int;
        assert(w * p <= w * 100) by (nonlinear_arith)
            requires
                1 <= p <= 100,
                w > 0,
        ;
        assert(config::saturating_product(w, p) <= w * p || config::saturating_product(w, p)
            == i64::MIN) by {
            assert(w * p > 0) by (nonlinear_arith)
                requires
                    p >= 1,
                    w > 0,
            ;
        }
    }
}

/// A measured share is a percentage: from nothing to everything.
pub proof fn law_elidable_share_is_a_percentage(tokens_before: i64, tokens_after: i64)
    requires
        tokens_after >= 0,
    ensures
        0 <= elidable_share(tokens_before as int, tokens_after as int) <= 100,
{
    if tokens_before > 0 {
        let before = tokens_before as int;
        let freed = clamped(before - tokens_after, 0, i64::MAX as int);
        let hundredfold = config::saturating_product(freed, 100);
        assert(0 <= hundredfold <= before * 100);
        assert(0 <= hundredfold / before <= 100) by (nonlinear_arith)
            requires
                0 <= hundredfold <= before * 100,
                before > 0,
        ;
    }
}

} // verus!
