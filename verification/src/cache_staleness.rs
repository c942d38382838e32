//! How long a provider keeps a prompt cached, and whether it still does.

use vstd::prelude::*;

use crate::text;
use crate::time::Duration;
use crate::time::NANOS_PER_SEC;

verus! {

/// What the lifetime of a provider's prompt cache is resolved from.
#[derive(Clone, Copy, Debug, PartialEq, Eq)]
pub struct CacheTtlInputs<'a> {
    /// The id of the model provider. Without one the lifetime is unknown, even
    /// where an override is set: it could not be told whose it is.
    pub provider_id: Option<&'a str>,
    /// The override for this provider.
    pub provider_override: Option<Duration>,
    /// The override for all providers.
    pub global_override: Option<Duration>,
}

/// Where a lifetime comes from.
#[derive(Clone, Copy, Debug, PartialEq, Eq, Structural)]
pub enum CacheTtlSource {
    ProviderOverride,
    GlobalOverride,
    BuiltinOpenai,
    Unknown,
}

impl CacheTtlSource {
    /// The machine-readable name.
    pub fn as_str(self) -> (name: &'static str)
        ensures
            name@ == match self {
                CacheTtlSource::ProviderOverride => "provider_override"@,
                CacheTtlSource::GlobalOverride => "global_override"@,
                CacheTtlSource::BuiltinOpenai => "builtin_openai"@,
                CacheTtlSource::Unknown => "unknown"@,
            },
    {
        match self {
            CacheTtlSource::ProviderOverride => "provider_override",
            CacheTtlSource::GlobalOverride => "global_override",
            CacheTtlSource::BuiltinOpenai => "builtin_openai",
            CacheTtlSource::Unknown => "unknown",
        }
    }
}

/// A lifetime and where it comes from.
#[derive(Clone, Copy, Debug, PartialEq, Eq, Structural)]
pub struct ResolvedCacheTtl {
    /// The lifetime, or `None` where it is unknown.
    pub ttl: Option<Duration>,
    pub source: CacheTtlSource,
}

/// The built-in lifetime of the OpenAI provider.
pub open spec fn openai_ttl() -> Duration {
    Duration { nanos: (3_600 * NANOS_PER_SEC) as u128 }
}

/// The lifetime of a provider's prompt cache. The override for the provider
/// comes first, then the one for all providers, then the built-in lifetime,
/// which only OpenAI has.
pub open spec fn resolved_ttl(
    provider_id: Option<Seq<char>>,
    provider_override: Option<Duration>,
    global_override: Option<Duration>,
) -> ResolvedCacheTtl {
    if provider_id is None || text::trim(provider_id->0).len() == 0 {
        ResolvedCacheTtl { ttl: None, source: CacheTtlSource::Unknown }
    } else if provider_override is Some {
        ResolvedCacheTtl { ttl: provider_override, source: CacheTtlSource::ProviderOverride }
    } else if global_override is Some {
        ResolvedCacheTtl { ttl: global_override, source: CacheTtlSource::GlobalOverride }
    } else if provider_id == Some("openai"@) {
        ResolvedCacheTtl { ttl: Some(openai_ttl()), source: CacheTtlSource::BuiltinOpenai }
    } else {
        ResolvedCacheTtl { ttl: None, source: CacheTtlSource::Unknown }
    }
}

/// An optional text as its value.
pub open spec fn optional_text(s: Option<&str>) -> Option<Seq<char>> {
    match s {
        Some(s) => Some(s@),
        None => None,
    }
}

/// Resolves the lifetime of a provider's prompt cache.
pub fn resolve_cache_ttl(inputs: CacheTtlInputs<'_>) -> (resolved: ResolvedCacheTtl)
    ensures
        resolved == resolved_ttl(
            optional_text(inputs.provider_id),
            inputs.provider_override,
            inputs.global_override,
        ),
{
    let unknown = ResolvedCacheTtl { ttl: None, source: CacheTtlSource::Unknown };
    let provider_id = match inputs.provider_id {
        Some(provider_id) => provider_id,
        None => {
            return unknown;
        },
    };
    let chars = text::chars_of(provider_id);
    if text::trimmed(chars.as_slice()).len() == 0 {
        return unknown;
    }
    if inputs.provider_override.is_some() {
        return ResolvedCacheTtl {
            ttl: inputs.provider_override,
            source: CacheTtlSource::ProviderOverride,
        };
    }
    if inputs.global_override.is_some() {
        return ResolvedCacheTtl {
            ttl: inputs.global_override,
            source: CacheTtlSource::GlobalOverride,
        };
    }
    if text::same_text(provider_id, "openai") {
        return ResolvedCacheTtl {
            ttl: Some(Duration::from_secs(3_600)),
            source: CacheTtlSource::BuiltinOpenai,
        };
    }
    unknown
}

/// Whether an idle interval is within the lifetime of the cache.
#[derive(Clone, Copy, Debug, PartialEq, Eq, Structural)]
pub enum CacheStaleness {
    /// The interval is shorter than the lifetime.
    Warm,
    /// The interval is as long as the lifetime, or longer.
    LikelyExpired,
    /// The interval or the lifetime is not known.
    Unknown,
}

impl CacheStaleness {
    /// The machine-readable name.
    pub fn as_str(self) -> (name: &'static str)
        ensures
            name@ == match self {
                CacheStaleness::Warm => "warm"@,
                CacheStaleness::LikelyExpired => "likely_expired"@,
                CacheStaleness::Unknown => "unknown"@,
            },
    {
        match self {
            CacheStaleness::Warm => "warm",
            CacheStaleness::LikelyExpired => "likely_expired",
            CacheStaleness::Unknown => "unknown",
        }
    }
}

/// How stale a cache is.
pub open spec fn staleness(idle: Option<Duration>, ttl: Option<Duration>) -> CacheStaleness {
    match (idle, ttl) {
        (Some(idle), Some(ttl)) => if idle.nanos < ttl.nanos {
            CacheStaleness::Warm
        } else {
            CacheStaleness::LikelyExpired
        },
        _ => CacheStaleness::Unknown,
    }
}

/// Tells how stale a cache is from the idle interval and the lifetime.
pub fn classify_cache_staleness(idle: Option<Duration>, ttl: Option<Duration>) -> (r: CacheStaleness)
    ensures
        r == staleness(idle, ttl),
{
    match (idle, ttl) {
        (Some(idle), Some(ttl)) => if idle.nanos < ttl.nanos {
            CacheStaleness::Warm
        } else {
            CacheStaleness::LikelyExpired
        },
        _ => CacheStaleness::Unknown,
    }
}

/// A cache that has expired stays so: once an interval is as long as the
/// lifetime, every longer one is too.
pub proof fn law_expiry_is_monotone(idle: Duration, longer: Duration, ttl: Duration)
    requires
        idle.nanos <= longer.nanos,
        staleness(Some(idle), Some(ttl)) is LikelyExpired,
    ensures
        staleness(Some(longer), Some(ttl)) is LikelyExpired,
{
}

/// A lifetime is known just where its source is.
pub proof fn law_known_ttl_has_a_source(
    provider_id: Option<Seq<char>>,
    provider_override: Option<Duration>,
    global_override: Option<Duration>,
)
    ensures
        (resolved_ttl(provider_id, provider_override, global_override).ttl is Some) == !(
        resolved_ttl(provider_id, provider_override, global_override).source is Unknown),
{
}

} // verus!
