//! When a shake is due, and what the settings for it come to.

use vstd::prelude::*;
use vstd::string::*;

use crate::cache_staleness;
use crate::config;
use crate::config::AutoShakeDurationToml;
use crate::config::AutoShakeThresholdToml;
use crate::shake::auto::bare_slug;
use crate::shake::auto::elidable_share;
use crate::shake::auto::family_entry;
use crate::shake::auto::family_matches;
use crate::shake::auto::law_settings_are_in_range;
use crate::shake::auto::provider_entry;
use crate::shake::auto::setting_duration;
use crate::shake::auto::AutoShakeConfig;
use crate::shake::auto::AutoShakeDecision;
use crate::shake::auto::AutoShakeModelConfig;
use crate::shake::auto::AutoShakeProviderConfig;
use crate::shake::auto::AutoShakeSkip;
use crate::shake::auto::AutoShakeThresholdKind;
use crate::text;
use crate::time::Duration;

verus! {

/// A cache is warm up to its lifetime and expired from then on; where the time or
/// the lifetime is not known, neither is said.
pub proof fn law_caches_expire_at_their_lifetime(idle: Duration, ttl: Duration)
    ensures
        idle.nanos < ttl.nanos ==> cache_staleness::staleness(Some(idle), Some(ttl)) is Warm,
        idle.nanos >= ttl.nanos ==> cache_staleness::staleness(
            Some(idle),
            Some(ttl),
        ) is LikelyExpired,
        cache_staleness::staleness(None, Some(ttl)) is Unknown,
        cache_staleness::staleness(Some(idle), None) is Unknown,
        cache_staleness::staleness(None, None) is Unknown,
{
}

/// The lifetime of a provider's cache: an override for the provider counts before
/// one for all providers, and either before what is built in, which is an hour,
/// and for OpenAI only. Without a provider nothing is known.
pub proof fn law_nearest_lifetime_counts(
    provider: Seq<char>,
    own: Duration,
    global: Option<Duration>,
    any: Option<Duration>,
)
    ensures
        text::trim(provider).len() > 0 ==> {
            &&& cache_staleness::resolved_ttl(Some(provider), Some(own), global).ttl == Some(own)
            &&& cache_staleness::resolved_ttl(
                Some(provider),
                Some(own),
                global,
            ).source is ProviderOverride
            &&& global is Some ==> cache_staleness::resolved_ttl(Some(provider), None, global).ttl
                == global && cache_staleness::resolved_ttl(
                Some(provider),
                None,
                global,
            ).source is GlobalOverride
            &&& provider != "openai"@ ==> cache_staleness::resolved_ttl(
                Some(provider),
                None,
                None,
            ).ttl is None
        },
        cache_staleness::resolved_ttl(Some("openai"@), None, None).ttl == Some(
            Duration { nanos: 3_600_000_000_000 },
        ),
        cache_staleness::resolved_ttl(Some("openai"@), None, None).source is BuiltinOpenai,
        text::trim(provider).len() == 0 ==> cache_staleness::resolved_ttl(
            Some(provider),
            Some(own),
            global,
        ).ttl is None,
        cache_staleness::resolved_ttl(None, any, global).ttl is None,
{
    reveal_strlit("openai");
    let ends = text::laws::law_trimming_takes_only_white_space("openai"@);
    assert(!text::is_whitespace("openai"@[0]));
    if ends.0 == ends.1 {
        if ends.0 > 0 {
            assert(text::is_whitespace("openai"@[0]));
        } else {
            assert(text::is_whitespace("openai"@[0]));
        }
    }
}

/// A lifetime in the settings is a number of seconds, and its sign does not
/// count.
pub proof fn law_lifetimes_are_seconds(secs: i64)
    ensures
        setting_duration(AutoShakeDurationToml(secs)).nanos == (if secs < 0 {
            -secs * 1_000_000_000
        } else {
            secs * 1_000_000_000
        }),
{
}

/// The lifetime that is set for a provider is the one of the first entry with its
/// id; entries for others do not count.
pub proof fn law_providers_have_their_own_entry(
    providers: Seq<(String, AutoShakeProviderConfig)>,
    id: Seq<char>,
    n: int,
)
    requires
        0 <= n <= providers.len(),
    ensures
        match provider_entry(providers, id, n) {
            Some(entry) => exists|i: int|
                0 <= i < n && (#[trigger] providers[i]).0@ == id && providers[i].1 == entry
                    && forall|j: int| 0 <= j < i ==> (#[trigger] providers[j]).0@ != id,
            None => forall|j: int| 0 <= j < n ==> (#[trigger] providers[j]).0@ != id,
        },
    decreases n,
{
    if n > 0 {
        law_providers_have_their_own_entry(providers, id, n - 1);
        if let Some(entry) = provider_entry(providers, id, n - 1) {
            let i = choose|i: int|
                0 <= i < n - 1 && (#[trigger] providers[i]).0@ == id && providers[i].1 == entry
                    && forall|j: int| 0 <= j < i ==> (#[trigger] providers[j]).0@ != id;
            assert(providers[i].0@ == id);
        } else if providers[n - 1].0@ == id {
            assert(providers[n - 1].1 == provider_entry(providers, id, n)->0);
        }
    }
}

/// Which lifetime holds for a provider under some settings: its own entry's,
/// else the one for all.
pub proof fn law_settings_give_the_lifetime(config: AutoShakeConfig, id: Seq<char>, i: int)
    requires
        text::trim(id).len() > 0,
        0 <= i < config.providers@.len(),
        config.providers@[i].0@ == id,
        forall|j: int| 0 <= j < i ==> (#[trigger] config.providers@[j]).0@ != id,
    ensures
        config.providers@[i].1.cache_ttl matches Some(own) ==> config.ttl_for(Some(id)).ttl
            == Some(setting_duration(own)) && config.ttl_for(
            Some(id),
        ).source is ProviderOverride,
        config.providers@[i].1.cache_ttl is None && config.cache_ttl is Some ==> config.ttl_for(
            Some(id),
        ).ttl == Some(setting_duration(config.cache_ttl->0)) && config.ttl_for(
            Some(id),
        ).source is GlobalOverride,
{
    let n = config.providers@.len() as int;
    law_providers_have_their_own_entry(config.providers@, id, n);
    let entry = provider_entry(config.providers@, id, n);
    assert(config.providers@[i].0@ == id);
    if let Some(found) = entry {
        let k = choose|k: int|
            0 <= k < n && (#[trigger] config.providers@[k]).0@ == id && config.providers@[k].1
                == found && forall|j: int| 0 <= j < k ==> (#[trigger] config.providers@[j]).0@
                != id;
        if k < i {
            assert(config.providers@[k].0@ != id);
        } else if i < k {
            assert(config.providers@[i].0@ != id);
        }
    }
}

/// The name of a model without qualifiers is what stands behind its last slash,
/// and there behind the last `openai.`; a name with neither is its own.
pub proof fn law_qualifiers_do_not_count(qualifier: Seq<char>, name: Seq<char>)
    requires
        !name.contains('/'),
        forall|i: int| !#[trigger] text::occurs_at(name, "openai."@, i),
    ensures
        bare_slug(name) == name,
        bare_slug(qualifier + seq!['/'] + name) == name,
{
    reveal_strlit("/");
    assert("/"@ =~= seq!['/']);
    let slug = qualifier + seq!['/'] + name;
    let n = qualifier.len() as int;
    assert forall|i: int| !#[trigger] text::occurs_at(name, "/"@, i) by {
        if text::occurs_at(name, "/"@, i) {
            assert(name.subrange(i, i + 1)[0] == '/');
            assert(name[i] == '/');
        }
    }
    assert forall|i: int| n < i implies !#[trigger] text::occurs_at(slug, seq!['/'], i) by {
        if text::occurs_at(slug, seq!['/'], i) {
            assert(slug.subrange(i, i + 1)[0] == '/');
            assert(name[i - n - 1] == '/');
        }
    }
    text::laws::law_missing_marks_are_not_found(name, "/"@);
    text::laws::law_missing_marks_are_not_found(name, "openai."@);
    text::laws::law_rest_is_behind_the_mark(qualifier, seq!['/'], name);
}

/// A family takes in its own name and the names that go on behind a hyphen, and
/// no other: neither those that go on in another way nor those that are shorter.
pub proof fn law_families_go_on_behind_a_hyphen(slug: Seq<char>, family: Seq<char>, rest: Seq<char>)
    ensures
        bare_slug(slug) == family ==> family_matches(slug, family),
        bare_slug(slug) == family + seq!['-'] + rest ==> family_matches(slug, family),
        family_matches(slug, family) ==> bare_slug(slug) == family || bare_slug(
            slug,
        ) == family + seq!['-'] + bare_slug(slug).skip(family.len() as int + 1),
{
    let bare = bare_slug(slug);
    let n = family.len() as int;
    if bare == family + seq!['-'] + rest {
        assert(bare.subrange(0, n) =~= family);
        assert(bare[n] == '-');
    }
    if family_matches(slug, family) && bare != family {
        assert(bare.subrange(0, n) =~= family);
        assert(bare =~= family + seq!['-'] + bare.skip(n + 1));
    }
}

/// The settings of a family are those of the entry that takes in the model and
/// comes first by name among all that do.
pub proof fn law_first_family_by_name_counts(
    models: Seq<(String, AutoShakeModelConfig)>,
    slug: Seq<char>,
    n: int,
)
    requires
        0 <= n <= models.len(),
    ensures
        match family_entry(models, slug, n) {
            Some(i) => 0 <= i < n && family_matches(slug, models[i].0@) && forall|j: int|
                0 <= j < n && family_matches(slug, (#[trigger] models[j]).0@)
                    ==> !text::lex_before(models[j].0@, models[i].0@),
            None => forall|j: int|
                0 <= j < n ==> !family_matches(slug, (#[trigger] models[j]).0@),
        },
    decreases n,
{
    if n > 0 {
        law_first_family_by_name_counts(models, slug, n - 1);
        let before = family_entry(models, slug, n - 1);
        let after = family_entry(models, slug, n);
        let last = models[n - 1].0@;
        text::lemma_lex_before_irreflexive(last);
        if after == Some(n - 1) && before is Some {
            let best = models[before->0].0@;
            assert forall|j: int|
                0 <= j < n && family_matches(
                    slug,
                    (#[trigger] models[j]).0@,
                ) implies !text::lex_before(models[j].0@, last) by {
                if j < n - 1 && text::lex_before(models[j].0@, last) {
                    text::lemma_lex_before_transitive(models[j].0@, last, best);
                }
            }
        }
    }
}

/// The threshold of a model. What the user set for its family holds, except that
/// `inherit` stands for the global setting even where the family has a threshold
/// of its own.
pub proof fn law_family_settings_come_first(
    config: AutoShakeConfig,
    slug: Seq<char>,
    family: AutoShakeModelConfig,
)
    requires
        config.family_of(slug) == Some(family),
    ensures
        family.threshold == Some(AutoShakeThresholdToml::Off) ==> config.threshold_for(slug) is Off,
        family.threshold matches Some(AutoShakeThresholdToml::Percent(p)) ==> config.threshold_for(
            slug,
        ) == AutoShakeThresholdToml::Percent(p),
        family.threshold matches Some(AutoShakeThresholdToml::Tokens(t)) ==> config.threshold_for(
            slug,
        ) == AutoShakeThresholdToml::Tokens(t),
        family.threshold == Some(AutoShakeThresholdToml::Inherit) && config.threshold is Some
            ==> config.threshold_for(slug) == config.threshold->0,
        family.threshold == Some(AutoShakeThresholdToml::Inherit) && config.threshold is None
            ==> config.threshold_for(slug) == AutoShakeThresholdToml::Percent(60),
{
}

/// Without a setting of the user for its family, a model has the threshold that
/// its family has by default, whatever the global setting; without such a
/// default the global setting holds, and without that one sixty percent.
pub proof fn law_default_thresholds(config: AutoShakeConfig, slug: Seq<char>)
    requires
        config.family_of(slug) is None || config.family_of(slug)->0.threshold is None,
    ensures
        family_matches(slug, "gpt-5.6"@) ==> config.threshold_for(slug)
            == AutoShakeThresholdToml::Tokens(160_000),
        !family_matches(slug, "gpt-5.6"@) && family_matches(slug, "gpt-6-astra"@)
            ==> config.threshold_for(slug) == AutoShakeThresholdToml::Percent(40),
        !family_matches(slug, "gpt-5.6"@) && !family_matches(slug, "gpt-6-astra"@) ==> {
            &&& config.threshold is Some ==> config.threshold_for(slug) == config.threshold->0
            &&& config.threshold is None ==> config.threshold_for(slug)
                == AutoShakeThresholdToml::Percent(60)
        },
{
}

/// The settings of a model are what was set, brought into range: a share of the
/// window from one to a hundred percent, at least one token, a share to be freed
/// from nothing to everything, and no savings below zero.
pub proof fn law_settings_are_what_was_set(config: AutoShakeConfig, slug: Seq<char>)
    ensures
        ({
            let settings = config.settings_of(slug);
            let threshold = config.threshold_for(slug);
            &&& settings.enabled == (threshold is Percent || threshold is Tokens)
            &&& threshold matches AutoShakeThresholdToml::Percent(p) ==> (1 <= p <= 100
                ==> settings.threshold == AutoShakeThresholdKind::Percent(p))
            &&& threshold matches AutoShakeThresholdToml::Percent(p) ==> (p > 100
                ==> settings.threshold == AutoShakeThresholdKind::Percent(100))
            &&& threshold matches AutoShakeThresholdToml::Percent(p) ==> (p < 1
                ==> settings.threshold == AutoShakeThresholdKind::Percent(1))
            &&& threshold matches AutoShakeThresholdToml::Tokens(t) ==> (t >= 1
                ==> settings.threshold == AutoShakeThresholdKind::Tokens(t))
            &&& threshold matches AutoShakeThresholdToml::Tokens(t) ==> (t < 1
                ==> settings.threshold == AutoShakeThresholdKind::Tokens(1))
            &&& config.min_savings_tokens matches Some(t) ==> (t >= 0 ==> settings.min_savings_tokens
                == t)
            &&& config.min_savings_tokens matches Some(t) ==> (t < 0 ==> settings.min_savings_tokens
                == 0)
            &&& config.min_savings_tokens is None ==> settings.min_savings_tokens == 4_000
            &&& config.cold_resume matches Some(on) ==> settings.cold_resume == on
            &&& config.cold_resume is None ==> settings.cold_resume
        }),
{
}

/// The share that a shake has to free is the global one where it is set, else the
/// family's, else thirty percent; brought into range.
pub proof fn law_shares_to_free(config: AutoShakeConfig, slug: Seq<char>, share: i64)
    requires
        0 <= share <= 100,
    ensures
        config.min_elidable_percent == Some(share) ==> config.settings_of(
            slug,
        ).min_elidable_percent == share,
        config.min_elidable_percent is None && config.family_of(slug) is Some && config.family_of(
            slug,
        )->0.min_elidable_percent == Some(share) ==> config.settings_of(slug).min_elidable_percent
            == share,
        config.min_elidable_percent is None && (config.family_of(slug) is None || config.family_of(
            slug,
        )->0.min_elidable_percent is None) ==> config.settings_of(slug).min_elidable_percent == 30,
        config.min_elidable_percent matches Some(p) ==> (p > 100 ==> config.settings_of(
            slug,
        ).min_elidable_percent == 100),
        config.min_elidable_percent matches Some(p) ==> (p < 0 ==> config.settings_of(
            slug,
        ).min_elidable_percent == 0),
{
}

/// Under a share of the window a shake is due once the context, in tokens, has
/// reached that share, less than one token short of it; never where the window is
/// not known.
pub proof fn law_shares_of_the_window_are_due(
    config: AutoShakeConfig,
    slug: Seq<char>,
    percent: i64,
    window: i64,
    tokens: int,
)
    requires
        config.settings_of(slug).enabled,
        config.settings_of(slug).threshold == AutoShakeThresholdKind::Percent(percent),
        0 < window <= i64::MAX / 100,
    ensures
        config.size_decision(slug, tokens, Some(window), true) is Preview == (window * percent
            <= 100 * tokens + 99),
        config.size_decision(slug, tokens, Some(window), true) is Skip ==> config.size_decision(
            slug,
            tokens,
            Some(window),
            true,
        ) == AutoShakeDecision::Skip(AutoShakeSkip::BelowThreshold),
        config.size_decision(slug, tokens, None, true) == AutoShakeDecision::Skip(
            AutoShakeSkip::NoContextWindow,
        ),
        config.size_decision(slug, tokens, Some(0), true) == AutoShakeDecision::Skip(
            AutoShakeSkip::NoContextWindow,
        ),
{
    law_settings_are_in_range(config, slug);
    let p = percent as int;
    let w = window as int;
    assert(0 < w * p <= w * 100) by (nonlinear_arith)
        requires
            1 <= p <= 100,
            w > 0,
    ;
    assert(config::saturating_product(w, p) == w * p);
}

/// Under a number of tokens a shake is due once the context has them, or has
/// filled its window.
pub proof fn law_numbers_of_tokens_are_due(
    config: AutoShakeConfig,
    slug: Seq<char>,
    threshold: i64,
    window: i64,
    tokens: int,
)
    requires
        config.settings_of(slug).enabled,
        config.settings_of(slug).threshold == AutoShakeThresholdKind::Tokens(threshold),
        window > 0,
    ensures
        config.size_decision(slug, tokens, Some(window), true) is Preview == (tokens >= threshold
            || tokens >= window),
        config.size_decision(slug, tokens, None, true) is Preview == (tokens >= threshold),
{
}

/// A shake that is due has to free what the settings ask for, whatever made it
/// due.
pub proof fn law_due_shakes_have_to_free_what_is_asked(
    config: AutoShakeConfig,
    slug: Seq<char>,
    tokens: int,
    window: Option<i64>,
    persistent_thread: bool,
    provider: Option<Seq<char>>,
    idle: Option<Duration>,
    already_decided: bool,
)
    ensures
        config.size_decision(slug, tokens, window, persistent_thread) matches
            AutoShakeDecision::Preview { min_elidable_percent, min_savings_tokens }
            ==> min_elidable_percent == config.settings_of(slug).min_elidable_percent
            && min_savings_tokens == config.settings_of(slug).min_savings_tokens,
        config.cold_resume_decision(slug, provider, persistent_thread, idle, already_decided)
            matches AutoShakeDecision::Preview { min_elidable_percent, min_savings_tokens }
            ==> min_elidable_percent == config.settings_of(slug).min_elidable_percent
            && min_savings_tokens == config.settings_of(slug).min_savings_tokens,
{
}

/// An expired cache makes a shake due, once for each idle time, and nothing else
/// does: what speaks against it is told, in this order.
pub proof fn law_expired_caches_make_a_shake_due(
    config: AutoShakeConfig,
    slug: Seq<char>,
    provider: Option<Seq<char>>,
    persistent_thread: bool,
    idle: Option<Duration>,
    already_decided: bool,
)
    ensures
        ({
            let decision = config.cold_resume_decision(
                slug,
                provider,
                persistent_thread,
                idle,
                already_decided,
            );
            let settings = config.settings_of(slug);
            let ttl = config.ttl_for(provider).ttl;
            let allowed = settings.enabled && settings.cold_resume && persistent_thread
                && !already_decided;
            let known = idle is Some && ttl is Some;
            &&& !settings.enabled ==> decision == AutoShakeDecision::Skip(AutoShakeSkip::Disabled)
            &&& settings.enabled && !settings.cold_resume ==> decision == AutoShakeDecision::Skip(
                AutoShakeSkip::ColdResumeDisabled,
            )
            &&& settings.enabled && settings.cold_resume && !persistent_thread ==> decision
                == AutoShakeDecision::Skip(AutoShakeSkip::EphemeralThread)
            &&& settings.enabled && settings.cold_resume && persistent_thread && already_decided
                ==> decision == AutoShakeDecision::Skip(AutoShakeSkip::ColdResumeAlreadyDecided)
            &&& allowed && !known ==> decision == AutoShakeDecision::Skip(
                AutoShakeSkip::CacheStalenessUnknown,
            )
            &&& allowed && known && idle->0.nanos < ttl->0.nanos ==> decision
                == AutoShakeDecision::Skip(AutoShakeSkip::CacheStillWarm)
            &&& allowed && known && idle->0.nanos >= ttl->0.nanos ==> decision is Preview
        }),
{
}

/// What speaks against a shake by size is told in this order: that shakes are
/// off, that nothing could be recovered.
pub proof fn law_size_shakes_are_refused(
    config: AutoShakeConfig,
    slug: Seq<char>,
    tokens: int,
    window: Option<i64>,
    persistent_thread: bool,
)
    ensures
        !config.settings_of(slug).enabled ==> config.size_decision(
            slug,
            tokens,
            window,
            persistent_thread,
        ) == AutoShakeDecision::Skip(AutoShakeSkip::Disabled),
        config.settings_of(slug).enabled ==> config.size_decision(slug, tokens, window, false)
            == AutoShakeDecision::Skip(AutoShakeSkip::EphemeralThread),
{
}

/// The share that a shake frees is what it frees of all there is, in whole
/// percents: it is reached, and the next one is not. One that frees nothing has a
/// share of nothing.
pub proof fn law_shares_are_whole_percents(before: i64, after: i64)
    requires
        0 < before <= i64::MAX / 100,
        0 <= after,
    ensures
        ({
            let share = elidable_share(before as int, after as int);
            &&& after >= before ==> share == 0
            &&& after <= before ==> share * before <= 100 * (before - after) < (share + 1) * before
        }),
{
    let b = before as int;
    let freed = if after < before {
        before - after
    } else {
        0
    };
    assert(config::saturating_product(freed, 100) == freed * 100);
    let x = freed * 100;
    assert(x == b * (x / b) + x % b && 0 <= x % b < b) by (nonlinear_arith)
        requires
            b > 0,
            x >= 0,
    ;
    let share = x / b;
    assert(share * b == b * share && (share + 1) * b == b * share + b) by (nonlinear_arith);
    if freed == 0 {
        assert(share == 0) by (nonlinear_arith)
            requires
                x == 0,
                b > 0,
                share == x / b,
        ;
    }
}

} // verus!
