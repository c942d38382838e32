//! What settings mean.

use vstd::prelude::*;
use vstd::string::*;

use crate::config::answered;
use crate::config::are_answers;
use crate::config::bare_threshold;
use crate::config::constrained_by;
use crate::config::entry_problem;
use crate::config::exact_entry;
use crate::config::first_problem;
use crate::config::has_provider;
use crate::config::lookup_keys;
use crate::config::normal_entry;
use crate::config::normal_key;
use crate::config::project_for_key;
use crate::config::project_for_keys;
use crate::config::reserved_conflicts;
use crate::config::reserved_text;
use crate::config::same_seconds;
use crate::config::same_threshold;
use crate::config::seconds_of;
use crate::config::threshold_of;
use crate::config::AutoShakeDurationToml;
use crate::config::AutoShakeThresholdToml;
use crate::config::ConfigToml;
use crate::config::ModelProviderInfo;
use crate::config::NetworkSandboxPolicy;
use crate::config::PermissionProfile;
use crate::config::PermissionProfileView;
use crate::config::ProjectConfig;
use crate::config::SandboxMode;
use crate::text;
use crate::text::laws::law_numbers_are_read_as_written;
use crate::text::laws::law_trimming_takes_only_white_space;

verus! {

/// Every character is white space.
pub open spec fn is_blank(s: Seq<char>) -> bool {
    forall|i: int| 0 <= i < s.len() ==> text::is_whitespace(#[trigger] s[i])
}

proof fn lemma_trim_between(before: Seq<char>, s: Seq<char>, after: Seq<char>)
    requires
        is_blank(before),
        is_blank(after),
        s.len() > 0,
        !text::is_whitespace(s[0]),
        !text::is_whitespace(s.last()),
    ensures
        text::trim(before + s + after) == s,
{
    let all = before + s + after;
    let ends = law_trimming_takes_only_white_space(all);
    let start = before.len() as int;
    let end = start + s.len();
    assert(all[start] == s[0]);
    assert(all[end - 1] == s.last());
    assert(ends.0 <= start);
    assert(ends.1 >= end);
    if ends.0 < start {
        assert(all[ends.0] == before[ends.0]);
    }
    if ends.1 > end {
        assert(all[ends.1 - 1] == after[ends.1 - 1 - end]);
    }
    assert(all.subrange(start, end) =~= s);
}

proof fn lemma_number_text(n: int)
    ensures
        ({
            let s = text::signed_decimal(n);
            &&& s.len() > 0
            &&& text::parse_int(s) == Some(n)
            &&& text::is_digit(s.last())
            &&& s[0] == '-' || text::is_digit(s[0])
        }),
{
    let size: nat = if n < 0 {
        (-n) as nat
    } else {
        n as nat
    };
    law_numbers_are_read_as_written(size);
    text::lemma_decimal_digits(size);
    let digits = text::decimal(size);
    assert(text::is_digit(digits[0]));
    assert(text::is_digit(digits.last()));
    if n < 0 {
        assert(text::signed_decimal(n).last() == digits.last());
    }
}

/// A duration is a number of seconds, or a number with a letter behind it for
/// seconds, minutes, hours or days; white space around it does not matter. One
/// that is too long is the longest that there is, and a negative one is refused.
pub proof fn law_durations_are_numbers_with_a_unit(
    before: Seq<char>,
    n: int,
    unit: Option<char>,
    after: Seq<char>,
    read: Result<AutoShakeDurationToml, String>,
)
    requires
        is_blank(before),
        is_blank(after),
        i64::MIN <= n <= i64::MAX,
        unit matches Some(c) ==> seq!['s', 'S', 'm', 'M', 'h', 'H', 'd', 'D'].contains(c),
        same_seconds(
            read,
            seconds_of(
                before + (match unit {
                    Some(c) => text::signed_decimal(n).push(c),
                    None => text::signed_decimal(n),
                }) + after,
            ),
        ),
    ensures
        ({
            let original = before + (match unit {
                Some(c) => text::signed_decimal(n).push(c),
                None => text::signed_decimal(n),
            }) + after;
            let seconds = match unit {
                Some('m') | Some('M') => 60 * n,
                Some('h') | Some('H') => 60 * 60 * n,
                Some('d') | Some('D') => 24 * 60 * 60 * n,
                _ => n,
            };
            match read {
                Ok(duration) => n >= 0 && duration.0 == if seconds > i64::MAX {
                    i64::MAX as int
                } else {
                    seconds
                },
                Err(message) => n < 0 && message@ == "invalid auto_shake duration \""@ + original
                    + "\": must not be negative"@,
            }
        }),
{
    lemma_number_text(n);
    let number = text::signed_decimal(n);
    let units = seq!['s', 'S', 'm', 'M', 'h', 'H', 'd', 'D'];
    let s = match unit {
        Some(c) => number.push(c),
        None => number,
    };
    if let Some(c) = unit {
        let k = choose|k: int| 0 <= k < units.len() && units[k] == c;
        assert(units.contains(c));
        assert(c == 's' || c == 'S' || c == 'm' || c == 'M' || c == 'h' || c == 'H' || c == 'd' || c
            == 'D');
        assert(s.drop_last() =~= number);
    }
    lemma_trim_between(before, s, after);
    lemma_trim_between(Seq::empty(), number, Seq::empty());
    assert(Seq::<char>::empty() + number + Seq::<char>::empty() =~= number);
    let factor = match unit {
        Some(c) => crate::config::unit_seconds(c)->0,
        None => 1,
    };
    assert(text::trim(number) == number);
    assert(seconds_of(before + s + after) == crate::config::checked_seconds(
        crate::config::saturating_product(n, factor),
        before + s + after,
    ));
    assert(factor == 1 || factor == 60 || factor == 3_600 || factor == 86_400);
    if factor == 1 {
        assert(n * factor == n);
    } else if factor == 60 {
        assert(n * factor == 60 * n);
    } else if factor == 3_600 {
        assert(n * factor == 3_600 * n);
    } else {
        assert(n * factor == 86_400 * n);
    }
}

/// A duration with anything else in it is refused, and the message shows it.
pub proof fn law_other_durations_are_refused(
    value: Seq<char>,
    i: int,
    read: Result<AutoShakeDurationToml, String>,
)
    requires
        0 <= i < value.len(),
        !text::is_whitespace(value[i]),
        !('0' <= value[i] <= '9'),
        value[i] != '+' && value[i] != '-',
        !seq!['s', 'S', 'm', 'M', 'h', 'H', 'd', 'D'].contains(value[i]),
        same_seconds(read, seconds_of(value)),
    ensures
        read matches Err(message) && message@ == "invalid auto_shake duration "@ + text::debug_text(
            value,
        )
            + ": expected a number of seconds (e.g. 300) or a duration string like \"5m\", \"1h\" or \"2d\""@,
{
    let c = value[i];
    let units = seq!['s', 'S', 'm', 'M', 'h', 'H', 'd', 'D'];
    assert(units[0] == 's' && units[1] == 'S' && units[2] == 'm' && units[3] == 'M' && units[4]
        == 'h' && units[5] == 'H' && units[6] == 'd' && units[7] == 'D');
    assert(c != 's' && c != 'S' && c != 'm' && c != 'M' && c != 'h' && c != 'H' && c != 'd' && c
        != 'D');
    let ends = law_trimming_takes_only_white_space(value);
    let trimmed = text::trim(value);
    let at = i - ends.0;
    assert(trimmed[at] == c);
    let digits = if crate::config::unit_seconds(trimmed.last()) is Some {
        trimmed.drop_last()
    } else {
        trimmed
    };
    assert(digits[at] == c);
    let inner = law_trimming_takes_only_white_space(digits);
    let number = text::trim(digits);
    let k = at - inner.0;
    assert(number[k] == c);
    lemma_no_number(number, k);
}

proof fn lemma_no_number(s: Seq<char>, k: int)
    requires
        0 <= k < s.len(),
        !('0' <= s[k] <= '9'),
        s[k] != '+' && s[k] != '-',
    ensures
        text::parse_int(s) is None,
{
    if s[0] == '-' || s[0] == '+' {
        assert(s.drop_first()[k - 1] == s[k]);
        assert(!text::is_digit(s.drop_first()[k - 1]));
    } else {
        assert(!text::is_digit(s[k]));
    }
}

/// A bare number of seconds is that duration, unless it is negative.
pub proof fn law_bare_durations_are_seconds(n: i64, read: Result<AutoShakeDurationToml, String>)
    requires
        same_seconds(
            read,
            crate::config::checked_seconds(n as int, text::signed_decimal(n as int)),
        ),
    ensures
        match read {
            Ok(duration) => n >= 0 && duration.0 == n,
            Err(message) => n < 0 && message@ == "invalid auto_shake duration \""@
                + text::signed_decimal(n as int) + "\": must not be negative"@,
        },
{
}

/// A number with a percent sign is a share of the window, and one with a `k` is
/// so many thousand tokens; both are positive.
pub proof fn law_thresholds_have_a_unit(
    n: int,
    unit: char,
    read: Result<AutoShakeThresholdToml, String>,
)
    requires
        i64::MIN <= n <= i64::MAX,
        unit == '%' || unit == 'k' || unit == 'K',
        same_threshold(read, threshold_of(text::signed_decimal(n).push(unit))),
    ensures
        match read {
            Ok(AutoShakeThresholdToml::Percent(value)) => unit == '%' && n > 0 && value == n,
            Ok(AutoShakeThresholdToml::Tokens(value)) => unit != '%' && n > 0 && value == if 1_000
                * n > i64::MAX {
                i64::MAX as int
            } else {
                1_000 * n
            },
            Ok(_) => false,
            Err(message) => n <= 0 && message@ == "invalid auto_shake threshold \""@
                + text::signed_decimal(n).push(unit) + if unit == '%' {
                "\": percent must be positive"@
            } else {
                "\": absolute token count must be positive"@
            },
        },
{
    reveal_strlit("off");
    reveal_strlit("inherit");
    lemma_number_text(n);
    let number = text::signed_decimal(n);
    let s = number.push(unit);
    assert(s.drop_last() =~= number);
    assert(s.last() == unit);
    assert("off"@.last() == 'f' && "inherit"@.last() == 't');
}

/// A bare number up to a hundred is a share of the window, and a greater one a
/// number of tokens. It makes no difference whether it comes as a text.
pub proof fn law_bare_thresholds(n: i64, read: Result<AutoShakeThresholdToml, String>)
    requires
        same_threshold(read, threshold_of(text::signed_decimal(n as int))) || same_threshold(
            read,
            bare_threshold(n as int, text::signed_decimal(n as int)),
        ),
    ensures
        match read {
            Ok(AutoShakeThresholdToml::Percent(value)) => 0 < n <= 100 && value == n,
            Ok(AutoShakeThresholdToml::Tokens(value)) => n > 100 && value == n,
            Ok(_) => false,
            Err(message) => n <= 0 && message@ == "invalid auto_shake threshold \""@
                + text::signed_decimal(n as int) + "\": percent must be positive"@,
        },
{
    reveal_strlit("off");
    reveal_strlit("inherit");
    lemma_number_text(n as int);
    assert("off"@.last() == 'f' && "inherit"@.last() == 't');
}

/// A threshold that is neither a word nor a number is refused, and the message
/// shows it.
pub proof fn law_other_thresholds_are_refused(
    value: Seq<char>,
    i: int,
    read: Result<AutoShakeThresholdToml, String>,
)
    requires
        value != "off"@ && value != "inherit"@,
        0 <= i < value.len(),
        !('0' <= value[i] <= '9'),
        value[i] != '+' && value[i] != '-',
        i + 1 == value.len() ==> value[i] != '%' && value[i] != 'k' && value[i] != 'K',
        same_threshold(read, threshold_of(value)),
    ensures
        read matches Err(message) && message@ == "invalid auto_shake threshold "@
            + text::debug_text(value)
            + ": expected \"off\", \"inherit\", an integer percent, a percent string like \"40%\", or an absolute token count like \"160k\""@,
{
    let last = value.last();
    if last == '%' || last == 'k' || last == 'K' {
        assert(value.drop_last()[i] == value[i]);
        lemma_no_number(value.drop_last(), i);
    } else {
        lemma_no_number(value, i);
    }
}

/// The words for thresholds.
pub proof fn law_words_for_thresholds(
    off: Result<AutoShakeThresholdToml, String>,
    inherit: Result<AutoShakeThresholdToml, String>,
)
    requires
        same_threshold(off, threshold_of("off"@)),
        same_threshold(inherit, threshold_of("inherit"@)),
    ensures
        off == Ok::<AutoShakeThresholdToml, String>(AutoShakeThresholdToml::Off),
        inherit == Ok::<AutoShakeThresholdToml, String>(AutoShakeThresholdToml::Inherit),
{
    crate::config::law_thresholds_are_read_back(AutoShakeThresholdToml::Off, Seq::empty());
    crate::config::law_thresholds_are_read_back(AutoShakeThresholdToml::Inherit, Seq::empty());
}

/// A chosen sandbox mode gives its permissions, and an override comes before the
/// setting. Where nothing is chosen, a project that is known may be written to.
/// On Windows without a sandbox nothing is written.
pub proof fn law_sandbox_modes_give_permissions(
    config: ConfigToml,
    chosen: Option<SandboxMode>,
    windows_without_sandbox: bool,
    active_project: Option<ProjectConfig>,
)
    ensures
        ({
            let profile = config.unconstrained_profile(
                chosen,
                windows_without_sandbox,
                active_project,
            );
            let known = active_project matches Some(project) && project.trust_level is Some;
            let mode = match (chosen, config.sandbox_mode) {
                (Some(mode), _) => mode,
                (None, Some(mode)) => mode,
                (None, None) => if known {
                    SandboxMode::WorkspaceWrite
                } else {
                    SandboxMode::ReadOnly
                },
            };
            match (mode, config.sandbox_workspace_write, profile) {
                (SandboxMode::DangerFullAccess, _, PermissionProfileView::Disabled) => true,
                (SandboxMode::ReadOnly, _, PermissionProfileView::ReadOnly) => true,
                (
                    SandboxMode::WorkspaceWrite,
                    _,
                    PermissionProfileView::ReadOnly,
                ) => windows_without_sandbox,
                (
                    SandboxMode::WorkspaceWrite,
                    None,
                    PermissionProfileView::WorkspaceWrite,
                ) => !windows_without_sandbox,
                (
                    SandboxMode::WorkspaceWrite,
                    Some(settings),
                    PermissionProfileView::WorkspaceWriteWith {
                        writable_roots,
                        network,
                        exclude_tmpdir_env_var,
                        exclude_slash_tmp,
                    },
                ) => {
                    &&& !windows_without_sandbox
                    &&& writable_roots == settings.writable_roots.deep_view()
                    &&& settings.network_access == (network == NetworkSandboxPolicy::Enabled)
                    &&& !settings.network_access == (network == NetworkSandboxPolicy::Restricted)
                    &&& exclude_tmpdir_env_var == settings.exclude_tmpdir_env_var
                    &&& exclude_slash_tmp == settings.exclude_slash_tmp
                },
                _ => false,
            }
        }),
        (config.configured_mode(chosen) is None) == (chosen is None && config.sandbox_mode is None),
{
}

/// A constraint leaves permissions that it allows as they are, and only reading
/// of others.
pub proof fn law_constraints_leave_reading<F: Fn(&PermissionProfile) -> bool>(
    allows: F,
    allowed: bool,
    derived: PermissionProfileView,
    profile: PermissionProfileView,
)
    requires
        forall|p: &PermissionProfile, answer: bool|
            p.deep_view() == derived && #[trigger] call_ensures(allows, (p,), answer) ==> answer
                == allowed,
        constrained_by(allows, derived, profile),
    ensures
        allowed ==> profile == derived,
        !allowed ==> profile is ReadOnly,
{
}

proof fn lemma_exact_entry(
    projects: Seq<(Seq<char>, ProjectConfig)>,
    key: Seq<char>,
    i: int,
    n: int,
)
    requires
        0 <= i < n <= projects.len(),
        projects[i].0 == key,
        forall|j: int| 0 <= j < i ==> (#[trigger] projects[j]).0 != key,
    ensures
        exact_entry(projects, key, n) == Some(projects[i].1),
    decreases n,
{
    if n - 1 > i {
        lemma_exact_entry(projects, key, i, n - 1);
    } else {
        lemma_no_exact_entry(projects, key, n - 1);
    }
}

proof fn lemma_no_exact_entry(projects: Seq<(Seq<char>, ProjectConfig)>, key: Seq<char>, n: int)
    requires
        n <= projects.len(),
        forall|j: int| 0 <= j < n ==> (#[trigger] projects[j]).0 != key,
    ensures
        exact_entry(projects, key, n) is None,
    decreases n,
{
    if n > 0 {
        lemma_no_exact_entry(projects, key, n - 1);
        assert(projects[n - 1].0 != key);
    }
}

proof fn lemma_no_normal_entry(
    projects: Seq<(Seq<char>, ProjectConfig)>,
    key: Seq<char>,
    on_windows: bool,
    n: int,
)
    requires
        n <= projects.len(),
        forall|j: int| 0 <= j < n ==> normal_key((#[trigger] projects[j]).0, on_windows) != key,
    ensures
        normal_entry(projects, key, on_windows, n) is None,
    decreases n,
{
    if n > 0 {
        lemma_no_normal_entry(projects, key, on_windows, n - 1);
        assert(normal_key(projects[n - 1].0, on_windows) != key);
    }
}

/// Entry `i` is listed under `key` without regard to case, and no such entry
/// comes before it by its own key.
pub open spec fn comes_first(
    projects: Seq<(Seq<char>, ProjectConfig)>,
    key: Seq<char>,
    i: int,
    n: int,
) -> bool {
    &&& 0 <= i < n <= projects.len()
    &&& text::to_ascii_lower(projects[i].0) == key
    &&& forall|j: int|
        0 <= j < n && j != i && text::to_ascii_lower((#[trigger] projects[j]).0) == key
            ==> text::lex_before(projects[i].0, projects[j].0)
}

proof fn lemma_normal_entry_is_one(
    projects: Seq<(Seq<char>, ProjectConfig)>,
    key: Seq<char>,
    n: int,
)
    requires
        n <= projects.len(),
    ensures
        normal_entry(projects, key, true, n) matches Some(b) ==> 0 <= b < n
            && text::to_ascii_lower(projects[b].0) == key,
    decreases n,
{
    if n > 0 {
        lemma_normal_entry_is_one(projects, key, n - 1);
    }
}

proof fn lemma_normal_entry(
    projects: Seq<(Seq<char>, ProjectConfig)>,
    key: Seq<char>,
    i: int,
    n: int,
)
    requires
        comes_first(projects, key, i, n),
    ensures
        normal_entry(projects, key, true, n) == Some(i),
    decreases n,
{
    let best = normal_entry(projects, key, true, n - 1);
    if n - 1 > i {
        assert(comes_first(projects, key, i, n - 1));
        lemma_normal_entry(projects, key, i, n - 1);
        if text::to_ascii_lower(projects[n - 1].0) == key {
            text::lemma_lex_before_total(projects[i].0, projects[n - 1].0);
        }
    } else {
        lemma_normal_entry_is_one(projects, key, n - 1);
    }
}

/// A project is found under its key: the first entry with just that key, and on
/// Windows otherwise the one that comes first of those that differ in case only.
pub proof fn law_projects_are_found_by_their_key(
    projects: Seq<(Seq<char>, ProjectConfig)>,
    key: Seq<char>,
    i: int,
    on_windows: bool,
)
    requires
        0 <= i < projects.len(),
    ensures
        projects[i].0 == key && (forall|j: int| 0 <= j < i ==> (#[trigger] projects[j]).0 != key)
            ==> project_for_key(projects, key, on_windows) == Some(projects[i].1),
        (forall|j: int| 0 <= j < projects.len() ==> (#[trigger] projects[j]).0 != key)
            && comes_first(projects, key, i, projects.len() as int) ==> project_for_key(
            projects,
            key,
            true,
        ) == Some(projects[i].1),
        (forall|j: int| 0 <= j < projects.len() ==> (#[trigger] projects[j]).0 != key)
            ==> project_for_key(projects, key, false) is None,
        (forall|j: int|
            0 <= j < projects.len() ==> (#[trigger] projects[j]).0 != key && text::to_ascii_lower(
                projects[j].0,
            ) != key) ==> project_for_key(projects, key, true) is None,
{
    let n = projects.len() as int;
    if projects[i].0 == key && (forall|j: int| 0 <= j < i ==> (#[trigger] projects[j]).0 != key) {
        lemma_exact_entry(projects, key, i, n);
    }
    if forall|j: int| 0 <= j < projects.len() ==> (#[trigger] projects[j]).0 != key {
        lemma_no_exact_entry(projects, key, n);
        lemma_no_normal_entry(projects, key, false, n);
        if comes_first(projects, key, i, n) {
            lemma_normal_entry(projects, key, i, n);
        }
        if forall|j: int|
            0 <= j < projects.len() ==> (#[trigger] projects[j]).0 != key && text::to_ascii_lower(
                projects[j].0,
            ) != key {
            lemma_no_normal_entry(projects, key, true, n);
        }
    }
}

/// A path is looked up by its canonical form first, and then as it is written;
/// on Windows both in lower case.
pub proof fn law_paths_are_looked_up_in_two_forms(
    projects: Seq<(Seq<char>, ProjectConfig)>,
    path: Seq<char>,
    canonical: Option<Seq<char>>,
    on_windows: bool,
)
    ensures
        ({
            let resolved = match canonical {
                Some(resolved) => resolved,
                None => path,
            };
            let keys = if on_windows {
                (text::to_ascii_lower(resolved), text::to_ascii_lower(path))
            } else {
                (resolved, path)
            };
            project_for_keys(projects, lookup_keys(path, canonical, on_windows), on_windows)
                == match project_for_key(projects, keys.0, on_windows) {
                Some(project) => Some(project),
                None => project_for_key(projects, keys.1, on_windows),
            }
        }),
{
    let keys = lookup_keys(path, canonical, on_windows);
    let rest = keys.drop_first();
    if rest.len() > 0 {
        assert(rest[0] == keys[1]);
        assert(rest.drop_first().len() == 0);
        assert(project_for_keys(projects, rest.drop_first(), on_windows) is None);
        assert(project_for_keys(projects, rest, on_windows) == project_for_key(
            projects,
            keys[1],
            on_windows,
        ));
    } else {
        assert(project_for_keys(projects, rest, on_windows) is None);
    }
}

/// The ids of the built-in providers are told, where custom providers take them,
/// in the order of the alphabet and each once.
pub proof fn law_reserved_ids_are_told(providers: Seq<(String, ModelProviderInfo)>)
    ensures
        ({
            let lmstudio = exists|i: int|
                0 <= i < providers.len() && (#[trigger] providers[i]).0@ == "lmstudio"@;
            let ollama = exists|i: int|
                0 <= i < providers.len() && (#[trigger] providers[i]).0@ == "ollama"@;
            let openai = exists|i: int|
                0 <= i < providers.len() && (#[trigger] providers[i]).0@ == "openai"@;
            let ids = (if lmstudio {
                seq!["`lmstudio`"@]
            } else {
                seq![]
            }) + (if ollama {
                seq!["`ollama`"@]
            } else {
                seq![]
            }) + (if openai {
                seq!["`openai`"@]
            } else {
                seq![]
            });
            &&& (reserved_conflicts(providers).len() > 0) == (lmstudio || ollama || openai)
            &&& reserved_text(providers)
                == "model_providers contains reserved built-in provider IDs: "@ + text::join(
                ids,
                ", "@,
            )
                + ". Built-in providers cannot be overridden. Rename your custom provider (for example, `openai-custom`)."@
        }),
        has_provider(providers, "openai"@) == exists|i: int|
            0 <= i < providers.len() && (#[trigger] providers[i]).0@ == "openai"@,
{
    let lmstudio = has_provider(providers, "lmstudio"@);
    let ollama = has_provider(providers, "ollama"@);
    let openai = has_provider(providers, "openai"@);
    let ids = (if lmstudio {
        seq!["`lmstudio`"@]
    } else {
        seq![]
    }) + (if ollama {
        seq!["`ollama`"@]
    } else {
        seq![]
    }) + (if openai {
        seq!["`openai`"@]
    } else {
        seq![]
    });
    assert(reserved_conflicts(providers) =~= ids);
}

/// Only a Bedrock provider may have AWS settings, and any other needs a name. A
/// provider with neither fault is wrong where its own check says so.
pub proof fn law_faults_of_a_provider(
    id: Seq<char>,
    provider: ModelProviderInfo,
    answer: Option<Seq<char>>,
)
    ensures
        ({
            let bedrock = id == "amazon-bedrock"@ || id == "amazon-bedrock-runtime"@;
            let nameless = is_blank(provider.name@);
            let head = "model_providers."@ + id + ": "@;
            entry_problem(id, provider, answer) == if provider.aws && !bedrock {
                Some(
                    head
                        + "provider aws is only supported for `amazon-bedrock` or `amazon-bedrock-runtime`"@,
                )
            } else if nameless && !bedrock {
                Some(head + "provider name must not be empty"@)
            } else {
                match answer {
                    Some(problem) => Some(head + problem),
                    None => None,
                }
            }
        }),
{
    reveal_strlit(": ");
    reveal_strlit(
        ": provider aws is only supported for `amazon-bedrock` or `amazon-bedrock-runtime`",
    );
    reveal_strlit(
        "provider aws is only supported for `amazon-bedrock` or `amazon-bedrock-runtime`",
    );
    reveal_strlit(": provider name must not be empty");
    reveal_strlit("provider name must not be empty");
    let start = "model_providers."@ + id;
    let head = start + ": "@;
    assert(": provider aws is only supported for `amazon-bedrock` or `amazon-bedrock-runtime`"@
        =~= ": "@
        + "provider aws is only supported for `amazon-bedrock` or `amazon-bedrock-runtime`"@);
    assert(": provider name must not be empty"@ =~= ": "@ + "provider name must not be empty"@);
    assert(head + "provider name must not be empty"@ =~= start
        + ": provider name must not be empty"@);
    assert(head + "provider aws is only supported for `amazon-bedrock` or `amazon-bedrock-runtime`"@
        =~= start
        + ": provider aws is only supported for `amazon-bedrock` or `amazon-bedrock-runtime`"@);
    let name = provider.name@;
    let ends = law_trimming_takes_only_white_space(name);
    if is_blank(name) {
        if ends.0 < ends.1 {
            assert(text::is_whitespace(name[ends.0]));
        }
    }
}

proof fn lemma_no_problem(
    providers: Seq<(String, ModelProviderInfo)>,
    answers: Seq<Option<Seq<char>>>,
    n: int,
)
    requires
        forall|j: int|
            0 <= j < n ==> entry_problem(
                (#[trigger] providers[j]).0@,
                providers[j].1,
                answers[j],
            ) is None,
    ensures
        first_problem(providers, answers, n) is None,
    decreases n,
{
    if n > 0 {
        lemma_no_problem(providers, answers, n - 1);
        assert(entry_problem(providers[n - 1].0@, providers[n - 1].1, answers[n - 1]) is None);
    }
}

proof fn lemma_problem(
    providers: Seq<(String, ModelProviderInfo)>,
    answers: Seq<Option<Seq<char>>>,
    k: int,
    n: int,
)
    requires
        0 <= k < n,
        first_problem(providers, answers, k) is None,
        entry_problem(providers[k].0@, providers[k].1, answers[k]) is Some,
    ensures
        first_problem(providers, answers, n) == entry_problem(
            providers[k].0@,
            providers[k].1,
            answers[k],
        ),
    decreases n,
{
    if n - 1 > k {
        lemma_problem(providers, answers, k, n - 1);
    }
}

/// The first provider with a fault is told, and there is nothing to tell where
/// none has one.
pub proof fn law_first_fault_is_told(
    providers: Seq<(String, ModelProviderInfo)>,
    answers: Seq<Option<Seq<char>>>,
    k: int,
)
    requires
        answers.len() == providers.len(),
        0 <= k <= providers.len(),
        forall|j: int|
            0 <= j < k ==> entry_problem(
                (#[trigger] providers[j]).0@,
                providers[j].1,
                answers[j],
            ) is None,
    ensures
        first_problem(providers, answers, k) is None,
        k < providers.len() && entry_problem(
            providers[k].0@,
            providers[k].1,
            answers[k],
        ) is Some ==> first_problem(providers, answers, providers.len() as int) == entry_problem(
            providers[k].0@,
            providers[k].1,
            answers[k],
        ),
{
    lemma_no_problem(providers, answers, k);
    if k < providers.len() && entry_problem(providers[k].0@, providers[k].1, answers[k]) is Some {
        lemma_problem(providers, answers, k, providers.len() as int);
    }
}

/// What a check says of a provider counts, where nothing was wrong before it and
/// the settings of the provider are in order.
pub proof fn law_checks_are_asked<F: Fn(&ModelProviderInfo) -> Result<(), String>>(
    check: F,
    providers: Seq<(String, ModelProviderInfo)>,
    answers: Seq<Option<Seq<char>>>,
    k: int,
) -> (r: Result<(), String>)
    requires
        are_answers(check, providers, answers),
        0 <= k < providers.len(),
        forall|j: int|
            0 <= j < k ==> entry_problem(
                (#[trigger] providers[j]).0@,
                providers[j].1,
                answers[j],
            ) is None,
        entry_problem(providers[k].0@, providers[k].1, None) is None,
    ensures
        answers.len() == providers.len(),
        call_ensures(check, (&providers[k].1,), r),
        match (r, answers[k]) {
            (Ok(_), None) => true,
            (Err(problem), Some(words)) => problem@ == words,
            _ => false,
        },
{
    lemma_no_problem(providers, answers, k);
    assert(answered(check, providers[k].1, answers[k]));
    choose|r: Result<(), String>| #[trigger]
        call_ensures(check, (&providers[k].1,), r) && answers[k] == match r {
            Ok(_) => None,
            Err(problem) => Some(problem@),
        }
}

/// The ids of the providers.
pub proof fn law_ids_of_providers()
    ensures
        crate::config::OPENAI_PROVIDER_ID@ == "openai"@,
        crate::config::OLLAMA_OSS_PROVIDER_ID@ == "ollama"@,
        crate::config::LMSTUDIO_OSS_PROVIDER_ID@ == "lmstudio"@,
        crate::config::LEGACY_OLLAMA_CHAT_PROVIDER_ID@ == "ollama-chat"@,
        crate::config::AMAZON_BEDROCK_PROVIDER_ID@ == "amazon-bedrock"@,
        crate::config::AMAZON_BEDROCK_RUNTIME_PROVIDER_ID@ == "amazon-bedrock-runtime"@,
{
}

} // verus!
