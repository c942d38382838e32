//! The report on shakes as text for a terminal.

use vstd::prelude::*;
use vstd::string::*;

use crate::cache_staleness::CacheStaleness;
use crate::stats::events;
use crate::stats::report;
use crate::stats::report::ModelStats;
use crate::stats::report::ModelStatsView;
use crate::stats::report::Report;
use crate::stats::report::ShakeReport;
use crate::stats::report::ShakeReportView;
use crate::stats::report::Totals;
use crate::text;

verus! {

/// A text in a colour, where colours are on.
pub open spec fn painted(value: Seq<char>, code: Seq<char>, enabled: bool) -> Seq<char> {
    if enabled {
        "\x1b["@ + code + "m"@ + value + "\x1b[0m"@
    } else {
        value
    }
}

/// A text in a colour, where colours are on.
pub fn paint(value: &str, code: &str, enabled: bool) -> (r: String)
    ensures
        r@ == painted(value@, code@, enabled),
{
    if enabled {
        let mut r = "\x1b[".to_owned();
        r.append(code);
        r.append("m");
        r.append(value);
        r.append("\x1b[0m");
        r
    } else {
        value.to_owned()
    }
}

/// A number in a colour, where colours are on.
pub open spec fn painted_count(n: int, code: Seq<char>, enabled: bool) -> Seq<char> {
    painted(text::signed_decimal(n), code, enabled)
}

fn paint_count(n: i64, code: &str, enabled: bool) -> (r: String)
    ensures
        r@ == painted_count(n as int, code@, enabled),
{
    paint(text::signed_decimal_text(n).as_str(), code, enabled)
}

/// `n` blanks.
pub open spec fn blanks(n: int) -> Seq<char>
    decreases n,
{
    if n <= 0 {
        Seq::empty()
    } else {
        blanks(n - 1).push(' ')
    }
}

/// A text with blanks behind it, so that it is at least so wide.
pub open spec fn padded(value: Seq<char>, width: int) -> Seq<char> {
    value + blanks(width - value.len())
}

fn pad(value: &str, width: usize) -> (r: String)
    ensures
        r@ == padded(value@, width as int),
{
    let mut r = value.to_owned();
    let len = text::chars_of(value).len();
    assert(blanks(0) =~= Seq::empty());
    assert(r@ =~= value@ + Seq::<char>::empty());
    if len >= width {
        assert(blanks(width - len) =~= Seq::empty());
        return r;
    }
    let mut n: usize = len;
    while n < width
        invariant
            len <= n <= width,
            len == value@.len(),
            r@ == value@ + blanks(n - len),
        decreases width - n,
    {
        r.push(' ');
        n = n + 1;
        assert(r@ =~= value@ + blanks(n - len));
    }
    r
}

/// The name of a state of the cache.
pub open spec fn state_text(state: CacheStaleness) -> Seq<char> {
    match state {
        CacheStaleness::Warm => "warm"@,
        CacheStaleness::LikelyExpired => "likely_expired"@,
        CacheStaleness::Unknown => "unknown"@,
    }
}

/// A lifetime in seconds, where it is known.
pub open spec fn ttl_text(ttl: Option<i64>) -> Seq<char> {
    match ttl {
        Some(ttl) => text::signed_decimal(ttl as int),
        None => "unknown"@,
    }
}

/// How an estimate that rests on nothing is marked.
pub open spec fn provisional_mark(provisional: bool) -> Seq<char> {
    if provisional {
        " (provisional)"@
    } else {
        ""@
    }
}

fn known_text(value: &Option<String>) -> (r: &str)
    ensures
        r@ == events::known(value.deep_view()),
{
    match value {
        Some(value) => value.as_str(),
        None => "unknown",
    }
}

fn optional_count(value: Option<i64>) -> (r: String)
    ensures
        r@ == ttl_text(value),
{
    match value {
        Some(value) => text::signed_decimal_text(value),
        None => "unknown".to_owned(),
    }
}

/// The sums of a report.
pub open spec fn summary_text(since: Seq<char>, totals: Totals, color: bool) -> Seq<char> {
    ""@
        + painted("Shake stats since "@ + since, "1;36"@, color)
        + "\n  shakes: "@
        + text::decimal(totals.shakes as nat)
        + "\n  tokens shaken out: "@
        + painted_count(totals.tokens_freed as int, "1;32"@, color)
        + "\n  cache reads: "@
        + painted_count(totals.cache_read_tokens as int, "1;34"@, color)
        + " tokens\n  cache rewrite burn proxy: "@
        + painted_count(totals.cache_rewrite_burn_tokens as int, "1;31"@, color)
        + " tokens across "@
        + text::decimal(totals.cache_rewrite_requests as nat)
        + " observed following prompts\n  observed quota usage: "@
        + painted_count(totals.quota_usage_tokens as int, "1;35"@, color)
        + " total tokens\n  likely saved in following prompts: "@
        + painted_count(totals.likely_saved_tokens as int, "1;32"@, color)
        + " tokens across "@
        + text::decimal(totals.following_prompts_observed as nat)
        + " prompts\n  net estimated input impact: "@
        + painted_count(totals.net_estimated_tokens as int, "1;33"@, color)
        + " tokens\n  incremental rewrite estimate: "@
        + painted_count(totals.incremental_cache_rewrite_tokens as int, "1;31"@, color)
        + " tokens\n  cache states: warm="@
        + text::decimal(totals.cache_state_counts.warm as nat)
        + " likely_expired="@
        + text::decimal(totals.cache_state_counts.likely_expired as nat)
        + " unknown="@
        + text::decimal(totals.cache_state_counts.unknown as nat)
        + "\n"@
}

/// How many estimates are provisional, where any are.
pub open spec fn provisional_text(n: usize) -> Seq<char> {
    if n > 0 {
        "  provisional estimates: "@
        + text::decimal(n as nat)
        + " (cache state unknown)\n"@
    } else {
        ""@
    }
}

/// The line of a model.
pub open spec fn model_line(model: ModelStatsView, color: bool) -> Seq<char> {
    "  "@
        + padded(model.model, 20)
        + " shakes="@
        + padded(text::decimal(model.totals.shakes as nat), 3)
        + " freed="@
        + padded(painted_count(model.totals.tokens_freed as int, "32"@, color), 9)
        + " reads="@
        + padded(painted_count(model.totals.cache_read_tokens as int, "34"@, color), 9)
        + " rewrite="@
        + padded(painted_count(model.totals.cache_rewrite_burn_tokens as int, "31"@, color), 9)
        + " incremental="@
        + padded(painted_count(model.totals.incremental_cache_rewrite_tokens as int, "31"@, color), 9)
        + " saved="@
        + padded(painted_count(model.totals.likely_saved_tokens as int, "32"@, color), 9)
        + " net="@
        + painted_count(model.totals.net_estimated_tokens as int, "33"@, color)
        + " states="@
        + text::decimal(model.totals.cache_state_counts.warm as nat)
        + "/"@
        + text::decimal(model.totals.cache_state_counts.likely_expired as nat)
        + "/"@
        + text::decimal(model.totals.cache_state_counts.unknown as nat)
        + " provisional="@
        + text::decimal(model.totals.provisional_estimates as nat)
        + "\n"@
}

/// The line of a shake. `idle` is the idle time in seconds, where it is known.
pub open spec fn shake_line(shake: ShakeReportView, idle: Option<Seq<char>>, color: bool) -> Seq<
    char,
> {
    "  "@
        + shake.timestamp
        + " "@
        + painted(shake.trigger, "33"@, color)
        + " provider="@
        + events::known(shake.provider_id)
        + " "@
        + shake.model
        + " turn="@
        + events::known(shake.turn_id)
        + " freed="@
        + painted_count(shake.tokens_freed as int, "32"@, color)
        + " cache_state="@
        + state_text(shake.cache_state)
        + " idle_secs="@
        + events::known(idle)
        + " ttl_secs="@
        + ttl_text(shake.cache_ttl_secs)
        + " ttl_source="@
        + events::known(shake.cache_ttl_source)
        + " evidence="@
        + events::known(shake.evidence_source)
        + " confidence="@
        + events::known(shake.evidence_confidence)
        + " rewrite="@
        + painted_count(report::or_zero(shake.cache_rewrite_burn_tokens) as int, "31"@, color)
        + " incremental="@
        + painted_count(shake.incremental_cache_rewrite_tokens as int, "31"@, color)
        + " saved="@
        + painted_count(shake.likely_saved_tokens as int, "32"@, color)
        + " net="@
        + painted_count(shake.net_estimated_tokens as int, "33"@, color)
        + provisional_mark(shake.estimate_provisional)
        + "\n"@
}

/// The lines of a shake: its own, why nothing is known of the cache, and when
/// the request before it was made.
pub open spec fn shake_lines(shake: ShakeReportView, idle: Option<Seq<char>>, color: bool) -> Seq<
    char,
> {
    shake_line(shake, idle, color) + (match shake.unknown_reason {
        Some(reason) => "    unknown reason: "@ + reason + "\n"@,
        None => ""@,
    }) + (match shake.previous_sampling_timestamp {
        Some(previous) => "    previous sampling: "@ + previous
            + " (historical timestamp; lower confidence than runtime clock)\n"@,
        None => ""@,
    })
}

/// The lines of the first `n` models.
pub open spec fn all_model_lines(models: Seq<ModelStatsView>, color: bool, n: int) -> Seq<char>
    decreases n,
{
    if n <= 0 {
        ""@
    } else {
        all_model_lines(models, color, n - 1) + model_line(models[n - 1], color)
    }
}

/// The idle time of shake `i`, where it is known.
pub open spec fn idle_at(idle_secs: Seq<Option<Seq<char>>>, i: int) -> Option<Seq<char>> {
    if 0 <= i < idle_secs.len() {
        idle_secs[i]
    } else {
        None
    }
}

/// The lines of the first `n` shakes.
pub open spec fn all_shake_lines(
    shakes: Seq<ShakeReportView>,
    idle_secs: Seq<Option<Seq<char>>>,
    color: bool,
    n: int,
) -> Seq<char>
    decreases n,
{
    if n <= 0 {
        ""@
    } else {
        all_shake_lines(shakes, idle_secs, color, n - 1) + shake_lines(
            shakes[n - 1],
            idle_at(idle_secs, n - 1),
            color,
        )
    }
}

/// A report as text.
pub open spec fn report_text(
    report: Report,
    idle_secs: Seq<Option<Seq<char>>>,
    color: bool,
) -> Seq<char> {
    let models = report.models.deep_view();
    let shakes = report.shakes.deep_view();
    summary_text(report.since@, report.totals, color) + provisional_text(
        report.totals.provisional_estimates,
    ) + "\n"@ + painted("By model"@, "1;36"@, color) + "\n"@ + all_model_lines(
        models,
        color,
        models.len() as int,
    ) + "\n"@ + painted("Shakes by turn"@, "1;36"@, color) + "\n"@ + all_shake_lines(
        shakes,
        idle_secs,
        color,
        shakes.len() as int,
    ) + "\n  note: "@ + report.estimate_note@ + "\n"@
}

fn render_summary(since: &str, totals: &Totals, color: bool) -> (r: String)
    ensures
        r@ == summary_text(since@, *totals, color),
{
    let mut title = "Shake stats since ".to_owned();
    title.append(since);
    let mut r = "".to_owned();
    r.append(paint(title.as_str(), "1;36", color).as_str());
    r.append("\n  shakes: ");
    r.append(text::decimal_text(totals.shakes as u64).as_str());
    r.append("\n  tokens shaken out: ");
    r.append(paint_count(totals.tokens_freed, "1;32", color).as_str());
    r.append("\n  cache reads: ");
    r.append(paint_count(totals.cache_read_tokens, "1;34", color).as_str());
    r.append(" tokens\n  cache rewrite burn proxy: ");
    r.append(paint_count(totals.cache_rewrite_burn_tokens, "1;31", color).as_str());
    r.append(" tokens across ");
    r.append(text::decimal_text(totals.cache_rewrite_requests as u64).as_str());
    r.append(" observed following prompts\n  observed quota usage: ");
    r.append(paint_count(totals.quota_usage_tokens, "1;35", color).as_str());
    r.append(" total tokens\n  likely saved in following prompts: ");
    r.append(paint_count(totals.likely_saved_tokens, "1;32", color).as_str());
    r.append(" tokens across ");
    r.append(text::decimal_text(totals.following_prompts_observed as u64).as_str());
    r.append(" prompts\n  net estimated input impact: ");
    r.append(paint_count(totals.net_estimated_tokens, "1;33", color).as_str());
    r.append(" tokens\n  incremental rewrite estimate: ");
    r.append(paint_count(totals.incremental_cache_rewrite_tokens, "1;31", color).as_str());
    r.append(" tokens\n  cache states: warm=");
    r.append(text::decimal_text(totals.cache_state_counts.warm as u64).as_str());
    r.append(" likely_expired=");
    r.append(text::decimal_text(totals.cache_state_counts.likely_expired as u64).as_str());
    r.append(" unknown=");
    r.append(text::decimal_text(totals.cache_state_counts.unknown as u64).as_str());
    r.append("\n");
    r
}

fn render_provisional(n: usize) -> (r: String)
    ensures
        r@ == provisional_text(n),
{
    if n == 0 {
        return "".to_owned();
    }
    let mut r = "  provisional estimates: ".to_owned();
    r.append(text::decimal_text(n as u64).as_str());
    r.append(" (cache state unknown)\n");
    r
}

fn render_model(model: &ModelStats, color: bool) -> (r: String)
    ensures
        r@ == model_line(model.deep_view(), color),
{
    let mut r = "  ".to_owned();
    r.append(pad(model.model.as_str(), 20).as_str());
    r.append(" shakes=");
    r.append(pad(text::decimal_text(model.totals.shakes as u64).as_str(), 3).as_str());
    r.append(" freed=");
    r.append(pad(paint_count(model.totals.tokens_freed, "32", color).as_str(), 9).as_str());
    r.append(" reads=");
    r.append(pad(paint_count(model.totals.cache_read_tokens, "34", color).as_str(), 9).as_str());
    r.append(" rewrite=");
    r.append(
        pad(
            paint_count(model.totals.cache_rewrite_burn_tokens, "31", color).as_str(),
            9,
        ).as_str(),
    );
    r.append(" incremental=");
    r.append(
        pad(
            paint_count(model.totals.incremental_cache_rewrite_tokens, "31", color).as_str(),
            9,
        ).as_str(),
    );
    r.append(" saved=");
    r.append(pad(paint_count(model.totals.likely_saved_tokens, "32", color).as_str(), 9).as_str());
    r.append(" net=");
    r.append(paint_count(model.totals.net_estimated_tokens, "33", color).as_str());
    r.append(" states=");
    r.append(text::decimal_text(model.totals.cache_state_counts.warm as u64).as_str());
    r.append("/");
    r.append(text::decimal_text(model.totals.cache_state_counts.likely_expired as u64).as_str());
    r.append("/");
    r.append(text::decimal_text(model.totals.cache_state_counts.unknown as u64).as_str());
    r.append(" provisional=");
    r.append(text::decimal_text(model.totals.provisional_estimates as u64).as_str());
    r.append("\n");
    r
}

fn render_shake_line(shake: &ShakeReport, idle: &Option<String>, color: bool) -> (r: String)
    ensures
        r@ == shake_line(shake.deep_view(), idle.deep_view(), color),
{
    let rewrite: i64 = match shake.cache_rewrite_burn_tokens {
        Some(tokens) => tokens,
        None => 0,
    };
    let mark = if shake.estimate_provisional {
        " (provisional)"
    } else {
        ""
    };
    let mut r = "  ".to_owned();
    r.append(shake.timestamp.as_str());
    r.append(" ");
    r.append(paint(shake.trigger.as_str(), "33", color).as_str());
    r.append(" provider=");
    r.append(known_text(&shake.provider_id));
    r.append(" ");
    r.append(shake.model.as_str());
    r.append(" turn=");
    r.append(known_text(&shake.turn_id));
    r.append(" freed=");
    r.append(paint_count(shake.tokens_freed, "32", color).as_str());
    r.append(" cache_state=");
    r.append(shake.cache_state.as_str());
    r.append(" idle_secs=");
    r.append(known_text(idle));
    r.append(" ttl_secs=");
    r.append(optional_count(shake.cache_ttl_secs).as_str());
    r.append(" ttl_source=");
    r.append(known_text(&shake.cache_ttl_source));
    r.append(" evidence=");
    r.append(known_text(&shake.evidence_source));
    r.append(" confidence=");
    r.append(known_text(&shake.evidence_confidence));
    r.append(" rewrite=");
    r.append(paint_count(rewrite, "31", color).as_str());
    r.append(" incremental=");
    r.append(paint_count(shake.incremental_cache_rewrite_tokens, "31", color).as_str());
    r.append(" saved=");
    r.append(paint_count(shake.likely_saved_tokens, "32", color).as_str());
    r.append(" net=");
    r.append(paint_count(shake.net_estimated_tokens, "33", color).as_str());
    r.append(mark);
    r.append("\n");
    r
}

fn render_shake(shake: &ShakeReport, idle: &Option<String>, color: bool) -> (r: String)
    ensures
        r@ == shake_lines(shake.deep_view(), idle.deep_view(), color),
{
    let mut r = render_shake_line(shake, idle, color);
    let ghost line = r@;
    proof {
        reveal_strlit("");
    }
    if let Some(reason) = &shake.unknown_reason {
        let mut told = "    unknown reason: ".to_owned();
        told.append(reason.as_str());
        told.append("\n");
        r.append(told.as_str());
    } else {
        assert(r@ =~= line + ""@);
    }
    let ghost lines = r@;
    if let Some(previous) = &shake.previous_sampling_timestamp {
        let mut told = "    previous sampling: ".to_owned();
        told.append(previous.as_str());
        told.append(" (historical timestamp; lower confidence than runtime clock)\n");
        r.append(told.as_str());
    } else {
        assert(r@ =~= lines + ""@);
    }
    r
}

fn render_models(models: &Vec<ModelStats>, color: bool) -> (r: String)
    ensures
        r@ == all_model_lines(models.deep_view(), color, models@.len() as int),
{
    let mut r = "".to_owned();
    let ghost views = models.deep_view();
    let mut i: usize = 0;
    while i < models.len()
        invariant
            i <= models@.len(),
            views == models.deep_view(),
            r@ == all_model_lines(views, color, i as int),
        decreases models@.len() - i,
    {
        assert(views[i as int] == models@[i as int].deep_view());
        r.append(render_model(&models[i], color).as_str());
        i = i + 1;
    }
    r
}

fn render_shakes(
    shakes: &Vec<ShakeReport>,
    idle_secs: &Vec<Option<String>>,
    color: bool,
) -> (r: String)
    ensures
        r@ == all_shake_lines(
            shakes.deep_view(),
            idle_secs.deep_view(),
            color,
            shakes@.len() as int,
        ),
{
    let mut r = "".to_owned();
    let ghost views = shakes.deep_view();
    let ghost idle_views = idle_secs.deep_view();
    let mut i: usize = 0;
    while i < shakes.len()
        invariant
            i <= shakes@.len(),
            views == shakes.deep_view(),
            idle_views == idle_secs.deep_view(),
            r@ == all_shake_lines(views, idle_views, color, i as int),
        decreases shakes@.len() - i,
    {
        assert(views[i as int] == shakes@[i as int].deep_view());
        let unknown: Option<String> = None;
        let idle = if i < idle_secs.len() {
            assert(idle_views[i as int] == idle_secs@[i as int].deep_view());
            &idle_secs[i]
        } else {
            &unknown
        };
        assert(idle.deep_view() == idle_at(idle_views, i as int));
        r.append(render_shake(&shakes[i], idle, color).as_str());
        i = i + 1;
    }
    r
}

/// A report as text. `idle_secs` gives the idle time before each shake, in
/// seconds, as text.
pub fn render_report(report: &Report, idle_secs: &Vec<Option<String>>, color: bool) -> (r: String)
    ensures
        r@ == report_text(*report, idle_secs.deep_view(), color),
{
    let models = render_models(&report.models, color);
    let shakes = render_shakes(&report.shakes, idle_secs, color);
    let mut r = render_summary(report.since.as_str(), &report.totals, color);
    r.append(render_provisional(report.totals.provisional_estimates).as_str());
    r.append("\n");
    r.append(paint("By model", "1;36", color).as_str());
    r.append("\n");
    r.append(models.as_str());
    r.append("\n");
    r.append(paint("Shakes by turn", "1;36", color).as_str());
    r.append("\n");
    r.append(shakes.as_str());
    r.append("\n  note: ");
    r.append(report.estimate_note);
    r.append("\n");
    r
}

} // verus!
