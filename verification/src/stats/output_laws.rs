//! What the text of a report shows.

use vstd::prelude::*;
use vstd::string::*;

use crate::cache_staleness::CacheStaleness;
use crate::stats::output::all_model_lines;
use crate::stats::output::all_shake_lines;
use crate::stats::output::blanks;
use crate::stats::output::model_line;
use crate::stats::output::padded;
use crate::stats::output::painted;
use crate::stats::output::provisional_text;
use crate::stats::output::report_text;
use crate::stats::output::shake_line;
use crate::stats::output::shake_lines;
use crate::stats::output::summary_text;
use crate::stats::report::ModelStatsView;
use crate::stats::report::Report;
use crate::stats::report::ShakeReportView;
use crate::stats::report::Totals;
use crate::text;

verus! {

/// A number as it is shown, in a colour or not.
pub open spec fn shown(n: int, code: Seq<char>, color: bool) -> Seq<char> {
    if color {
        "\x1b["@ + code + "m"@ + text::signed_decimal(n) + "\x1b[0m"@
    } else {
        text::signed_decimal(n)
    }
}

/// A colour begins before a text and ends behind it. Where colours are off, a
/// text stays as it is.
pub proof fn law_colours_enclose_their_text(value: Seq<char>, code: Seq<char>)
    ensures
        painted(value, code, false) == value,
        painted(value, code, true) == "\x1b["@ + code + "m"@ + value + "\x1b[0m"@,
{
}

/// A text is padded with blanks behind it, up to its width and no further.
pub proof fn law_padding_fills_the_width(value: Seq<char>, width: int)
    ensures
        padded(value, width).take(value.len() as int) == value,
        value.len() >= width ==> padded(value, width) == value,
        value.len() < width ==> padded(value, width).len() == width,
        forall|i: int|
            value.len() <= i < padded(value, width).len() ==> #[trigger] padded(value, width)[i]
                == ' ',
{
    lemma_blanks(width - value.len());
    assert(padded(value, width).take(value.len() as int) =~= value);
    if value.len() >= width {
        assert(padded(value, width) =~= value);
    }
}

proof fn lemma_blanks(n: int)
    ensures
        blanks(n).len() == (if n > 0 {
            n
        } else {
            0
        }),
        forall|i: int| 0 <= i < blanks(n).len() ==> #[trigger] blanks(n)[i] == ' ',
    decreases n,
{
    if n > 0 {
        lemma_blanks(n - 1);
    }
}

/// A value, or that it is not known.
pub open spec fn or_unknown(value: Option<Seq<char>>) -> Seq<char> {
    match value {
        Some(value) => value,
        None => "unknown"@,
    }
}

/// The head of a report tells each sum behind its name.
pub proof fn law_heads_tell_the_sums(since: Seq<char>, totals: Totals, color: bool)
    ensures
        summary_text(since, totals, color) == (if color {
            "\x1b["@ + "1;36"@ + "m"@ + ("Shake stats since "@ + since) + "\x1b[0m"@
        } else {
            "Shake stats since "@ + since
        }) + "\n  shakes: "@ + text::decimal(totals.shakes as nat) + "\n  tokens shaken out: "@
            + shown(totals.tokens_freed as int, "1;32"@, color) + "\n  cache reads: "@ + shown(
            totals.cache_read_tokens as int,
            "1;34"@,
            color,
        ) + " tokens\n  cache rewrite burn proxy: "@ + shown(
            totals.cache_rewrite_burn_tokens as int,
            "1;31"@,
            color,
        ) + " tokens across "@ + text::decimal(totals.cache_rewrite_requests as nat)
            + " observed following prompts\n  observed quota usage: "@ + shown(
            totals.quota_usage_tokens as int,
            "1;35"@,
            color,
        ) + " total tokens\n  likely saved in following prompts: "@ + shown(
            totals.likely_saved_tokens as int,
            "1;32"@,
            color,
        ) + " tokens across "@ + text::decimal(totals.following_prompts_observed as nat)
            + " prompts\n  net estimated input impact: "@ + shown(
            totals.net_estimated_tokens as int,
            "1;33"@,
            color,
        ) + " tokens\n  incremental rewrite estimate: "@ + shown(
            totals.incremental_cache_rewrite_tokens as int,
            "1;31"@,
            color,
        ) + " tokens\n  cache states: warm="@ + text::decimal(
            totals.cache_state_counts.warm as nat,
        ) + " likely_expired="@ + text::decimal(totals.cache_state_counts.likely_expired as nat)
            + " unknown="@ + text::decimal(totals.cache_state_counts.unknown as nat) + "\n"@,
{
    reveal_strlit("");
    let title = painted("Shake stats since "@ + since, "1;36"@, color);
    assert(""@ + title =~= title);
}

/// Estimates that rest on nothing are counted on a line of their own, where
/// there are any.
pub proof fn law_provisional_estimates_are_counted(n: usize)
    ensures
        n == 0 ==> provisional_text(n).len() == 0,
        n > 0 ==> provisional_text(n) == "  provisional estimates: "@ + text::decimal(n as nat)
            + " (cache state unknown)\n"@,
{
    reveal_strlit("");
}

/// The line of a model tells its sums, in columns.
pub proof fn law_lines_of_models(model: ModelStatsView, color: bool)
    ensures
        ({
            let totals = model.totals;
            model_line(model, color) == "  "@ + padded(model.model, 20) + " shakes="@ + padded(
                text::decimal(totals.shakes as nat),
                3,
            ) + " freed="@ + padded(shown(totals.tokens_freed as int, "32"@, color), 9) + " reads="@
                + padded(shown(totals.cache_read_tokens as int, "34"@, color), 9) + " rewrite="@
                + padded(shown(totals.cache_rewrite_burn_tokens as int, "31"@, color), 9)
                + " incremental="@ + padded(
                shown(totals.incremental_cache_rewrite_tokens as int, "31"@, color),
                9,
            ) + " saved="@ + padded(shown(totals.likely_saved_tokens as int, "32"@, color), 9)
                + " net="@ + shown(totals.net_estimated_tokens as int, "33"@, color) + " states="@
                + text::decimal(totals.cache_state_counts.warm as nat) + "/"@ + text::decimal(
                totals.cache_state_counts.likely_expired as nat,
            ) + "/"@ + text::decimal(totals.cache_state_counts.unknown as nat) + " provisional="@
                + text::decimal(totals.provisional_estimates as nat) + "\n"@
        }),
{
}

/// The line of a shake tells what happened, what is known of the cache and what
/// the shake cost and saved. What is not known is called so.
pub proof fn law_lines_of_shakes(shake: ShakeReportView, idle: Option<Seq<char>>, color: bool)
    ensures
        shake_line(shake, idle, color) == "  "@ + shake.timestamp + " "@ + painted(
            shake.trigger,
            "33"@,
            color,
        ) + " provider="@ + or_unknown(shake.provider_id) + " "@ + shake.model + " turn="@
            + or_unknown(shake.turn_id) + " freed="@ + shown(
            shake.tokens_freed as int,
            "32"@,
            color,
        ) + " cache_state="@ + (match shake.cache_state {
            CacheStaleness::Warm => "warm"@,
            CacheStaleness::LikelyExpired => "likely_expired"@,
            CacheStaleness::Unknown => "unknown"@,
        }) + " idle_secs="@ + or_unknown(idle) + " ttl_secs="@ + (match shake.cache_ttl_secs {
            Some(secs) => text::signed_decimal(secs as int),
            None => "unknown"@,
        }) + " ttl_source="@ + or_unknown(shake.cache_ttl_source) + " evidence="@ + or_unknown(
            shake.evidence_source,
        ) + " confidence="@ + or_unknown(shake.evidence_confidence) + " rewrite="@ + shown(
            match shake.cache_rewrite_burn_tokens {
                Some(tokens) => tokens as int,
                None => 0,
            },
            "31"@,
            color,
        ) + " incremental="@ + shown(shake.incremental_cache_rewrite_tokens as int, "31"@, color)
            + " saved="@ + shown(shake.likely_saved_tokens as int, "32"@, color) + " net="@ + shown(
            shake.net_estimated_tokens as int,
            "33"@,
            color,
        ) + (if shake.estimate_provisional {
            " (provisional)"@
        } else {
            ""@
        }) + "\n"@,
{
}

/// Below the line of a shake stands why nothing is known of the cache, and then
/// when the request before was made, each only where there is something to say.
pub proof fn law_lines_below_a_shake(
    shake: ShakeReportView,
    plain: ShakeReportView,
    idle: Option<Seq<char>>,
    color: bool,
    reason: Seq<char>,
    previous: Seq<char>,
)
    requires
        plain == (ShakeReportView {
            unknown_reason: None,
            previous_sampling_timestamp: None,
            ..shake
        }),
        shake.unknown_reason == Some(reason),
        shake.previous_sampling_timestamp == Some(previous),
    ensures
        shake_lines(plain, idle, color) == shake_line(shake, idle, color),
        shake_lines(shake, idle, color) == shake_lines(plain, idle, color)
            + "    unknown reason: "@ + reason + "\n"@ + "    previous sampling: "@ + previous
            + " (historical timestamp; lower confidence than runtime clock)\n"@,
{
    reveal_strlit("");
    let line = shake_line(shake, idle, color);
    assert(shake_line(plain, idle, color) == line);
    assert(line + ""@ + ""@ =~= line);
    let note = " (historical timestamp; lower confidence than runtime clock)\n"@;
    assert(line + ("    unknown reason: "@ + reason + "\n"@) + ("    previous sampling: "@
        + previous + note) =~= line + "    unknown reason: "@ + reason + "\n"@
        + "    previous sampling: "@ + previous + note);
}

/// Models and shakes are listed one behind the other, each once. A shake takes
/// the idle time at its own place.
pub proof fn law_lists_add_one_by_one(
    models: Seq<ModelStatsView>,
    shakes: Seq<ShakeReportView>,
    idle_secs: Seq<Option<Seq<char>>>,
    color: bool,
    n: int,
)
    requires
        n >= 0,
    ensures
        all_model_lines(models, color, 0).len() == 0,
        all_shake_lines(shakes, idle_secs, color, 0).len() == 0,
        all_model_lines(models, color, n + 1) == all_model_lines(models, color, n) + model_line(
            models[n],
            color,
        ),
        all_shake_lines(shakes, idle_secs, color, n + 1) == all_shake_lines(
            shakes,
            idle_secs,
            color,
            n,
        ) + shake_lines(
            shakes[n],
            if n < idle_secs.len() {
                idle_secs[n]
            } else {
                None
            },
            color,
        ),
{
    reveal_strlit("");
}

/// A report shows its sums, then all its models, then all its shakes, and ends
/// with a note.
pub proof fn law_reports_have_three_parts(
    report: Report,
    idle_secs: Seq<Option<Seq<char>>>,
    color: bool,
)
    ensures
        report_text(report, idle_secs, color) == summary_text(report.since@, report.totals, color)
            + provisional_text(report.totals.provisional_estimates) + "\n"@ + painted(
            "By model"@,
            "1;36"@,
            color,
        ) + "\n"@ + all_model_lines(
            report.models.deep_view(),
            color,
            report.models.deep_view().len() as int,
        ) + "\n"@ + painted("Shakes by turn"@, "1;36"@, color) + "\n"@ + all_shake_lines(
            report.shakes.deep_view(),
            idle_secs,
            color,
            report.shakes.deep_view().len() as int,
        ) + "\n  note: "@ + report.estimate_note@ + "\n"@,
{
}

} // verus!
