//! What holds of every report on shakes.

use vstd::prelude::*;
use vstd::string::*;

use crate::stats::cache::CacheEvidenceView;
use crate::stats::cache::LogRow;
use crate::stats::cache::LogRowView;
use crate::stats::events;
use crate::stats::events::ShakeEventView;
use crate::stats::events::TokenUsage;
use crate::stats::report;
use crate::stats::report::ModelStatsView;
use crate::stats::report::ShakeReportView;
use crate::stats::report::Totals;
use crate::text;

verus! {

/// Every estimate that rests on nothing is marked as provisional.
pub open spec fn is_marked(shake: ShakeReportView) -> bool {
    shake.estimate_provisional == shake.cache_state is Unknown
}

/// A shake of an expired cache costs nothing: what it saved is what it gained.
/// Any other may cost what the next prompt wrote to the cache anew.
pub proof fn law_expired_caches_cost_nothing(
    event: ShakeEventView,
    usages: Seq<TokenUsage>,
    following_turns: usize,
    evidence: CacheEvidenceView,
)
    ensures
        ({
            let shake = report::report_of(event, usages, following_turns, evidence);
            &&& is_marked(shake)
            &&& evidence.state is LikelyExpired ==> shake.incremental_cache_rewrite_tokens == 0
                && shake.net_estimated_tokens == shake.likely_saved_tokens
            &&& !(evidence.state is LikelyExpired) ==> shake.incremental_cache_rewrite_tokens
                == report::or_zero(shake.cache_rewrite_burn_tokens)
                && shake.net_estimated_tokens == shake.raw_net_estimated_tokens
        }),
{
}

/// What happens in a thread without shakes is no matter of any shake: with one
/// more row that tells of no shake, in a thread that none of the shakes belongs
/// to, every shake is reported as before.
pub proof fn law_other_threads_change_no_shake(
    rows: Seq<LogRowView>,
    at: int,
    row: LogRowView,
    sampling: Map<i64, Option<LogRow>>,
    following_turns: usize,
)
    requires
        0 <= at <= rows.len(),
        !events::tells_of_shake(row),
        forall|i: int|
            0 <= i < events::events_in(rows, rows.len() as int).len() ==> (
            #[trigger] events::events_in(rows, rows.len() as int)[i]).thread_id
                != events::thread_of(row),
    ensures
        report::shake_reports(rows.insert(at, row), sampling, following_turns)
            == report::shake_reports(rows, sampling, following_turns),
{
    let all = rows.insert(at, row);
    let found = events::events_in(rows, rows.len() as int);
    lemma_same_events(rows, at, row, rows.len() as int);
    assert forall|i: int| 0 <= i < found.len() implies report::report_at(
        all,
        sampling,
        following_turns,
        found,
        i,
    ) == report::report_at(rows, sampling, following_turns, found, i) by {
        assert(found[i].thread_id != events::thread_of(row));
        lemma_same_usages(
            rows,
            at,
            row,
            found[i],
            events::next_event_id(found, found[i].thread_id, i + 1),
            rows.len() as int,
        );
    }
    assert(report::shake_reports(all, sampling, following_turns) =~= report::shake_reports(
        rows,
        sampling,
        following_turns,
    ));
}

/// Where row `i` stands once a row was inserted at `at`.
spec fn moved(at: int, i: int) -> int {
    if i < at {
        i
    } else {
        i + 1
    }
}

proof fn lemma_same_model(
    rows: Seq<LogRowView>,
    at: int,
    row: LogRowView,
    thread: Option<Seq<char>>,
    i: int,
)
    requires
        0 <= at <= rows.len(),
        -1 <= i < rows.len(),
        events::thread_of(row) != thread,
    ensures
        events::model_before(rows.insert(at, row), thread, moved(at, i)) == events::model_before(
            rows,
            thread,
            i,
        ),
    decreases i + 1,
{
    let all = rows.insert(at, row);
    if i >= 0 {
        lemma_same_model(rows, at, row, thread, i - 1);
        assert(all[moved(at, i)] == rows[i]);
        if i == at {
            assert(events::model_before(all, thread, at) == events::model_before(
                all,
                thread,
                at - 1,
            ));
        }
    } else if at == 0 {
        assert(events::model_before(all, thread, 0) == events::model_before(all, thread, -1));
    }
}

proof fn lemma_event_is_listed(rows: Seq<LogRowView>, i: int, n: int) -> (k: int)
    requires
        0 <= i < n <= rows.len(),
        events::event_at(rows, i) is Some,
    ensures
        0 <= k < events::events_in(rows, n).len(),
        events::events_in(rows, n)[k] == events::event_at(rows, i)->0,
    decreases n,
{
    if i == n - 1 {
        events::events_in(rows, n).len() - 1
    } else {
        lemma_event_is_listed(rows, i, n - 1)
    }
}

proof fn lemma_same_events(rows: Seq<LogRowView>, at: int, row: LogRowView, n: int)
    requires
        0 <= at <= rows.len(),
        0 <= n <= rows.len(),
        !events::tells_of_shake(row),
        forall|i: int|
            0 <= i < events::events_in(rows, rows.len() as int).len() ==> (
            #[trigger] events::events_in(rows, rows.len() as int)[i]).thread_id
                != events::thread_of(row),
    ensures
        events::events_in(rows.insert(at, row), moved(at, n)) == events::events_in(rows, n),
    decreases n,
{
    let all = rows.insert(at, row);
    if n > 0 {
        lemma_same_events(rows, at, row, n - 1);
        assert(all[moved(at, n - 1)] == rows[n - 1]);
        if events::event_at(rows, n - 1) is Some {
            let k = lemma_event_is_listed(rows, n - 1, rows.len() as int);
            lemma_same_model(rows, at, row, events::thread_of(rows[n - 1]), n - 1);
        }
        assert(events::event_at(all, moved(at, n - 1)) == events::event_at(rows, n - 1));
    }
    if n == at {
        assert(all[at] == row);
        assert(events::events_in(all, at + 1) == events::events_in(all, at));
    }
}

proof fn lemma_same_usages(
    rows: Seq<LogRowView>,
    at: int,
    row: LogRowView,
    event: ShakeEventView,
    next: Option<i64>,
    n: int,
)
    requires
        0 <= at <= rows.len(),
        0 <= n <= rows.len(),
        event.thread_id != events::thread_of(row),
    ensures
        events::usages_after(rows.insert(at, row), event, next, moved(at, n))
            == events::usages_after(rows, event, next, n),
    decreases n,
{
    let all = rows.insert(at, row);
    if n > 0 {
        lemma_same_usages(rows, at, row, event, next, n - 1);
        assert(all[moved(at, n - 1)] == rows[n - 1]);
    }
    if n == at {
        assert(all[at] == row);
        assert(events::usages_after(all, event, next, at + 1) == events::usages_after(
            all,
            event,
            next,
            at,
        ));
    }
}

/// No more prompts are looked at than were asked for, nor more than there were.
pub proof fn law_follow_ups_are_bounded(
    event: ShakeEventView,
    usages: Seq<TokenUsage>,
    following_turns: usize,
    evidence: CacheEvidenceView,
)
    ensures
        ({
            let shake = report::report_of(event, usages, following_turns, evidence);
            &&& shake.following_prompts_observed <= following_turns
            &&& shake.following_prompts_observed <= usages.len()
        }),
{
    let n = report::observed(usages, following_turns);
    lemma_prompts(usages, event.tokens_freed, n);
}

proof fn lemma_prompts(usages: Seq<TokenUsage>, tokens_freed: i64, n: nat)
    requires
        n <= usize::MAX,
    ensures
        report::follow_up(usages, tokens_freed, n).prompts == n,
{
}

/// Every shake is counted once, and once among the states of the cache; those
/// whose state is not known are the provisional ones.
pub proof fn law_shakes_are_counted_once(
    rows: Seq<LogRowView>,
    shakes: Seq<ShakeReportView>,
    n: int,
)
    requires
        0 <= n <= shakes.len() <= usize::MAX,
        forall|i: int| 0 <= i < shakes.len() ==> is_marked(#[trigger] shakes[i]),
    ensures
        ({
            let totals = report::totals_of(rows, shakes, None, n);
            &&& totals.shakes == n
            &&& totals.cache_state_counts.warm + totals.cache_state_counts.likely_expired
                + totals.cache_state_counts.unknown == n
            &&& totals.provisional_estimates == totals.cache_state_counts.unknown
        }),
    decreases n,
{
    if n > 0 {
        law_shakes_are_counted_once(rows, shakes, n - 1);
        assert(is_marked(shakes[n - 1]));
    } else {
        lemma_usage_counts_no_shakes(rows, None, rows.len() as int);
    }
}

proof fn lemma_usage_counts_no_shakes(rows: Seq<LogRowView>, only: Option<Seq<char>>, n: int)
    ensures
        ({
            let totals = report::usage_totals(rows, only, n);
            &&& totals.shakes == 0
            &&& totals.cache_state_counts == report::no_totals().cache_state_counts
            &&& totals.provisional_estimates == 0
        }),
    decreases n,
{
    if n > 0 {
        lemma_usage_counts_no_shakes(rows, only, n - 1);
    }
}

/// How many of the first `n` shakes the first `k` models have.
pub open spec fn shakes_of_models(
    rows: Seq<LogRowView>,
    shakes: Seq<ShakeReportView>,
    models: Seq<ModelStatsView>,
    n: int,
    k: int,
) -> nat
    decreases k,
{
    if k <= 0 {
        0
    } else {
        shakes_of_models(rows, shakes, models, n, k - 1) + report::totals_of(
            rows,
            shakes,
            Some(models[k - 1].model),
            n,
        ).shakes as nat
    }
}

/// Every shake belongs to one of the models, and to one only: the models' counts
/// add up to the number of shakes.
pub proof fn law_models_share_the_shakes(
    rows: Seq<LogRowView>,
    shakes: Seq<ShakeReportView>,
    models: Seq<ModelStatsView>,
)
    requires
        shakes.len() <= usize::MAX,
        report::are_models(models, rows, shakes),
    ensures
        shakes_of_models(rows, shakes, models, shakes.len() as int, models.len() as int)
            == shakes.len(),
        forall|i: int|
            0 <= i < models.len() ==> (#[trigger] models[i]).totals == report::totals_of(
                rows,
                shakes,
                Some(models[i].model),
                shakes.len() as int,
            ),
{
    lemma_models_share(rows, shakes, models, shakes.len() as int);
}

proof fn lemma_models_share(
    rows: Seq<LogRowView>,
    shakes: Seq<ShakeReportView>,
    models: Seq<ModelStatsView>,
    n: int,
)
    requires
        0 <= n <= shakes.len() <= usize::MAX,
        report::are_models(models, rows, shakes),
    ensures
        shakes_of_models(rows, shakes, models, n, models.len() as int) == n,
    decreases n,
{
    if n == 0 {
        lemma_no_shakes(rows, shakes, models, models.len() as int);
    } else {
        lemma_models_share(rows, shakes, models, n - 1);
        let at = lemma_model_of_shake(rows, shakes, models, n);
        lemma_one_more(rows, shakes, models, n, at, models.len() as int);
    }
}

/// The one model that has shake `n - 1`.
proof fn lemma_model_of_shake(
    rows: Seq<LogRowView>,
    shakes: Seq<ShakeReportView>,
    models: Seq<ModelStatsView>,
    n: int,
) -> (at: int)
    requires
        0 < n <= shakes.len(),
        report::are_models(models, rows, shakes),
    ensures
        0 <= at < models.len(),
        models[at].model == shakes[n - 1].model,
        forall|i: int|
            0 <= i < models.len() && i != at ==> (#[trigger] models[i]).model != shakes[n
                - 1].model,
{
    let name = shakes[n - 1].model;
    assert(report::names_shake(shakes, name, shakes.len() as int));
    assert(report::has_model(models, name));
    let at = choose|i: int| 0 <= i < models.len() && (#[trigger] models[i]).model == name;
    assert forall|i: int| 0 <= i < models.len() && i != at implies (#[trigger] models[i]).model
        != name by {
        crate::text::lemma_lex_before_irreflexive(name);
    }
    at
}

proof fn lemma_no_shakes(
    rows: Seq<LogRowView>,
    shakes: Seq<ShakeReportView>,
    models: Seq<ModelStatsView>,
    k: int,
)
    requires
        0 <= k <= models.len(),
    ensures
        shakes_of_models(rows, shakes, models, 0, k) == 0,
    decreases k,
{
    if k > 0 {
        lemma_no_shakes(rows, shakes, models, k - 1);
        lemma_usage_counts_no_shakes(rows, Some(models[k - 1].model), rows.len() as int);
    }
}

proof fn lemma_one_more(
    rows: Seq<LogRowView>,
    shakes: Seq<ShakeReportView>,
    models: Seq<ModelStatsView>,
    n: int,
    at: int,
    k: int,
)
    requires
        0 < n <= shakes.len() <= usize::MAX,
        0 <= at < models.len(),
        0 <= k <= models.len(),
        models[at].model == shakes[n - 1].model,
        forall|i: int|
            0 <= i < models.len() && i != at ==> (#[trigger] models[i]).model != shakes[n
                - 1].model,
    ensures
        shakes_of_models(rows, shakes, models, n, k) == shakes_of_models(
            rows,
            shakes,
            models,
            n - 1,
            k,
        ) + (if at < k {
            1int
        } else {
            0
        }),
    decreases k,
{
    if k > 0 {
        lemma_one_more(rows, shakes, models, n, at, k - 1);
        lemma_few_shakes(rows, shakes, models[k - 1].model, n - 1);
    }
}

proof fn lemma_few_shakes(
    rows: Seq<LogRowView>,
    shakes: Seq<ShakeReportView>,
    name: Seq<char>,
    n: int,
)
    requires
        0 <= n <= shakes.len() <= usize::MAX,
    ensures
        report::totals_of(rows, shakes, Some(name), n).shakes <= n,
    decreases n,
{
    if n > 0 {
        lemma_few_shakes(rows, shakes, name, n - 1);
    } else {
        lemma_usage_counts_no_shakes(rows, Some(name), rows.len() as int);
    }
}

/// One of the sums of tokens in a report.
pub enum TokenSum {
    Freed,
    Saved,
    Net,
    Incremental,
    Rewrite,
}

/// What one shake adds to a sum.
pub open spec fn shake_tokens(shake: ShakeReportView, sum: TokenSum) -> int {
    match sum {
        TokenSum::Freed => shake.tokens_freed as int,
        TokenSum::Saved => shake.likely_saved_tokens as int,
        TokenSum::Net => shake.net_estimated_tokens as int,
        TokenSum::Incremental => shake.incremental_cache_rewrite_tokens as int,
        TokenSum::Rewrite => report::or_zero(shake.cache_rewrite_burn_tokens) as int,
    }
}

/// A sum as a report states it.
pub open spec fn stated_tokens(totals: Totals, sum: TokenSum) -> int {
    match sum {
        TokenSum::Freed => totals.tokens_freed as int,
        TokenSum::Saved => totals.likely_saved_tokens as int,
        TokenSum::Net => totals.net_estimated_tokens as int,
        TokenSum::Incremental => totals.incremental_cache_rewrite_tokens as int,
        TokenSum::Rewrite => totals.cache_rewrite_burn_tokens as int,
    }
}

/// The sum over the first `n` shakes, of one model or of all.
pub open spec fn true_sum(
    shakes: Seq<ShakeReportView>,
    only: Option<Seq<char>>,
    sum: TokenSum,
    n: int,
) -> int
    decreases n,
{
    if n <= 0 {
        0
    } else {
        true_sum(shakes, only, sum, n - 1) + if report::is_asked(only, shakes[n - 1].model) {
            shake_tokens(shakes[n - 1], sum)
        } else {
            0
        }
    }
}

/// The sum fits a count after every shake, of each model and of all.
pub open spec fn always_fits(shakes: Seq<ShakeReportView>, sum: TokenSum) -> bool {
    forall|only: Option<Seq<char>>, n: int|
        0 <= n <= shakes.len() ==> i64::MIN <= #[trigger] true_sum(shakes, only, sum, n)
            <= i64::MAX
}

/// What the first `k` models state, together.
pub open spec fn tokens_of_models(models: Seq<ModelStatsView>, sum: TokenSum, k: int) -> int
    decreases k,
{
    if k <= 0 {
        0
    } else {
        tokens_of_models(models, sum, k - 1) + stated_tokens(models[k - 1].totals, sum)
    }
}

/// The models share the tokens of the shakes: what they state adds up to what
/// the report states of all shakes. This takes a sum that fits its count all the
/// way; one that does not stays at the limit.
pub proof fn law_models_share_the_tokens(
    rows: Seq<LogRowView>,
    shakes: Seq<ShakeReportView>,
    models: Seq<ModelStatsView>,
    sum: TokenSum,
)
    requires
        report::are_models(models, rows, shakes),
        always_fits(shakes, sum),
    ensures
        tokens_of_models(models, sum, models.len() as int) == stated_tokens(
            report::totals_of(rows, shakes, None, shakes.len() as int),
            sum,
        ),
{
    lemma_stated_sum(rows, shakes, None, sum, shakes.len() as int);
    lemma_models_state_sums(rows, shakes, models, sum, models.len() as int);
    lemma_sums_shared(rows, shakes, models, sum, shakes.len() as int);
}

proof fn lemma_usage_has_no_tokens(
    rows: Seq<LogRowView>,
    only: Option<Seq<char>>,
    sum: TokenSum,
    n: int,
)
    ensures
        stated_tokens(report::usage_totals(rows, only, n), sum) == 0,
    decreases n,
{
    if n > 0 {
        lemma_usage_has_no_tokens(rows, only, sum, n - 1);
    }
}

proof fn lemma_stated_sum(
    rows: Seq<LogRowView>,
    shakes: Seq<ShakeReportView>,
    only: Option<Seq<char>>,
    sum: TokenSum,
    n: int,
)
    requires
        0 <= n <= shakes.len(),
        always_fits(shakes, sum),
    ensures
        stated_tokens(report::totals_of(rows, shakes, only, n), sum) == true_sum(
            shakes,
            only,
            sum,
            n,
        ),
    decreases n,
{
    if n > 0 {
        lemma_stated_sum(rows, shakes, only, sum, n - 1);
        assert(i64::MIN <= true_sum(shakes, only, sum, n) <= i64::MAX);
    } else {
        lemma_usage_has_no_tokens(rows, only, sum, rows.len() as int);
    }
}

/// The sums of the first `k` models over the first `n` shakes, together.
spec fn shared_sum(
    shakes: Seq<ShakeReportView>,
    models: Seq<ModelStatsView>,
    sum: TokenSum,
    n: int,
    k: int,
) -> int
    decreases k,
{
    if k <= 0 {
        0
    } else {
        shared_sum(shakes, models, sum, n, k - 1) + true_sum(
            shakes,
            Some(models[k - 1].model),
            sum,
            n,
        )
    }
}

proof fn lemma_models_state_sums(
    rows: Seq<LogRowView>,
    shakes: Seq<ShakeReportView>,
    models: Seq<ModelStatsView>,
    sum: TokenSum,
    k: int,
)
    requires
        0 <= k <= models.len(),
        report::are_models(models, rows, shakes),
        always_fits(shakes, sum),
    ensures
        tokens_of_models(models, sum, k) == shared_sum(
            shakes,
            models,
            sum,
            shakes.len() as int,
            k,
        ),
    decreases k,
{
    if k > 0 {
        lemma_models_state_sums(rows, shakes, models, sum, k - 1);
        let name = models[k - 1].model;
        assert(models[k - 1].totals == report::totals_of(
            rows,
            shakes,
            Some(name),
            shakes.len() as int,
        ));
        lemma_stated_sum(rows, shakes, Some(name), sum, shakes.len() as int);
    }
}

proof fn lemma_sums_shared(
    rows: Seq<LogRowView>,
    shakes: Seq<ShakeReportView>,
    models: Seq<ModelStatsView>,
    sum: TokenSum,
    n: int,
)
    requires
        0 <= n <= shakes.len(),
        report::are_models(models, rows, shakes),
    ensures
        shared_sum(shakes, models, sum, n, models.len() as int) == true_sum(shakes, None, sum, n),
    decreases n,
{
    if n == 0 {
        lemma_nothing_shared(shakes, models, sum, models.len() as int);
    } else {
        lemma_sums_shared(rows, shakes, models, sum, n - 1);
        let at = lemma_model_of_shake(rows, shakes, models, n);
        lemma_one_more_shared(shakes, models, sum, n, at, models.len() as int);
    }
}

proof fn lemma_nothing_shared(
    shakes: Seq<ShakeReportView>,
    models: Seq<ModelStatsView>,
    sum: TokenSum,
    k: int,
)
    ensures
        shared_sum(shakes, models, sum, 0, k) == 0,
    decreases k,
{
    if k > 0 {
        lemma_nothing_shared(shakes, models, sum, k - 1);
    }
}

proof fn lemma_one_more_shared(
    shakes: Seq<ShakeReportView>,
    models: Seq<ModelStatsView>,
    sum: TokenSum,
    n: int,
    at: int,
    k: int,
)
    requires
        0 < n <= shakes.len(),
        0 <= at < models.len(),
        0 <= k <= models.len(),
        models[at].model == shakes[n - 1].model,
        forall|i: int|
            0 <= i < models.len() && i != at ==> (#[trigger] models[i]).model != shakes[n
                - 1].model,
    ensures
        shared_sum(shakes, models, sum, n, k) == shared_sum(shakes, models, sum, n - 1, k) + (
        if at < k {
            shake_tokens(shakes[n - 1], sum)
        } else {
            0
        }),
    decreases k,
{
    if k > 0 {
        lemma_one_more_shared(shakes, models, sum, n, at, k - 1);
    }
}

/// A count that holds a sum: the sum itself where it fits, and otherwise the
/// limit that it went beyond.
pub open spec fn holds_sum(count: i64, sum: int) -> bool {
    &&& i64::MIN <= sum <= i64::MAX ==> count == sum
    &&& sum > i64::MAX ==> count == i64::MAX
    &&& sum < i64::MIN ==> count == i64::MIN
}

/// The first prompts after a shake are the ones that count: once as many were
/// seen as are looked at, no later one changes the report.
pub proof fn law_later_prompts_do_not_count(
    event: ShakeEventView,
    usages: Seq<TokenUsage>,
    later: Seq<TokenUsage>,
    following_turns: usize,
    evidence: CacheEvidenceView,
)
    requires
        usages.len() > 0,
        usages.len() >= following_turns,
    ensures
        report::report_of(event, usages + later, following_turns, evidence) == report::report_of(
            event,
            usages,
            following_turns,
            evidence,
        ),
{
    let n = following_turns as nat;
    lemma_same_follow_up(usages, usages + later, event.tokens_freed, n);
    assert((usages + later)[0] == usages[0]);
}

proof fn lemma_same_follow_up(
    usages: Seq<TokenUsage>,
    others: Seq<TokenUsage>,
    tokens_freed: i64,
    n: nat,
)
    requires
        n <= usages.len(),
        n <= others.len(),
        forall|i: int| 0 <= i < n ==> #[trigger] usages[i] == others[i],
    ensures
        report::follow_up(usages, tokens_freed, n) == report::follow_up(others, tokens_freed, n),
    decreases n,
{
    if n > 0 {
        lemma_same_follow_up(usages, others, tokens_freed, (n - 1) as nat);
        assert(usages[n - 1] == others[n - 1]);
    }
}

/// As long as fewer prompts were seen than are looked at, each one counts: its
/// cached input, all its tokens, and what it saved, which is what the shake freed
/// but no more than the prompt held.
pub proof fn law_each_prompt_counts(
    event: ShakeEventView,
    usages: Seq<TokenUsage>,
    usage: TokenUsage,
    following_turns: usize,
    evidence: CacheEvidenceView,
)
    requires
        usages.len() < following_turns,
    ensures
        ({
            let before = report::report_of(event, usages, following_turns, evidence);
            let after = report::report_of(event, usages.push(usage), following_turns, evidence);
            let held = if usage.input_tokens < 0 {
                0
            } else {
                usage.input_tokens as int
            };
            let saved = if held < event.tokens_freed {
                held
            } else {
                event.tokens_freed as int
            };
            &&& after.following_prompts_observed == before.following_prompts_observed + 1
            &&& holds_sum(
                after.cache_read_tokens,
                before.cache_read_tokens + usage.cached_input_tokens,
            )
            &&& holds_sum(after.quota_usage_tokens, before.quota_usage_tokens + usage.total_tokens)
            &&& holds_sum(after.likely_saved_tokens, before.likely_saved_tokens + saved)
        }),
{
    let n = usages.len();
    lemma_same_follow_up(usages, usages.push(usage), event.tokens_freed, n);
    lemma_prompts(usages, event.tokens_freed, n);
}

/// A shake that no prompt followed, or of which none is looked at, saved nothing
/// that was seen.
pub proof fn law_unseen_prompts_save_nothing(
    event: ShakeEventView,
    usages: Seq<TokenUsage>,
    following_turns: usize,
    evidence: CacheEvidenceView,
)
    requires
        usages.len() == 0 || following_turns == 0,
    ensures
        ({
            let shake = report::report_of(event, usages, following_turns, evidence);
            &&& shake.following_prompts_observed == 0
            &&& shake.cache_read_tokens == 0
            &&& shake.quota_usage_tokens == 0
            &&& shake.likely_saved_tokens == 0
            &&& usages.len() == 0 ==> shake.cache_rewrite_burn_tokens is None
                && shake.raw_net_estimated_tokens == 0 && shake.net_estimated_tokens == 0
        }),
{
}

/// What a shake cost is read off the very next prompt: what it says it wrote to
/// the cache, else what of it was not cached, else the part of its input that was
/// not.
pub proof fn law_the_next_prompt_tells_the_cost(
    event: ShakeEventView,
    usages: Seq<TokenUsage>,
    following_turns: usize,
    evidence: CacheEvidenceView,
)
    requires
        usages.len() > 0,
    ensures
        ({
            let shake = report::report_of(event, usages, following_turns, evidence);
            let next = usages[0];
            let uncached = next.input_tokens - next.cached_input_tokens;
            &&& shake.cache_rewrite_burn_tokens matches Some(cost) && {
                &&& cost >= 0
                &&& next.cache_write_input_tokens > 0 ==> cost == next.cache_write_input_tokens
                &&& next.cache_write_input_tokens <= 0 && next.non_cached_input_tokens > 0 ==> cost
                    == next.non_cached_input_tokens
                &&& next.cache_write_input_tokens <= 0 && next.non_cached_input_tokens <= 0
                    ==> holds_sum(
                    cost,
                    if uncached < 0 {
                        0
                    } else {
                        uncached
                    },
                )
                &&& holds_sum(shake.raw_net_estimated_tokens, shake.likely_saved_tokens - cost)
            }
        }),
{
}

/// A report on a shake says what the log says of it: whose it was, when, why,
/// and what is known of the cache.
pub proof fn law_reports_repeat_the_log(
    event: ShakeEventView,
    usages: Seq<TokenUsage>,
    following_turns: usize,
    evidence: CacheEvidenceView,
)
    ensures
        ({
            let shake = report::report_of(event, usages, following_turns, evidence);
            &&& shake.thread_id == event.thread_id
            &&& shake.turn_id == event.turn_id
            &&& shake.model == event.model
            &&& shake.provider_id == event.cache_metadata.provider_id
            &&& shake.trigger == event.trigger
            &&& shake.tokens_freed == event.tokens_freed
            &&& shake.timestamp == report::timestamp_text(event.ts as int, event.ts_nanos as int)
            &&& shake.cache_state == evidence.state
            &&& shake.measured_idle_nanos == evidence.measured_idle_nanos
            &&& shake.cache_ttl_secs == evidence.ttl_secs
            &&& shake.cache_ttl_source == evidence.ttl_source
            &&& shake.unknown_reason == evidence.unknown_reason
            &&& shake.previous_sampling_timestamp is Some == evidence.previous_sampling is Some
            &&& evidence.previous_sampling matches Some(time)
                ==> shake.previous_sampling_timestamp == Some(
                report::timestamp_text(time.ts as int, time.ts_nanos as int),
            )
        }),
{
}

/// The sums of a report are the sums over its shakes, of all of them and of each
/// model. This takes a sum that fits its count all the way; one that does not
/// stays at the limit.
pub proof fn law_totals_are_sums(
    rows: Seq<LogRowView>,
    shakes: Seq<ShakeReportView>,
    only: Option<Seq<char>>,
    sum: TokenSum,
)
    requires
        always_fits(shakes, sum),
    ensures
        stated_tokens(report::totals_of(rows, shakes, only, shakes.len() as int), sum)
            == true_sum(shakes, only, sum, shakes.len() as int),
{
    lemma_stated_sum(rows, shakes, only, sum, shakes.len() as int);
}

/// The model that a row names, and that usage is counted for.
pub open spec fn names_model(row: LogRowView, name: Seq<char>) -> bool {
    match events::field_of(row, "model"@) {
        Some(model) => model == name,
        None => name == "unknown"@,
    }
}

/// Usage is counted row by row, for its own model and for all: a further row
/// adds its cached input and all its tokens, or nothing at all.
pub proof fn law_usage_is_summed_by_row(
    rows: Seq<LogRowView>,
    row: LogRowView,
    only: Option<Seq<char>>,
)
    ensures
        ({
            let before = report::usage_totals(rows, only, rows.len() as int);
            let after = report::usage_totals(rows.push(row), only, rows.len() as int + 1);
            let wanted = only matches Some(name) ==> names_model(row, name);
            match events::usage_of(row) {
                Some(usage) if wanted => {
                    &&& holds_sum(
                        after.cache_read_tokens,
                        before.cache_read_tokens + usage.cached_input_tokens,
                    )
                    &&& holds_sum(
                        after.quota_usage_tokens,
                        before.quota_usage_tokens + usage.total_tokens,
                    )
                },
                _ => after.cache_read_tokens == before.cache_read_tokens
                    && after.quota_usage_tokens == before.quota_usage_tokens,
            }
        }),
{
    lemma_same_usage_totals(rows, row, only, rows.len() as int);
}

proof fn lemma_same_usage_totals(
    rows: Seq<LogRowView>,
    row: LogRowView,
    only: Option<Seq<char>>,
    n: int,
)
    requires
        0 <= n <= rows.len(),
    ensures
        report::usage_totals(rows.push(row), only, n) == report::usage_totals(rows, only, n),
    decreases n,
{
    if n > 0 {
        lemma_same_usage_totals(rows, row, only, n - 1);
        assert(rows.push(row)[n - 1] == rows[n - 1]);
    }
}

/// Shakes are counted one by one, for their own model and for all: a further
/// shake counts its prompts, its cost where there was a next prompt, and the
/// state that the cache was found in.
pub proof fn law_shakes_are_summed_one_by_one(
    rows: Seq<LogRowView>,
    shakes: Seq<ShakeReportView>,
    shake: ShakeReportView,
    only: Option<Seq<char>>,
)
    ensures
        ({
            let n = shakes.len() as int;
            let before = report::totals_of(rows, shakes, only, n);
            let after = report::totals_of(rows, shakes.push(shake), only, n + 1);
            let wanted = only matches Some(name) ==> shake.model == name;
            &&& !wanted ==> after == before
            &&& wanted && before.shakes < usize::MAX ==> after.shakes == before.shakes + 1
            &&& wanted && before.following_prompts_observed + shake.following_prompts_observed
                <= usize::MAX ==> after.following_prompts_observed
                == before.following_prompts_observed + shake.following_prompts_observed
            &&& wanted && before.cache_rewrite_requests < usize::MAX ==> after.cache_rewrite_requests
                == before.cache_rewrite_requests + (if shake.cache_rewrite_burn_tokens is Some {
                1int
            } else {
                0
            })
            &&& wanted ==> holds_sum(after.tokens_freed, before.tokens_freed + shake.tokens_freed)
            &&& wanted ==> holds_sum(
                after.likely_saved_tokens,
                before.likely_saved_tokens + shake.likely_saved_tokens,
            )
            &&& wanted ==> holds_sum(
                after.net_estimated_tokens,
                before.net_estimated_tokens + shake.net_estimated_tokens,
            )
            &&& wanted && shake.cache_rewrite_burn_tokens is None
                ==> after.cache_rewrite_burn_tokens == before.cache_rewrite_burn_tokens
            &&& wanted && shake.cache_rewrite_burn_tokens is Some ==> holds_sum(
                after.cache_rewrite_burn_tokens,
                before.cache_rewrite_burn_tokens + shake.cache_rewrite_burn_tokens->0,
            )
            &&& after.cache_read_tokens == before.cache_read_tokens
            &&& after.quota_usage_tokens == before.quota_usage_tokens
        }),
{
    lemma_same_totals(rows, shakes, shake, only, shakes.len() as int);
}

proof fn lemma_same_totals(
    rows: Seq<LogRowView>,
    shakes: Seq<ShakeReportView>,
    shake: ShakeReportView,
    only: Option<Seq<char>>,
    n: int,
)
    requires
        0 <= n <= shakes.len(),
    ensures
        report::totals_of(rows, shakes.push(shake), only, n) == report::totals_of(
            rows,
            shakes,
            only,
            n,
        ),
    decreases n,
{
    if n > 0 {
        lemma_same_totals(rows, shakes, shake, only, n - 1);
        assert(shakes.push(shake)[n - 1] == shakes[n - 1]);
    }
}

/// A number with zeros in front keeps its digits, fills its width, and has
/// nothing but zeros between its sign and its digits.
pub proof fn law_padded_numbers_fill_their_width(n: nat, width: nat)
    ensures
        ({
            let padded = report::zero_padded(n as int, width as int);
            let digits = text::decimal(n);
            &&& padded.len() == (if digits.len() < width {
                width
            } else {
                digits.len()
            })
            &&& padded.skip(padded.len() - digits.len()) == digits
            &&& forall|i: int|
                0 <= i < padded.len() - digits.len() ==> #[trigger] padded[i] == '0'
        }),
{
    reveal_strlit("");
    let digits = text::decimal(n);
    lemma_zeros(width - digits.len());
    let padded = report::zero_padded(n as int, width as int);
    let front = report::zeros(width - digits.len());
    assert(padded =~= front + digits);
    assert(padded.skip(padded.len() - digits.len()) =~= digits);
}

proof fn lemma_zeros(n: int)
    ensures
        report::zeros(n).len() == (if n < 0 {
            0
        } else {
            n
        }),
        forall|i: int| 0 <= i < n ==> #[trigger] report::zeros(n)[i] == '0',
    decreases n,
{
    if n > 0 {
        lemma_zeros(n - 1);
    }
}

/// A moment that cannot be written as a date is written as its seconds and its
/// nanoseconds, of which there are always nine digits.
pub proof fn law_odd_moments_are_written_as_numbers(ts: int, ts_nanos: nat)
    requires
        ts_nanos < 1_000_000_000,
        report::rfc3339_text(ts, ts_nanos as int) is None,
    ensures
        report::timestamp_text(ts, ts_nanos as int) == text::signed_decimal(ts) + seq!['.']
            + report::zero_padded(ts_nanos as int, 9) + seq!['Z'],
{
    reveal_strlit(".");
    reveal_strlit("Z");
    assert("."@ =~= seq!['.']);
    assert("Z"@ =~= seq!['Z']);
}

} // verus!
