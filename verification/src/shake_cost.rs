//! What a shake may cost or save, next to what a provider charges for input.
//!
//! Costs are relative to the model's standard input rate: what is read from the
//! cache costs a tenth of it, and what is written to it costs a quarter more
//! where the API charges. Above a threshold the whole input may be charged at a
//! multiple.

use vstd::prelude::*;
use vstd::string::*;

use crate::text;

verus! {

/// The tokens above which input is charged at a multiple.
pub const LONG_CONTEXT_THRESHOLD: i64 = 272_000;

/// Who charges for input.
#[derive(Clone, Copy, Debug, PartialEq, Eq, Structural)]
pub enum Billing {
    Codex,
    Api,
    Unknown,
}

/// How a model's input is charged.
#[derive(Clone, Copy, Debug, PartialEq, Eq, Structural)]
pub struct Pricing {
    pub billing: Billing,
    /// What input above the threshold is multiplied by.
    pub long_context_multiplier: u32,
}

/// A model that is charged at a multiple above the threshold.
pub open spec fn is_priced(model: Seq<char>) -> bool {
    model == "gpt-6-astra"@ || model == "gpt-5.6-sol"@ || model == "gpt-5.6-terra"@ || model
        == "gpt-5.6-luna"@
}

/// How a model's input is charged, where that is known.
pub open spec fn pricing_of(model: Seq<char>, billing: Billing) -> Option<Pricing> {
    if model == "gpt-6-astra"@ && billing is Codex {
        Some(Pricing { billing, long_context_multiplier: 1 })
    } else if is_priced(model) && !(billing is Unknown) {
        Some(Pricing { billing, long_context_multiplier: 2 })
    } else {
        None
    }
}

/// The tokens that are charged for a number of tokens, at the standard rate.
pub open spec fn charged(pricing: Pricing, tokens: int) -> int {
    if tokens > LONG_CONTEXT_THRESHOLD {
        tokens * pricing.long_context_multiplier
    } else {
        tokens
    }
}

/// How far a number of tokens is from the threshold.
pub open spec fn margin(after: int) -> int {
    if after <= LONG_CONTEXT_THRESHOLD {
        LONG_CONTEXT_THRESHOLD - after
    } else {
        after - LONG_CONTEXT_THRESHOLD
    }
}

/// What a shake means for the threshold.
pub open spec fn threshold_text(
    pricing: Pricing,
    before: int,
    after: int,
    margin_tokens: Seq<char>,
) -> Seq<char> {
    if pricing.long_context_multiplier == 1 {
        "Astra has no >272k surcharge."@
    } else if before > LONG_CONTEXT_THRESHOLD && after <= LONG_CONTEXT_THRESHOLD {
        "May leave >272k tier (2x input, 1.5x output); ~"@ + margin_tokens + " tokens margin."@
    } else if after > LONG_CONTEXT_THRESHOLD {
        "Still above 272k; needs ~"@ + margin_tokens
            + " more tokens removed to leave 2x input / 1.5x output tier."@
    } else {
        "Below 272k in this estimate; ~"@ + margin_tokens
            + " tokens margin before 2x input / 1.5x output tier."@
    }
}

/// What a token that is written to the cache costs, in twentieths of the
/// standard rate.
pub open spec fn write_rate(billing: Billing) -> int {
    if billing is Api {
        25
    } else {
        20
    }
}

/// What a token that is read from the cache costs, in twentieths of the standard
/// rate.
pub const READ_RATE: i128 = 2;

/// What `requests` equal requests cost that all read from the cache, in
/// twentieths of the standard rate.
pub open spec fn cost_without_shake(pricing: Pricing, before: int, requests: int) -> int {
    requests * (READ_RATE * charged(pricing, before))
}

/// What they cost after a shake: the first writes all of the cache, and the
/// others read from it.
pub open spec fn cost_with_shake(pricing: Pricing, after: int, requests: int) -> int {
    write_rate(pricing.billing) * charged(pricing, after) + (requests - 1) * (READ_RATE * charged(
        pricing,
        after,
    ))
}

/// A shake has paid for itself after so many requests.
pub open spec fn pays_back(pricing: Pricing, before: int, after: int, requests: int) -> bool {
    cost_with_shake(pricing, after, requests) <= cost_without_shake(pricing, before, requests)
}

/// The first request by which a shake has paid for itself, as far as a `u64`
/// counts.
pub open spec fn is_break_even(pricing: Pricing, before: int, after: int, requests: u64) -> bool {
    &&& 1 <= requests
    &&& pays_back(pricing, before, after, requests as int) || requests == u64::MAX
    &&& requests > 1 ==> !pays_back(pricing, before, after, requests - 1)
}

/// A percentage, kept as a fraction.
#[derive(Clone, Copy, Debug, PartialEq, Eq, Structural)]
pub struct Percent {
    pub numerator: i128,
    pub denominator: i128,
}

/// By how much the first request is cheaper after a cold cache.
pub open spec fn cold_saving(pricing: Pricing, before: int, after: int) -> (int, int) {
    let b = charged(pricing, before);
    if b > 0 {
        (100 * (b - charged(pricing, after)), b)
    } else {
        (0, 1)
    }
}

/// By how much the first request differs after a warm cache that the shake makes
/// useless.
pub open spec fn warm_change(pricing: Pricing, before: int, after: int) -> (int, int) {
    let b = READ_RATE * charged(pricing, before);
    if b > 0 {
        (100 * (write_rate(pricing.billing) * charged(pricing, after) - b), b)
    } else {
        (0, 1)
    }
}

/// What two scenarios come to: a cold cache, and a warm one that the shake makes
/// useless.
#[derive(Clone, Copy, Debug, PartialEq, Eq, Structural)]
pub struct CostScenarios {
    /// What the next request saves after a cold cache.
    pub cold_saving_percent: Percent,
    /// What the next request costs more after a warm cache.
    pub warm_next_change_percent: Percent,
    /// The request by which the shake has paid for itself, if any.
    pub warm_break_even_requests: Option<u64>,
}

/// The numbers of a description as texts.
#[derive(Debug, PartialEq, Eq)]
pub struct CostTexts {
    /// How far the shaken context is from the threshold.
    pub margin_tokens: String,
    /// What the next request saves after a cold cache.
    pub cold_percent: String,
    /// What the next request differs by after a warm cache.
    pub warm_percent: String,
}

/// By which request a shake has paid for itself.
pub open spec fn payback_text(requests: Option<u64>) -> Seq<char> {
    match requests {
        Some(1) => "break-even on request 1"@,
        Some(n) => "break-even by request ~"@ + text::decimal(n as nat),
        None => "no payback at unchanged sizes"@,
    }
}

/// The name of who charges.
pub open spec fn billing_name(billing: Billing) -> Seq<char> {
    match billing {
        Billing::Codex => "Codex"@,
        Billing::Api => "API (1.25x cache writes)"@,
        Billing::Unknown => "Unknown"@,
    }
}

/// What a shake may cost or save.
pub open spec fn description_text(
    pricing: Pricing,
    before: int,
    after: int,
    costs: CostScenarios,
    texts: CostTexts,
) -> Seq<char> {
    billing_name(pricing.billing) + ": "@ + threshold_text(
        pricing,
        before,
        after,
        texts.margin_tokens@,
    ) + "\nCold cache: next input ~"@ + texts.cold_percent@
        + "% cheaper.\nWarm cache, full invalidation: next input ~"@ + texts.warm_percent@ + "% "@
        + (if costs.warm_next_change_percent.numerator > 0 {
        "more"@
    } else {
        "less"@
    }) + "; "@ + payback_text(costs.warm_break_even_requests)
        + ".\nAssumes standard rates, fixed sizes and subsequent cache hits."@
}

/// What the scenarios of a shake are.
pub open spec fn are_scenarios(
    costs: CostScenarios,
    pricing: Pricing,
    before: int,
    after: int,
) -> bool {
    &&& (costs.cold_saving_percent.numerator as int, costs.cold_saving_percent.denominator as int)
        == cold_saving(pricing, before, after)
    &&& (
    costs.warm_next_change_percent.numerator as int,
    costs.warm_next_change_percent.denominator as int,
    ) == warm_change(pricing, before, after)
    &&& match costs.warm_break_even_requests {
        Some(requests) => charged(pricing, after) < charged(pricing, before) && is_break_even(
            pricing,
            before,
            after,
            requests,
        ),
        None => charged(pricing, after) >= charged(pricing, before),
    }
}

/// What the first request costs more after a shake than one that reads from the
/// cache.
spec fn extra_cost(pricing: Pricing, after: int) -> int {
    if pricing.billing is Api {
        23 * charged(pricing, after)
    } else {
        18 * charged(pricing, after)
    }
}

/// What each request saves after a shake.
spec fn saved_cost(pricing: Pricing, before: int, after: int) -> int {
    2 * (charged(pricing, before) - charged(pricing, after))
}

/// A shake has paid for itself when what was saved makes up for the write.
proof fn lemma_pays_back(pricing: Pricing, before: int, after: int, requests: int)
    ensures
        pays_back(pricing, before, after, requests) <==> extra_cost(pricing, after) <= requests
            * saved_cost(pricing, before, after),
{
    let a = charged(pricing, after);
    let b = charged(pricing, before);
    let w = write_rate(pricing.billing);
    assert(requests * (2 * b) - (w * a + (requests - 1) * (2 * a)) == requests * (2 * (b - a)) - (w
        - 2) * a) by (nonlinear_arith);
    assert(extra_cost(pricing, after) == (w - 2) * a);
    assert(READ_RATE * b == 2 * b && READ_RATE * a == 2 * a);
}

impl Pricing {
    /// How a model's input is charged, where that is known.
    pub fn for_model(model: &str, billing: Billing) -> (pricing: Option<Pricing>)
        ensures
            pricing == pricing_of(model@, billing),
    {
        let astra = text::same_text(model, "gpt-6-astra");
        let priced = astra || text::same_text(model, "gpt-5.6-sol") || text::same_text(
            model,
            "gpt-5.6-terra",
        ) || text::same_text(model, "gpt-5.6-luna");
        match billing {
            Billing::Unknown => None,
            Billing::Codex => if astra {
                Some(Pricing { billing, long_context_multiplier: 1 })
            } else if priced {
                Some(Pricing { billing, long_context_multiplier: 2 })
            } else {
                None
            },
            Billing::Api => if priced {
                Some(Pricing { billing, long_context_multiplier: 2 })
            } else {
                None
            },
        }
    }

    /// The tokens that are charged for a number of tokens, at the standard rate.
    pub fn charged_tokens(&self, tokens: i64) -> (r: i128)
        ensures
            r == charged(*self, tokens as int),
            i64::MIN <= r <= i64::MAX * u32::MAX,
    {
        if tokens > LONG_CONTEXT_THRESHOLD {
            let multiplier = self.long_context_multiplier as i128;
            let tokens = tokens as i128;
            assert(0 <= tokens * multiplier <= i64::MAX * u32::MAX) by (nonlinear_arith)
                requires
                    0 <= tokens <= i64::MAX,
                    0 <= multiplier <= u32::MAX,
            ;
            tokens * multiplier
        } else {
            tokens as i128
        }
    }

    /// How far a number of tokens is from the threshold.
    pub fn margin_tokens(&self, after: i64) -> (r: u64)
        ensures
            r == margin(after as int),
    {
        if after <= LONG_CONTEXT_THRESHOLD {
            (LONG_CONTEXT_THRESHOLD as i128 - after as i128) as u64
        } else {
            (after - LONG_CONTEXT_THRESHOLD) as u64
        }
    }

    fn threshold_sentence(&self, before: i64, after: i64, margin_tokens: &str) -> (r: String)
        ensures
            r@ == threshold_text(*self, before as int, after as int, margin_tokens@),
    {
        if self.long_context_multiplier == 1 {
            "Astra has no >272k surcharge.".to_owned()
        } else if before > LONG_CONTEXT_THRESHOLD && after <= LONG_CONTEXT_THRESHOLD {
            let mut r = "May leave >272k tier (2x input, 1.5x output); ~".to_owned();
            r.append(margin_tokens);
            r.append(" tokens margin.");
            r
        } else if after > LONG_CONTEXT_THRESHOLD {
            let mut r = "Still above 272k; needs ~".to_owned();
            r.append(margin_tokens);
            r.append(" more tokens removed to leave 2x input / 1.5x output tier.");
            r
        } else {
            let mut r = "Below 272k in this estimate; ~".to_owned();
            r.append(margin_tokens);
            r.append(" tokens margin before 2x input / 1.5x output tier.");
            r
        }
    }

    /// The first request by which a shake has paid for itself.
    fn break_even_requests(&self, before: i64, after: i64) -> (requests: Option<u64>)
        ensures
            match requests {
                Some(n) => charged(*self, after as int) < charged(*self, before as int)
                    && is_break_even(*self, before as int, after as int, n),
                None => charged(*self, after as int) >= charged(*self, before as int),
            },
    {
        let b = self.charged_tokens(before);
        let a = self.charged_tokens(after);
        if b <= a {
            return None;
        }
        proof {
            lemma_pays_back(*self, before as int, after as int, 1);
        }
        if a <= 0 {
            return Some(1);
        }
        let extra = match self.billing {
            Billing::Api => 23 * a,
            _ => 18 * a,
        } as u128;
        let saved = (READ_RATE * (b - a)) as u128;
        let whole = extra / saved;
        let requests = if extra % saved == 0 {
            whole
        } else {
            whole + 1
        };
        proof {
            assert(extra == whole * saved + extra % saved && extra % saved < saved) by (
            nonlinear_arith)
                requires
                    saved > 0,
                    whole == extra / saved,
            ;
            assert(requests >= 1) by (nonlinear_arith)
                requires
                    extra > 0,
                    extra == whole * saved + extra % saved,
                    requests == (if extra % saved == 0 { whole as int } else { whole + 1 }),
            ;
            assert(extra <= requests * saved && (requests - 1) * saved < extra) by (nonlinear_arith)
                requires
                    saved > 0,
                    extra > 0,
                    extra == whole * saved + extra % saved,
                    extra % saved < saved,
                    requests == (if extra % saved == 0 { whole as int } else { whole + 1 }),
            ;
            lemma_pays_back(*self, before as int, after as int, requests as int);
            lemma_pays_back(*self, before as int, after as int, requests - 1);
            lemma_pays_back(*self, before as int, after as int, u64::MAX - 1);
        }
        if requests > u64::MAX as u128 {
            proof {
                assert((u64::MAX - 1) * saved <= (requests - 1) * saved) by (nonlinear_arith)
                    requires
                        u64::MAX < requests,
                        saved > 0,
                ;
            }
            Some(u64::MAX)
        } else {
            Some(requests as u64)
        }
    }

    /// What a shake means for the next request after a cold cache, and after a
    /// warm one. Contexts are taken to keep their sizes.
    pub fn scenarios(&self, before: i64, after: i64) -> (costs: CostScenarios)
        ensures
            are_scenarios(costs, *self, before as int, after as int),
    {
        let b = self.charged_tokens(before);
        let a = self.charged_tokens(after);
        let written = match self.billing {
            Billing::Api => 25 * a,
            _ => 20 * a,
        };
        let (cold, warm) = if b > 0 {
            (
                Percent { numerator: 100 * (b - a), denominator: b },
                Percent {
                    numerator: 100 * (written - READ_RATE * b),
                    denominator: READ_RATE * b,
                },
            )
        } else {
            (
                Percent { numerator: 0, denominator: 1 },
                Percent { numerator: 0, denominator: 1 },
            )
        };
        CostScenarios {
            cold_saving_percent: cold,
            warm_next_change_percent: warm,
            warm_break_even_requests: self.break_even_requests(before, after),
        }
    }

    /// What a shake may cost or save. The caller formats the numbers.
    pub fn description(&self, before: i64, after: i64, texts: &CostTexts) -> (r: String)
        ensures
            exists|costs: CostScenarios|
                #![trigger are_scenarios(costs, *self, before as int, after as int)]
                are_scenarios(costs, *self, before as int, after as int) && r@ == description_text(
                    *self,
                    before as int,
                    after as int,
                    costs,
                    *texts,
                ),
    {
        let costs = self.scenarios(before, after);
        let payback = match costs.warm_break_even_requests {
            Some(n) => if n == 1 {
                "break-even on request 1".to_owned()
            } else {
                let mut r = "break-even by request ~".to_owned();
                r.append(text::decimal_text(n).as_str());
                r
            },
            None => "no payback at unchanged sizes".to_owned(),
        };
        let mut r = match self.billing {
            Billing::Codex => "Codex".to_owned(),
            Billing::Api => "API (1.25x cache writes)".to_owned(),
            Billing::Unknown => "Unknown".to_owned(),
        };
        let direction = if costs.warm_next_change_percent.numerator > 0 {
            "more"
        } else {
            "less"
        };
        r.append(": ");
        r.append(self.threshold_sentence(before, after, texts.margin_tokens.as_str()).as_str());
        r.append("\nCold cache: next input ~");
        r.append(texts.cold_percent.as_str());
        r.append("% cheaper.\nWarm cache, full invalidation: next input ~");
        r.append(texts.warm_percent.as_str());
        r.append("% ");
        r.append(direction);
        r.append("; ");
        r.append(payback.as_str());
        r.append(".\nAssumes standard rates, fixed sizes and subsequent cache hits.");
        proof {
            assert(are_scenarios(costs, *self, before as int, after as int));
        }
        r
    }
}

/// What is charged grows with the tokens: a shake never makes the same input
/// dearer.
pub proof fn law_fewer_tokens_cost_no_more(
    model: Seq<char>,
    billing: Billing,
    before: int,
    after: int,
)
    requires
        pricing_of(model, billing) is Some,
        after <= before,
    ensures
        charged(pricing_of(model, billing)->0, after) <= charged(
            pricing_of(model, billing)->0,
            before,
        ),
{
    let m = pricing_of(model, billing)->0.long_context_multiplier as int;
    assert(after * m <= before * m && (before >= 0 ==> before <= before * m)) by (nonlinear_arith)
        requires
            after <= before,
            m >= 1,
    ;
}

/// The scenarios of a shake are one: nothing else meets their description.
pub proof fn law_scenarios_are_determined(
    pricing: Pricing,
    before: int,
    after: int,
    one: CostScenarios,
    other: CostScenarios,
)
    requires
        are_scenarios(one, pricing, before, after),
        are_scenarios(other, pricing, before, after),
    ensures
        one == other,
{
    if charged(pricing, after) < charged(pricing, before) {
        let a = one.warm_break_even_requests->0;
        let b = other.warm_break_even_requests->0;
        if a < b {
            law_paid_back_stays_paid_back(pricing, before, after, a as int, b - 1);
        } else if b < a {
            law_paid_back_stays_paid_back(pricing, before, after, b as int, a - 1);
        }
    }
}

/// A shake that has paid for itself stays paid for, however many requests follow.
pub proof fn law_paid_back_stays_paid_back(
    pricing: Pricing,
    before: int,
    after: int,
    requests: int,
    more: int,
)
    requires
        charged(pricing, after) < charged(pricing, before),
        pays_back(pricing, before, after, requests),
        requests <= more,
    ensures
        pays_back(pricing, before, after, more),
{
    lemma_pays_back(pricing, before, after, requests);
    lemma_pays_back(pricing, before, after, more);
    let saved = saved_cost(pricing, before, after);
    assert(requests * saved <= more * saved) by (nonlinear_arith)
        requires
            requests <= more,
            saved > 0,
    ;
}

/// What input costs: each token one up to the threshold, and above it all of them
/// the multiple.
pub proof fn law_long_contexts_cost_a_multiple(pricing: Pricing, tokens: int)
    ensures
        tokens <= 272_000 ==> charged(pricing, tokens) == tokens,
        tokens > 272_000 ==> charged(pricing, tokens) == pricing.long_context_multiplier * tokens,
{
    assert(pricing.long_context_multiplier * tokens == tokens * pricing.long_context_multiplier)
        by (nonlinear_arith);
}

/// Which models' costs are known: four, and only where it is known who charges.
/// All of them cost twice as much above the threshold, except Astra with Codex.
pub proof fn law_known_prices(model: Seq<char>)
    ensures
        pricing_of(model, Billing::Unknown) is None,
        pricing_of("gpt-6-astra"@, Billing::Codex) == Some(
            Pricing { billing: Billing::Codex, long_context_multiplier: 1 },
        ),
        pricing_of("gpt-6-astra"@, Billing::Api) == Some(
            Pricing { billing: Billing::Api, long_context_multiplier: 2 },
        ),
        model == "gpt-5.6-sol"@ || model == "gpt-5.6-terra"@ || model == "gpt-5.6-luna"@ ==> {
            &&& pricing_of(model, Billing::Codex) == Some(
                Pricing { billing: Billing::Codex, long_context_multiplier: 2 },
            )
            &&& pricing_of(model, Billing::Api) == Some(
                Pricing { billing: Billing::Api, long_context_multiplier: 2 },
            )
        },
        model != "gpt-6-astra"@ && model != "gpt-5.6-sol"@ && model != "gpt-5.6-terra"@ && model
            != "gpt-5.6-luna"@ ==> pricing_of(model, Billing::Codex) is None && pricing_of(
            model,
            Billing::Api,
        ) is None,
{
    reveal_strlit("gpt-6-astra");
    reveal_strlit("gpt-5.6-sol");
    reveal_strlit("gpt-5.6-terra");
    reveal_strlit("gpt-5.6-luna");
    assert("gpt-6-astra"@[4] == '6');
    assert("gpt-5.6-sol"@[4] == '5');
    assert("gpt-5.6-terra"@[4] == '5');
    assert("gpt-5.6-luna"@[4] == '5');
}

/// The distance to the threshold, from either side.
pub proof fn law_margins_lead_to_the_threshold(after: int)
    ensures
        margin(after) >= 0,
        after <= 272_000 ==> after + margin(after) == 272_000,
        after > 272_000 ==> after - margin(after) == 272_000,
{
}

/// What requests cost, in twentieths of the standard rate. Read from the cache, a
/// token costs a tenth: each request more costs two twentieths of its size.
/// The first request after a shake writes all of it, at the standard rate with
/// Codex and at a quarter more with the API.
pub proof fn law_costs_of_requests(pricing: Pricing, tokens: int, requests: int)
    requires
        requests >= 1,
    ensures
        cost_without_shake(pricing, tokens, 0) == 0,
        cost_without_shake(pricing, tokens, requests) == cost_without_shake(
            pricing,
            tokens,
            requests - 1,
        ) + 2 * charged(pricing, tokens),
        pricing.billing is Api ==> cost_with_shake(pricing, tokens, 1) == 25 * charged(
            pricing,
            tokens,
        ),
        !(pricing.billing is Api) ==> cost_with_shake(pricing, tokens, 1) == 20 * charged(
            pricing,
            tokens,
        ),
        requests >= 2 ==> cost_with_shake(pricing, tokens, requests) == cost_with_shake(
            pricing,
            tokens,
            requests - 1,
        ) + 2 * charged(pricing, tokens),
{
    let c = charged(pricing, tokens);
    assert(READ_RATE * c == 2 * c);
    assert(0 * (2 * c) == 0);
    assert(requests * (2 * c) == (requests - 1) * (2 * c) + 2 * c) by (nonlinear_arith);
    assert((requests - 1) * (2 * c) == (requests - 2) * (2 * c) + 2 * c) by (nonlinear_arith);
}

/// What the scenarios say: by how many percent the next request is cheaper after
/// a cold cache, and by how many it is dearer after a warm one, next to what it
/// would have cost without the shake.
pub proof fn law_scenarios_compare_the_next_request(
    pricing: Pricing,
    before: int,
    after: int,
    costs: CostScenarios,
)
    requires
        are_scenarios(costs, pricing, before, after),
        charged(pricing, before) > 0,
    ensures
        costs.cold_saving_percent.denominator == charged(pricing, before),
        costs.cold_saving_percent.numerator == 100 * (charged(pricing, before) - charged(
            pricing,
            after,
        )),
        costs.warm_next_change_percent.denominator == cost_without_shake(pricing, before, 1),
        costs.warm_next_change_percent.numerator == 100 * (cost_with_shake(pricing, after, 1)
            - cost_without_shake(pricing, before, 1)),
{
    law_costs_of_requests(pricing, before, 1);
    law_costs_of_requests(pricing, after, 1);
}

/// A shake pays for itself just where it makes the input cheaper; by the request
/// that is told it has, and by the one before it had not, as far as requests can
/// be counted.
pub proof fn law_break_even_is_the_first_request_that_pays(
    pricing: Pricing,
    before: int,
    after: int,
    costs: CostScenarios,
)
    requires
        are_scenarios(costs, pricing, before, after),
    ensures
        costs.warm_break_even_requests is Some == (charged(pricing, after) < charged(
            pricing,
            before,
        )),
        costs.warm_break_even_requests matches Some(n) ==> {
            &&& n >= 1
            &&& n < u64::MAX ==> cost_with_shake(pricing, after, n as int) <= cost_without_shake(
                pricing,
                before,
                n as int,
            )
            &&& n > 1 ==> cost_with_shake(pricing, after, n - 1) > cost_without_shake(
                pricing,
                before,
                n - 1,
            )
        },
{
}

/// What is said of the threshold: that there is none to speak of, that the shake
/// may lead below it, that it does not, or that the context was below before.
pub proof fn law_sentences_on_the_threshold(
    pricing: Pricing,
    before: int,
    after: int,
    margin_tokens: Seq<char>,
)
    ensures
        ({
            let sentence = threshold_text(pricing, before, after, margin_tokens);
            &&& pricing.long_context_multiplier == 1 ==> sentence == "Astra has no >272k surcharge."@
            &&& pricing.long_context_multiplier != 1 && before > 272_000 && after <= 272_000
                ==> sentence == "May leave >272k tier (2x input, 1.5x output); ~"@ + margin_tokens
                + " tokens margin."@
            &&& pricing.long_context_multiplier != 1 && after > 272_000 ==> sentence
                == "Still above 272k; needs ~"@ + margin_tokens
                + " more tokens removed to leave 2x input / 1.5x output tier."@
            &&& pricing.long_context_multiplier != 1 && before <= 272_000 && after <= 272_000
                ==> sentence == "Below 272k in this estimate; ~"@ + margin_tokens
                + " tokens margin before 2x input / 1.5x output tier."@
        }),
{
}

} // verus!
