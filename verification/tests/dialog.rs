use context_shake::read_artifact::bad_arguments_message;
use context_shake::read_artifact::create_read_artifact_tool;
use context_shake::read_artifact::page_output;
use context_shake::shake::preview::ShakePreview;
use context_shake::shake::ShakeMode;
use context_shake::shake_cost::Billing;
use context_shake::shake_cost::CostScenarios;
use context_shake::shake_cost::CostTexts;
use context_shake::shake_cost::Percent;
use context_shake::shake_cost::Pricing;
use context_shake::shake_preview::decide_preview;
use context_shake::shake_preview::PreviewDecision;
use context_shake::shake_preview::PreviewHeader;
use context_shake::shake_preview::PreviewTexts;
use context_shake::shake_preview::ShakeOperation;

fn value(percent: Percent) -> f64 {
    percent.numerator as f64 / percent.denominator as f64
}

#[test]
fn cold_and_warm_scenarios_include_threshold_and_billing() {
    for (model, billing, cold_percent, warm_percent, requests) in [
        ("gpt-6-astra", Billing::Codex, 33, 567, 18),
        ("gpt-5.6-sol", Billing::Codex, 67, 233, 5),
        ("gpt-5.6-terra", Billing::Codex, 67, 233, 5),
        ("gpt-5.6-luna", Billing::Codex, 67, 233, 5),
        ("gpt-6-astra", Billing::Api, 67, 317, 6),
    ] {
        let cost = Pricing::for_model(model, billing)
            .unwrap()
            .scenarios(/*before*/ 300_000, /*after*/ 200_000);
        assert_eq!(
            (
                value(cost.cold_saving_percent).round() as i64,
                value(cost.warm_next_change_percent).round() as i64,
                cost.warm_break_even_requests,
            ),
            (cold_percent, warm_percent, Some(requests)),
        );
    }
}

#[test]
fn exact_threshold_no_reduction_and_unknown_models() {
    let pricing = Pricing::for_model("gpt-5.6-sol", Billing::Codex).unwrap();
    assert_eq!(
        [272_000, 272_001].map(|before| {
            value(
                pricing
                    .scenarios(before, /*after*/ 136_000)
                    .cold_saving_percent,
            )
            .round() as i64
        }),
        [50, 75],
    );
    assert_eq!(
        pricing
            .scenarios(/*before*/ 200_000, /*after*/ 200_000)
            .warm_break_even_requests,
        None,
    );
    for model in ["custom", "gpt-6-astra-custom", "gpt-5.6-sol-next"] {
        assert!(Pricing::for_model(model, Billing::Codex).is_none());
    }
    assert!(Pricing::for_model("gpt-6-astra", Billing::Unknown).is_none());
}

#[test]
fn large_reduction_can_pay_back_on_first_warm_request() {
    let pricing = Pricing::for_model("gpt-6-astra", Billing::Codex).unwrap();
    let costs = pricing.scenarios(/*before*/ 200_000, /*after*/ 10_000);
    assert_eq!(value(costs.cold_saving_percent), 95.0);
    assert_eq!(value(costs.warm_next_change_percent), -50.0);
    assert_eq!(costs.warm_break_even_requests, Some(1));
}

#[test]
fn break_even_is_the_first_request_that_pays() {
    let pricing = Pricing::for_model("gpt-6-astra", Billing::Api).unwrap();
    for (before, after) in [(270_000, 200_000), (100_000, 99_000), (7, 3)] {
        let n = pricing
            .scenarios(before, after)
            .warm_break_even_requests
            .unwrap() as i64;
        let without = |n: i64| n * 2 * before;
        let with = |n: i64| 25 * after + (n - 1) * 2 * after;
        assert!(with(n) <= without(n));
        assert!(n == 1 || with(n - 1) > without(n - 1));
    }
    let zero = Percent {
        numerator: 0,
        denominator: 1,
    };
    assert_eq!(
        pricing.scenarios(0, 0),
        CostScenarios {
            cold_saving_percent: zero,
            warm_next_change_percent: zero,
            warm_break_even_requests: None,
        }
    );
}

#[test]
fn costs_are_described() {
    let texts = CostTexts {
        margin_tokens: "72,000".to_string(),
        cold_percent: "67".to_string(),
        warm_percent: "233".to_string(),
    };
    let pricing = Pricing::for_model("gpt-5.6-sol", Billing::Codex).unwrap();
    assert_eq!(pricing.margin_tokens(200_000), 72_000);
    assert_eq!(
        pricing.description(300_000, 200_000, &texts),
        "Codex: May leave >272k tier (2x input, 1.5x output); ~72,000 tokens margin.\nCold cache: next input ~67% cheaper.\nWarm cache, full invalidation: next input ~233% more; break-even by request ~5.\nAssumes standard rates, fixed sizes and subsequent cache hits."
    );
    let astra = Pricing::for_model("gpt-6-astra", Billing::Codex).unwrap();
    let text = astra.description(200_000, 10_000, &texts);
    assert!(text.starts_with("Codex: Astra has no >272k surcharge.\n"));
    assert!(text.contains("% less; break-even on request 1.\n"));
    let api = Pricing::for_model("gpt-6-astra", Billing::Api).unwrap();
    let text = api.description(300_000, 300_000, &texts);
    assert!(text.starts_with("API (1.25x cache writes): Still above 272k; needs ~72,000 more"));
    assert!(text.contains("no payback at unchanged sizes"));
    assert!(api
        .description(100, 50, &texts)
        .contains("Below 272k in this estimate; ~72,000 tokens margin before"));
}

fn preview() -> ShakePreview {
    ShakePreview {
        fingerprint: "measured-history".to_string(),
        tokens_before: 118_000,
        tokens_after: 71_000,
        tool_outputs: 24,
        text_blocks: 8,
        images: 0,
        thinking_blocks: 0,
        unavailable_reason: None,
    }
}

#[test]
fn only_the_shown_thread_is_asked() {
    assert_eq!(
        decide_preview(Some(1), 1, ShakeMode::Elide, &preview()),
        PreviewDecision::Confirm {
            freed: 47_000,
            thread: 1,
            operation: ShakeOperation {
                mode: ShakeMode::Elide,
                expected_fingerprint: "measured-history".to_string(),
            },
        }
    );
    assert_eq!(
        decide_preview(Some(2), 1, ShakeMode::Elide, &preview()),
        PreviewDecision::Ignore
    );
    assert_eq!(
        decide_preview(None, 1, ShakeMode::Elide, &preview()),
        PreviewDecision::Ignore
    );
    let mut empty = preview();
    empty.tool_outputs = 0;
    empty.text_blocks = 0;
    empty.tokens_after = empty.tokens_before;
    assert_eq!(
        decide_preview(Some(1), 1, ShakeMode::Elide, &empty),
        PreviewDecision::Info("Nothing to shake.".to_string())
    );
    empty.unavailable_reason = Some("Elide requires a persistent thread.".to_string());
    assert_eq!(
        decide_preview(Some(1), 1, ShakeMode::Elide, &empty),
        PreviewDecision::Info("Elide requires a persistent thread.".to_string())
    );
}

fn texts() -> PreviewTexts {
    PreviewTexts {
        before: "118,000".to_string(),
        after: "71,000".to_string(),
        freed: "47,000".to_string(),
        percent: "40".to_string(),
    }
}

#[test]
fn headers_are_wrapped() {
    let header = PreviewHeader::new(ShakeMode::Elide, &preview(), &texts());
    assert_eq!(header.title, "Shake preview (elide)");
    assert!(header
        .description
        .starts_with("Estimated conversation: 118,000 → 71,000 tokens. Frees ~47,000 (40%).\n24 tool outputs and 8 text blocks."));
    let lines = header.lines(30);
    assert_eq!(lines[0], "Shake preview (elide)");
    assert_eq!(lines[1], "Estimated conversation:");
    assert_eq!(lines[2], "118,000 → 71,000 tokens. Frees");
    assert_eq!(lines[3], "~47,000 (40%).");
    assert_eq!(header.desired_height(30) as usize, lines.len());
    assert!(lines.iter().all(|line| line.chars().count() <= 30));
    let narrow = header.lines(0);
    assert!(narrow[1..].iter().all(|line| line.chars().count() <= 1));
}

#[test]
fn modes_tell_what_can_be_recovered() {
    let mut preview = preview();
    preview.images = 1;
    preview.thinking_blocks = 2;
    for (mode, sentence) in [
        (
            ShakeMode::Images,
            "Images to remove: 1. This mode does not save recovery artifacts.",
        ),
        (
            ShakeMode::Thinking,
            "Thinking blocks to remove: 2. This mode does not save recovery artifacts.",
        ),
    ] {
        let header = PreviewHeader::new(mode, &preview, &texts());
        assert!(header.description.contains(sentence));
    }
}

#[test]
fn artifacts_are_read_in_pages() {
    let tool = create_read_artifact_tool();
    assert_eq!(tool.name, "read_artifact");
    assert!(!tool.additional_parameters);
    let required: Vec<&str> = tool
        .parameters
        .iter()
        .filter(|parameter| parameter.required)
        .map(|parameter| parameter.name)
        .collect();
    assert_eq!(required, ["artifact"]);
    assert_eq!(
        bad_arguments_message("no uri"),
        "failed to parse read_artifact arguments: no uri"
    );
    assert_eq!(page_output("page".to_string(), None), "page");
    assert_eq!(page_output("page".to_string(), Some("cut")), "page\ncut");
}
