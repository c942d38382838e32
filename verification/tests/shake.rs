use context_shake::artifacts::ArtifactStore;
use context_shake::items::ContentItem;
use context_shake::items::FunctionCallOutputBody;
use context_shake::items::FunctionCallOutputContentItem;
use context_shake::items::FunctionCallOutputPayload;
use context_shake::items::InternalChatMessageMetadataPassthrough;
use context_shake::items::ResponseItem;
use context_shake::items::ResponseItemEnvelope;
use context_shake::shake::blocks::scan_text_for_block_ranges;
use context_shake::shake::elide::apply_saved_regions;
use context_shake::shake::elide::plan_elision;
use context_shake::shake::elide::shake_elide_with_recovery;
use context_shake::shake::preview::estimate_shake;
use context_shake::shake::preview::fingerprint;
use context_shake::shake::preview::preview_shake;
use context_shake::shake::preview::smart_context;
use context_shake::shake::preview::sum_item_tokens;
use context_shake::shake::preview::PreviewError;
use context_shake::shake::protection::is_protected_tool;
use context_shake::shake::protection::protected_output_flags;
use context_shake::shake::recovery::is_artifact_recovery_output;
use context_shake::shake::recovery::is_shaken_artifact_marker;
use context_shake::shake::recovery::placeholder_for;
use context_shake::shake::recovery::recovery_placeholder;
use context_shake::shake::sizes::approx_token_count;
use context_shake::shake::sizes::envelope_tokens;
use context_shake::shake::strip::shake_images;
use context_shake::shake::strip::shake_thinking;
use context_shake::shake::ShakeMode;
use context_shake::shake::ShakeResult;
use context_shake::shake::MANUAL_PROTECT_TOKENS;

fn text_item(role: &str, text: &str) -> ResponseItemEnvelope {
    ResponseItemEnvelope::new(ResponseItem::Message {
        id: None,
        role: role.to_string(),
        content: vec![ContentItem::InputText {
            text: text.to_string(),
        }],
        phase: None,
        internal_chat_message_metadata_passthrough: None,
    })
}

fn output_item(call_id: &str, text: &str) -> ResponseItemEnvelope {
    ResponseItemEnvelope::new(ResponseItem::FunctionCallOutput {
        id: None,
        call_id: Some(call_id.to_string()),
        name: Some("shell".to_string()),
        namespace: None,
        output: FunctionCallOutputPayload::from_text(text.to_string()),
        internal_chat_message_metadata_passthrough: None,
    })
}

fn reasoning_item() -> ResponseItemEnvelope {
    ResponseItemEnvelope::new(ResponseItem::Reasoning {
        id: None,
        summary: vec![],
        content: None,
        encrypted_content: None,
        internal_chat_message_metadata_passthrough: None,
    })
}

fn function_call(namespace: Option<&str>, name: &str, call_id: &str) -> ResponseItemEnvelope {
    ResponseItemEnvelope::new(ResponseItem::FunctionCall {
        id: None,
        name: name.to_string(),
        namespace: namespace.map(str::to_string),
        arguments: "{}".to_string(),
        encrypted_function_args: None,
        call_id: call_id.to_string(),
        internal_chat_message_metadata_passthrough: None,
    })
}

fn unnamed_output(call_id: &str, text: &str) -> ResponseItemEnvelope {
    ResponseItemEnvelope::new(ResponseItem::FunctionCallOutput {
        id: None,
        call_id: Some(call_id.to_string()),
        name: None,
        namespace: None,
        output: FunctionCallOutputPayload::from_text(text.to_string()),
        internal_chat_message_metadata_passthrough: None,
    })
}

fn output_text(envelope: &ResponseItemEnvelope) -> String {
    let ResponseItem::FunctionCallOutput { output, .. } = &envelope.item else {
        panic!("expected output");
    };
    match &output.body {
        FunctionCallOutputBody::Text(text) => text.clone(),
        FunctionCallOutputBody::ContentItems(_) => panic!("expected text output"),
    }
}

fn message_text(envelope: &ResponseItemEnvelope) -> String {
    let ResponseItem::Message { content, .. } = &envelope.item else {
        panic!("expected message");
    };
    let ContentItem::InputText { text } = &content[0] else {
        panic!("expected text");
    };
    text.clone()
}

fn big_lines(count: usize, prefix: &str) -> String {
    (0..count)
        .map(|i| format!("{prefix} number {i} with some padding words here"))
        .collect::<Vec<_>>()
        .join("\n")
}

fn big_fenced_block() -> String {
    format!("```\n{}\n```", big_lines(700, "code line"))
}

fn tail_pad() -> Vec<ResponseItemEnvelope> {
    let mut out = Vec::new();
    for i in 0..32 {
        out.push(text_item(
            "user",
            &format!("follow-up {i}: {}", "some padding words ".repeat(30)),
        ));
        out.push(text_item(
            "assistant",
            &format!("short answer {i}: {}", "more padding words ".repeat(30)),
        ));
    }
    out
}

fn saved_zero(_content: &str, _label: &str) -> Option<String> {
    Some("artifact://00000000000000000000000000000000".to_string())
}

#[test]
fn scan_finds_fenced_block_range() {
    let text = format!("intro\n{}\noutro", big_fenced_block());
    let ranges = scan_text_for_block_ranges(&text);
    assert_eq!(ranges.len(), 1);
    let slice = &text[ranges[0].start..ranges[0].end];
    assert!(slice.starts_with("```"));
    assert!(slice.ends_with("```"));
    assert!(!slice.contains("intro"));
    assert!(!slice.contains("outro"));
}

#[test]
fn scan_regions_land_on_utf8_boundaries_with_multibyte_content() {
    let text = format!("émoji ✨ intro\n{}\n✓ outro", big_fenced_block());
    let ranges = scan_text_for_block_ranges(&text);
    assert_eq!(ranges.len(), 1);
    let slice = &text[ranges[0].start..ranges[0].end];
    assert!(slice.starts_with("```"));
    assert!(slice.ends_with("```"));
}

#[test]
fn scan_ignores_unterminated_fence() {
    let text = "before\n```\nunterminated block body".to_string();
    assert!(scan_text_for_block_ranges(&text).is_empty());
}

#[test]
fn scan_finds_top_level_xml_block() {
    let text = "lead\n<details>\nlots of content\nmore content\n</details>\ntrail";
    let ranges = scan_text_for_block_ranges(text);
    assert_eq!(ranges.len(), 1);
    let slice = &text[ranges[0].start..ranges[0].end];
    assert!(slice.starts_with("<details>"));
    assert!(slice.ends_with("</details>"));
    assert!(!slice.contains("lead"));
}

#[test]
fn scan_suppresses_xml_inside_fence() {
    let text = "```\n<details>\ninside\n</details>\n```";
    let ranges = scan_text_for_block_ranges(text);
    assert_eq!(ranges.len(), 1);
}

#[test]
fn scanned_blocks_are_in_order_and_apart() {
    let text = "```\none\n```\nbetween\n<details>\ntwo\n</details>\n~~~\nthree\n~~~\n";
    let ranges = scan_text_for_block_ranges(text);
    let mut end = 0;
    for range in &ranges {
        assert!(end <= range.start && range.start < range.end);
        assert!(range.end <= text.len());
        end = range.end;
    }
    assert!(ranges.len() >= 2);
}

#[test]
fn shake_elide_replaces_large_tool_output_beyond_window() {
    let big = big_lines(1200, "heavy tool output line");
    let mut items = vec![
        text_item("user", "run the thing"),
        output_item("call-1", &big),
    ];
    items.extend(tail_pad());
    let result = shake_elide_with_recovery(&mut items, MANUAL_PROTECT_TOKENS, &saved_zero);
    assert_eq!(result.tool_outputs_elided, 1);
    assert!(result.tokens_freed > 0);
    let text = output_text(&items[1]);
    assert!(text.starts_with("[shaken ~"), "got: {text}");
}

#[test]
fn shake_elide_skips_recent_tool_output() {
    let big = big_lines(1200, "heavy tool output line");
    let mut items = vec![
        text_item("user", "run the thing"),
        output_item("call-1", &big),
    ];
    let result = shake_elide_with_recovery(&mut items, MANUAL_PROTECT_TOKENS, &saved_zero);
    assert_eq!(result.tool_outputs_elided, 0);
    assert_eq!(output_text(&items[1]), big);
}

#[test]
fn shake_elide_preserves_original_when_artifact_save_fails() {
    let original = big_lines(1200, "heavy tool output line");
    let mut items = vec![output_item("call-1", &original)];
    items.extend(tail_pad());
    let save = |_content: &str, _label: &str| None;

    let result = shake_elide_with_recovery(&mut items, MANUAL_PROTECT_TOKENS, &save);

    assert_eq!(result.tool_outputs_elided, 0);
    assert_eq!(output_text(&items[0]), original);
}

#[test]
fn shake_elide_protects_recovered_output() {
    let recovered = "[artifact source: artifact://00000000000000000000000000000000; more content; use start_byte=3071]\n";
    let mut items = vec![output_item("call-1", &recovered.repeat(60))];
    items.extend(tail_pad());

    let save = |_content: &str, _label: &str| -> Option<String> {
        panic!("recovered output should not be saved again")
    };
    let result = shake_elide_with_recovery(&mut items, MANUAL_PROTECT_TOKENS, &save);

    assert_eq!(result.tool_outputs_elided, 0);
}

#[test]
fn shake_elide_does_not_protect_plain_artifact_uri_text() {
    let plain = "plain text mentioning artifact://00000000000000000000000000000000\n".repeat(1_200);
    let mut items = vec![output_item("call-1", &plain)];
    items.extend(tail_pad());
    let save = |_content: &str, _label: &str| {
        Some("artifact://00000000000000000000000000000001".to_string())
    };

    let result = shake_elide_with_recovery(&mut items, MANUAL_PROTECT_TOKENS, &save);

    assert_eq!(result.tool_outputs_elided, 1);
}

#[test]
fn shake_elide_replaces_large_fence_in_message() {
    let mut items = vec![text_item("assistant", &big_fenced_block())];
    items.extend(tail_pad());
    let result = shake_elide_with_recovery(&mut items, MANUAL_PROTECT_TOKENS, &saved_zero);
    assert!(
        result.blocks_elided >= 1,
        "expected a block elision: {result:?}"
    );
    let text = message_text(&items[0]);
    assert!(text.contains("[shaken ~"), "got: {text}");
}

#[test]
fn a_second_shake_finds_no_tool_output() {
    let big = big_lines(1200, "heavy tool output line");
    let mut items = vec![output_item("call-1", &big)];
    items.extend(tail_pad());
    let path = |_content: &str, _label: &str| Some("/home/a/artifacts/t/id.shell.log".to_string());
    let first = shake_elide_with_recovery(&mut items, MANUAL_PROTECT_TOKENS, &path);
    assert_eq!(first.tool_outputs_elided, 1);
    let second = shake_elide_with_recovery(&mut items, MANUAL_PROTECT_TOKENS, &path);
    assert_eq!(second.tool_outputs_elided, 0);
    assert_eq!(second.tokens_freed, 0);
}

#[test]
fn only_old_large_new_text_reaches_save() {
    let recovered = "[artifact source: artifact://0123; more content]\n".repeat(60);
    let large = big_lines(700, "large");
    let mut items = vec![
        output_item("recovered", &recovered),
        output_item("large", &large),
        output_item("small", "small"),
        function_call(None, "read_artifact", "protected"),
        unnamed_output("protected", &big_lines(700, "protected")),
    ];
    items.extend(tail_pad());
    items.push(output_item("recent", &big_lines(50, "recent")));
    let handed = std::cell::RefCell::new(Vec::new());
    let save = |content: &str, label: &str| {
        handed
            .borrow_mut()
            .push((content.to_string(), label.to_string()));
        Some("/saved".to_string())
    };
    let result = shake_elide_with_recovery(&mut items, MANUAL_PROTECT_TOKENS, &save);
    assert_eq!(handed.into_inner(), [(large, "tool output".to_string())]);
    assert_eq!((result.tool_outputs_elided, result.blocks_elided), (1, 0));
}

#[test]
fn parts_without_text_and_notes_stay() {
    let image = || FunctionCallOutputContentItem::InputImage {
        image_url: "data:image".to_string(),
        detail: None,
    };
    let noted = || {
        Some(InternalChatMessageMetadataPassthrough {
            content_item_kinds: Some(vec!["kind".to_string()]),
        })
    };
    let mut items = vec![ResponseItemEnvelope::new(ResponseItem::CustomToolCallOutput {
        id: None,
        call_id: "call".to_string(),
        name: None,
        output: FunctionCallOutputPayload {
            body: FunctionCallOutputBody::ContentItems(vec![
                image(),
                FunctionCallOutputContentItem::InputText {
                    text: big_lines(700, "large"),
                },
                image(),
            ]),
            success: Some(true),
        },
        internal_chat_message_metadata_passthrough: noted(),
    })];
    items.extend(tail_pad());
    shake_elide_with_recovery(&mut items, MANUAL_PROTECT_TOKENS, &saved_zero);
    let ResponseItem::CustomToolCallOutput {
        output,
        internal_chat_message_metadata_passthrough,
        ..
    } = &items[0].item
    else {
        panic!("expected output");
    };
    assert_eq!(*internal_chat_message_metadata_passthrough, noted());
    assert_eq!(output.success, Some(true));
    let FunctionCallOutputBody::ContentItems(parts) = &output.body else {
        panic!("expected parts");
    };
    assert_eq!(parts.len(), 3);
    assert_eq!((&parts[0], &parts[2]), (&image(), &image()));
}

#[test]
fn a_second_shake_leaves_the_whole_history() {
    let parts = (0..1_000)
        .map(|_| FunctionCallOutputContentItem::InputText {
            text: "x".to_string(),
        })
        .collect();
    let mut items = vec![
        output_item("one", &big_lines(700, "output")),
        text_item(
            "user",
            &format!(
                "<open>\n{}\nbetween\n```\nsmall\n```\n<a>\n{}\n</a>\nbehind",
                big_fenced_block(),
                big_lines(100, "inside")
            ),
        ),
        ResponseItemEnvelope::new(ResponseItem::CustomToolCallOutput {
            id: None,
            call_id: "two".to_string(),
            name: None,
            output: FunctionCallOutputPayload {
                body: FunctionCallOutputBody::ContentItems(parts),
                success: None,
            },
            internal_chat_message_metadata_passthrough: None,
        }),
    ];
    items.extend(tail_pad());
    let first = shake_elide_with_recovery(&mut items, MANUAL_PROTECT_TOKENS, &saved_zero);
    assert_eq!((first.tool_outputs_elided, first.blocks_elided), (2, 1));
    let before = format!("{items:?}");
    let never = |_: &str, _: &str| -> Option<String> { panic!("nothing is left to save") };
    let second = shake_elide_with_recovery(&mut items, MANUAL_PROTECT_TOKENS, &never);
    assert_eq!(format!("{items:?}"), before);
    assert_eq!(
        (
            second.tool_outputs_elided,
            second.blocks_elided,
            second.tokens_freed
        ),
        (0, 0, 0)
    );
}

#[test]
fn a_line_in_the_place_of_a_block_moves_the_others() {
    let text = "<a>\none\n</a>\n```\ntwo\n```\n~~~\nthree\n~~~";
    let blocks = scan_text_for_block_ranges(text);
    assert_eq!(blocks.len(), 3);
    let changed = format!(
        "{}[shaken]{}",
        &text[..blocks[1].start],
        &text[blocks[1].end..]
    );
    let left: Vec<&str> = scan_text_for_block_ranges(&changed)
        .iter()
        .map(|range| &changed[range.start..range.end])
        .collect();
    assert_eq!(left, ["<a>\none\n</a>", "~~~\nthree\n~~~"]);
}

#[test]
fn planning_and_applying_is_shaking() {
    let big = big_lines(1200, "heavy tool output line");
    let build = || {
        let mut items = vec![
            output_item("call-1", &big),
            text_item("assistant", &big_fenced_block()),
        ];
        items.extend(tail_pad());
        items
    };
    let mut planned = build();
    let regions = plan_elision(&planned, MANUAL_PROTECT_TOKENS);
    assert_eq!(regions.len(), 2);
    let paths = vec![Some("/tmp/one".to_string()), None];
    let result = apply_saved_regions(&mut planned, &regions, &paths);
    assert_eq!(result.tool_outputs_elided + result.blocks_elided, 1);

    let mut shaken = build();
    let all = shake_elide_with_recovery(&mut shaken, MANUAL_PROTECT_TOKENS, &saved_zero);
    assert_eq!(all.tool_outputs_elided, 1);
    assert_eq!(all.blocks_elided, 1);
    for (a, b) in planned.iter().zip(shaken.iter()).skip(2) {
        assert_eq!(message_text(a), message_text(b));
    }
}

#[test]
fn what_was_saved_can_be_put_back() {
    let big = big_lines(1200, "heavy tool output line");
    let wordy = format!(
        "before\n{}\nbetween\n{}\nafter",
        big_fenced_block(),
        big_fenced_block()
    );
    let mut items = vec![output_item("call-1", &big), text_item("assistant", &wordy)];
    items.extend(tail_pad());
    let saved = std::cell::RefCell::new(Vec::new());
    let save = |content: &str, label: &str| {
        let path = format!("/artifacts/{}.log", saved.borrow().len());
        saved
            .borrow_mut()
            .push((path.clone(), content.to_string(), label.to_string()));
        Some(path)
    };
    let result = shake_elide_with_recovery(&mut items, MANUAL_PROTECT_TOKENS, &save);
    assert_eq!((result.tool_outputs_elided, result.blocks_elided), (1, 2));
    let mut output = output_text(&items[0]);
    let mut message = message_text(&items[1]);
    assert!(message.len() < wordy.len());
    for (path, content, label) in saved.borrow().iter().rev() {
        let placeholder = placeholder_for(approx_token_count(content), label, path);
        output = output.replace(&placeholder, content);
        message = message.replace(&placeholder, content);
    }
    assert_eq!(output, big);
    assert_eq!(message, wordy);
}

#[test]
fn protected_tool_outputs_are_never_elided() {
    let big = big_lines(1200, "heavy tool output line");
    let mut items = vec![
        function_call(Some("skills"), "read", "skill-call"),
        unnamed_output("skill-call", &big),
    ];
    items.extend(tail_pad());
    let result = shake_elide_with_recovery(&mut items, MANUAL_PROTECT_TOKENS, &saved_zero);
    assert_eq!(result.tool_outputs_elided, 0);
    assert_eq!(output_text(&items[1]), big);
}

#[test]
fn shake_images_strips_from_outputs_and_messages() {
    let mut items = vec![
        ResponseItemEnvelope::new(ResponseItem::FunctionCallOutput {
            id: None,
            call_id: Some("call-img".to_string()),
            name: Some("view_image".to_string()),
            namespace: None,
            output: FunctionCallOutputPayload::from_content_items(vec![
                FunctionCallOutputContentItem::InputText {
                    text: "see image".to_string(),
                },
                FunctionCallOutputContentItem::InputImage {
                    image_url: "data:image/png;base64,AAA".to_string(),
                    detail: None,
                },
            ]),
            internal_chat_message_metadata_passthrough: None,
        }),
        ResponseItemEnvelope::new(ResponseItem::Message {
            id: None,
            role: "user".to_string(),
            content: vec![
                ContentItem::InputText {
                    text: "look".to_string(),
                },
                ContentItem::InputImage {
                    image_url: "data:image/png;base64,BBB".to_string(),
                    detail: None,
                },
            ],
            phase: None,
            internal_chat_message_metadata_passthrough: None,
        }),
    ];
    let result = shake_images(&mut items);
    assert_eq!(result.images_dropped, 2);
    for envelope in &items {
        match &envelope.item {
            ResponseItem::Message { content, .. } => assert!(!content
                .iter()
                .any(|c| matches!(c, ContentItem::InputImage { .. }))),
            ResponseItem::FunctionCallOutput { output, .. } => {
                let FunctionCallOutputBody::ContentItems(items) = &output.body else {
                    panic!("expected content items");
                };
                assert!(!items
                    .iter()
                    .any(|c| matches!(c, FunctionCallOutputContentItem::InputImage { .. })));
            }
            _ => {}
        }
    }
}

#[test]
fn shake_thinking_drops_reasoning_items() {
    let mut items = vec![
        reasoning_item(),
        text_item("user", "hello"),
        reasoning_item(),
    ];
    let result = shake_thinking(&mut items);
    assert_eq!(result.thinking_dropped, 2);
    assert_eq!(items.len(), 1);
    assert_eq!(message_text(&items[0]), "hello");
}

#[test]
fn summary_line_formats_counts() {
    let result = ShakeResult {
        tool_outputs_elided: 3,
        blocks_elided: 1,
        tokens_freed: 1234,
        ..Default::default()
    };
    assert_eq!(
        result.summary_line(ShakeMode::Elide),
        "Shook 3 tool outputs + 1 block (~1234 tokens freed)."
    );
    let empty = ShakeResult::default();
    assert_eq!(empty.summary_line(ShakeMode::Elide), "Nothing to shake.");
    assert_eq!(
        empty.summary_line(ShakeMode::Images),
        "No images found in this conversation."
    );
    assert_eq!(
        empty.summary_line(ShakeMode::Thinking),
        "No thinking blocks found in this conversation."
    );
}

#[test]
fn summaries_of_the_other_modes() {
    assert!(ShakeResult::default().is_noop());
    let images = ShakeResult {
        images_dropped: 1,
        ..Default::default()
    };
    assert!(!images.is_noop());
    assert_eq!(
        images.summary_line(ShakeMode::Images),
        "Dropped 1 image from this conversation."
    );
    let thinking = ShakeResult {
        thinking_dropped: 2,
        ..Default::default()
    };
    assert_eq!(
        thinking.summary_line(ShakeMode::Thinking),
        "Dropped 2 thinking blocks from this conversation."
    );
    assert_eq!(
        ShakeResult::default().summary_line(ShakeMode::SmartCompact),
        "Nothing to shake."
    );
}

fn chars(text: &str) -> Vec<char> {
    text.chars().collect()
}

#[test]
fn placeholder_carries_the_original_file_path() {
    let save = |_content: &str, _label: &str| {
        Some(
            "/home/user/.codex/artifacts/thread-1/00000000000000000000000000000000.tool_output.log"
                .to_string(),
        )
    };
    let placeholder = recovery_placeholder(&save, "original content", 123, "tool output")
        .expect("save succeeded, so a placeholder must be produced");

    assert_eq!(
        placeholder,
        "[shaken ~123 tokens from tool output. original: \
         /home/user/.codex/artifacts/thread-1/00000000000000000000000000000000.tool_output.log]"
    );
    assert!(
        is_shaken_artifact_marker(&chars(&placeholder)),
        "the marker guard must still recognize a placeholder with a file path: {placeholder}"
    );
    assert!(is_artifact_recovery_output(&chars(&placeholder)));
}

#[test]
fn placeholder_is_none_when_save_fails() {
    let save = |_content: &str, _label: &str| None;
    assert_eq!(
        recovery_placeholder(&save, "original content", 123, "tool output"),
        None
    );
}

#[test]
fn placeholders_are_markers_whatever_their_label() {
    let placeholder = placeholder_for(7, "two\nlines", "/a\nb");
    assert!(is_shaken_artifact_marker(&chars(&placeholder)));
    assert!(!is_artifact_recovery_output(&chars(&placeholder)));
    let placeholder = placeholder_for(7, "one line", "/a");
    assert!(is_shaken_artifact_marker(&chars(&placeholder)));
    assert!(is_artifact_recovery_output(&chars(&placeholder)));
}

#[test]
fn near_markers_are_not_markers() {
    for line in [
        "",
        "[shaken ~12 tokens from tool output. original: ]",
        "[shaken 12 tokens from tool output. original: /tmp/a]",
        "[shaken ~12 tokens from tool output. original: /tmp/a",
        "[shaken ~12 tokens, tool output. original: /tmp/a]",
    ] {
        assert!(!is_shaken_artifact_marker(&chars(line)), "{line}");
    }
}

#[test]
fn default_namespace_spellings_are_equivalent() {
    for namespace in [None, Some(""), Some("functions")] {
        assert!(
            is_protected_tool(namespace, "read_artifact"),
            "{namespace:?}"
        );
    }
    assert!(!is_protected_tool(None, "read"));
    assert!(!is_protected_tool(Some("skills"), "read_artifact"));
    assert!(is_protected_tool(Some("skills"), "read"));
    assert!(is_protected_tool(Some("skills"), "list"));
    assert!(!is_protected_tool(Some("skills"), "write"));
    assert!(!is_protected_tool(None, "exec_command"));
}

#[test]
fn output_flags_pair_with_the_originating_call() {
    let items = vec![
        function_call(Some("skills"), "read", "skill-call"),
        unnamed_output("skill-call", "skill body"),
        function_call(None, "exec_command", "shell-call"),
        unnamed_output("shell-call", "shell body"),
    ];
    assert_eq!(
        protected_output_flags(&items),
        vec![false, true, false, false]
    );
}

fn history(namespace: Option<&str>, name: &str) -> Vec<ResponseItemEnvelope> {
    let big = "protected tool output line with padding words\n".repeat(1_200);
    let mut items = vec![
        function_call(namespace, name, "preview-call"),
        unnamed_output("preview-call", &big),
    ];
    for index in 0..32 {
        items.push(text_item(
            "assistant",
            &format!("tail {index}: {}", "some padding words ".repeat(30)),
        ));
    }
    items
}

fn estimate_tokens(item: &ResponseItem) -> i64 {
    match item {
        ResponseItem::FunctionCallOutput { output, .. } => match &output.body {
            FunctionCallOutputBody::Text(text) => approx_token_count(text) as i64,
            FunctionCallOutputBody::ContentItems(_) => 0,
        },
        ResponseItem::Message { content, .. } => content
            .iter()
            .map(|part| match part {
                ContentItem::InputText { text } => approx_token_count(text) as i64,
                _ => 0,
            })
            .sum(),
        _ => 0,
    }
}

#[test]
fn preview_does_not_count_protected_tool_outputs() {
    let store = ArtifactStore::for_thread("/codex-home", None, "preview-thread");
    let estimate = estimate_shake(
        &history(Some("skills"), "read"),
        ShakeMode::Elide,
        MANUAL_PROTECT_TOKENS,
        true,
        &store,
        &estimate_tokens,
    );
    assert_eq!(estimate.result.tool_outputs_elided, 0);
    assert_eq!(estimate.tokens_after, estimate.tokens_before);

    let estimate = estimate_shake(
        &history(None, "exec_command"),
        ShakeMode::Elide,
        MANUAL_PROTECT_TOKENS,
        true,
        &store,
        &estimate_tokens,
    );
    assert_eq!(estimate.result.tool_outputs_elided, 1);
    assert!(estimate.tokens_after < estimate.tokens_before);
}

#[test]
fn smart_compact_fingerprint_binds_model_provider_context() {
    let items: Vec<Vec<u8>> = history(None, "exec_command")
        .iter()
        .map(|envelope| format!("{:?}", envelope.item).into_bytes())
        .collect();
    let openai_astra = fingerprint(&items, ShakeMode::SmartCompact, Some("gpt-6-astra|OpenAI"));
    let other_provider = fingerprint(
        &items,
        ShakeMode::SmartCompact,
        Some("gpt-6-astra|Other provider"),
    );
    assert_ne!(openai_astra, other_provider);
    let mechanical = fingerprint(&items, ShakeMode::Elide, None);
    assert_ne!(openai_astra, mechanical);
    assert_eq!(openai_astra.len(), 40);
}

#[test]
fn fingerprints_are_sha1_of_mode_context_and_items() {
    assert_eq!(
        fingerprint(&vec![], ShakeMode::Elide, None),
        "eb053142c0666cd2c88b2b675d329369e0d4d973"
    );
    assert_eq!(
        fingerprint(
            &vec![b"x".to_vec()],
            ShakeMode::SmartCompact,
            Some("gpt-6-astra|OpenAI")
        ),
        "cd9fe2ab79f8c9dc5761f05a7bcc151221c1744c"
    );
    let split = vec![b"ab".to_vec(), b"c".to_vec()];
    let whole = vec![b"abc".to_vec()];
    assert_eq!(
        fingerprint(&split, ShakeMode::Images, None),
        fingerprint(&whole, ShakeMode::Images, None)
    );
    assert_ne!(
        fingerprint(&whole, ShakeMode::Images, None),
        fingerprint(&whole, ShakeMode::Thinking, None)
    );
}

#[test]
fn previews_need_an_idle_session() {
    let store = ArtifactStore::for_thread("/codex-home", Some("/real/home"), "t");
    let measure = || {
        estimate_shake(
            &history(None, "exec_command"),
            ShakeMode::Elide,
            MANUAL_PROTECT_TOKENS,
            true,
            &store,
            &estimate_tokens,
        )
    };
    let refused = preview_shake(true, measure(), "print".to_string());
    match refused {
        Err(error) => assert_eq!(
            error.message(),
            "Cannot preview shake while a turn is in progress."
        ),
        Ok(_) => panic!("a turn is in progress"),
    }
    let preview = preview_shake(false, measure(), "print".to_string()).expect("idle");
    assert_eq!(preview.fingerprint, "print");
    assert_eq!(preview.tool_outputs, 1);
    assert_eq!(preview.text_blocks, 0);
    assert_eq!(preview.unavailable_reason, None);
    assert!(matches!(
        preview_shake(true, measure(), String::new()),
        Err(PreviewError::TurnInProgress)
    ));
}

#[test]
fn ephemeral_threads_cannot_be_elided() {
    let store = ArtifactStore::for_thread("/codex-home", None, "t");
    let estimate = estimate_shake(
        &history(None, "exec_command"),
        ShakeMode::Elide,
        MANUAL_PROTECT_TOKENS,
        false,
        &store,
        &estimate_tokens,
    );
    assert!(estimate.unavailable_reason.is_some());
    assert_eq!(estimate.tokens_after, estimate.tokens_before);
}

#[test]
fn context_is_only_for_smart_compact() {
    assert_eq!(
        smart_context(ShakeMode::SmartCompact, "gpt-6-astra", "OpenAI"),
        Some("gpt-6-astra|OpenAI".to_string())
    );
    assert_eq!(smart_context(ShakeMode::Elide, "gpt-6-astra", "OpenAI"), None);
}

#[test]
fn sizes_are_four_bytes_to_a_token() {
    assert_eq!(approx_token_count(""), 0);
    assert_eq!(approx_token_count("abcd"), 1);
    assert_eq!(approx_token_count("abcde"), 2);
    assert_eq!(approx_token_count("✨✨"), 2);
    let items = vec![text_item("user", "abcdefgh")];
    assert_eq!(sum_item_tokens(&items, &estimate_tokens), 2);
    assert!(envelope_tokens(&items[0]) >= 2);
}

#[test]
fn names_of_modes() {
    assert_eq!(ShakeMode::Elide.as_str(), "elide");
    assert_eq!(ShakeMode::Images.as_str(), "images");
    assert_eq!(ShakeMode::Thinking.as_str(), "thinking");
    assert_eq!(ShakeMode::SmartCompact.as_str(), "smartCompact");
}
