//! Elision: large tool outputs and large blocks are replaced by placeholders.
//!
//! Elision goes in three steps. A plan lists the regions to be replaced, in the
//! order in which they are saved. Each region is saved outside of the history.
//! Then every region that was saved is replaced; one that was not stays as it
//! is, so that no placeholder promises text that cannot be recovered.

use vstd::prelude::*;
use vstd::string::*;

use crate::items::ContentItem;
use crate::items::ContentItemView;
use crate::items::FunctionCallOutputBody;
use crate::items::FunctionCallOutputBodyView;
use crate::items::FunctionCallOutputContentItem;
use crate::items::FunctionCallOutputContentItemView;
use crate::items::FunctionCallOutputPayload;
use crate::items::FunctionCallOutputPayloadView;
use crate::items::ResponseItem;
use crate::items::ResponseItemEnvelope;
use crate::items::ResponseItemEnvelopeView;
use crate::items::ResponseItemView;
use crate::shake::blocks;
use crate::shake::protection;
use crate::shake::recovery;
use crate::shake::sizes;
use crate::shake::ShakeResult;
use crate::text;

verus! {

/// The smallest region, in tokens, that is worth replacing.
pub const FENCE_MIN_TOKENS: usize = 400;

/// The texts of a list of output parts that are not empty.
pub open spec fn text_fragments(items: Seq<FunctionCallOutputContentItemView>) -> Seq<Seq<char>>
    decreases items.len(),
{
    if items.len() == 0 {
        Seq::empty()
    } else {
        match items.last() {
            FunctionCallOutputContentItemView::InputText { text } if text.len() > 0 => {
                text_fragments(items.drop_last()).push(text)
            },
            _ => text_fragments(items.drop_last()),
        }
    }
}

/// The text of a tool output, if it has any.
pub open spec fn payload_text(output: FunctionCallOutputPayloadView) -> Option<Seq<char>> {
    match output.body {
        FunctionCallOutputBodyView::Text(text) => if text.len() == 0 {
            None
        } else {
            Some(text)
        },
        FunctionCallOutputBodyView::ContentItems(items) => if text_fragments(items).len() == 0 {
            None
        } else {
            Some(text::join(text_fragments(items), "\n"@))
        },
    }
}

/// Some part of a list of output parts is a text.
pub open spec fn has_text_part(items: Seq<FunctionCallOutputContentItemView>) -> bool {
    exists|i: int| 0 <= i < items.len() && (#[trigger] items[i]) is InputText
}

/// Output parts with the first text replaced, the other texts dropped, and
/// everything else kept.
pub open spec fn replace_text(
    items: Seq<FunctionCallOutputContentItemView>,
    placeholder: Seq<char>,
) -> Seq<FunctionCallOutputContentItemView>
    decreases items.len(),
{
    if items.len() == 0 {
        Seq::empty()
    } else {
        let front = replace_text(items.drop_last(), placeholder);
        match items.last() {
            FunctionCallOutputContentItemView::InputText { .. } => if has_text_part(
                items.drop_last(),
            ) {
                front
            } else {
                front.push(FunctionCallOutputContentItemView::InputText { text: placeholder })
            },
            other => front.push(other),
        }
    }
}

/// A tool output with its text replaced.
pub open spec fn elided_payload(
    output: FunctionCallOutputPayloadView,
    placeholder: Seq<char>,
) -> FunctionCallOutputPayloadView {
    FunctionCallOutputPayloadView {
        body: match output.body {
            FunctionCallOutputBodyView::Text(_) => FunctionCallOutputBodyView::Text(placeholder),
            FunctionCallOutputBodyView::ContentItems(items) => {
                FunctionCallOutputBodyView::ContentItems(replace_text(items, placeholder))
            },
        },
        success: output.success,
    }
}

/// The text of a tool output, with its estimated tokens.
pub fn tool_output_text(output: &FunctionCallOutputPayload) -> (r: Option<(String, usize)>)
    ensures
        match r {
            Some((content, tokens)) => payload_text(output.deep_view()) == Some(content@) && tokens
                == sizes::token_count(content@),
            None => payload_text(output.deep_view()) is None,
        },
{
    match &output.body {
        FunctionCallOutputBody::Text(content) => {
            if content.as_str().is_empty() {
                None
            } else {
                Some((content.clone(), sizes::approx_token_count(content)))
            }
        },
        FunctionCallOutputBody::ContentItems(items) => {
            let mut joined: Option<String> = None;
            let ghost views = items.deep_view();
            let mut i: usize = 0;
            while i < items.len()
                invariant
                    i <= items@.len(),
                    views == items.deep_view(),
                    match joined {
                        Some(so_far) => text_fragments(views.take(i as int)).len() > 0 && so_far@
                            == text::join(text_fragments(views.take(i as int)), "\n"@),
                        None => text_fragments(views.take(i as int)).len() == 0,
                    },
                decreases items@.len() - i,
            {
                let ghost so_far = views.take(i as int);
                assert(views.take(i + 1).drop_last() == so_far);
                assert(views.take(i + 1).last() == items@[i as int].deep_view());
                if let FunctionCallOutputContentItem::InputText { text } = &items[i] {
                    if !text.as_str().is_empty() {
                        text::join_onto(&mut joined, text, "\n", Ghost(text_fragments(so_far)));
                    }
                }
                i = i + 1;
            }
            assert(views.take(i as int) == views);
            match joined {
                Some(content) => {
                    let tokens = sizes::approx_token_count(content.as_str());
                    Some((content, tokens))
                },
                None => None,
            }
        },
    }
}

/// Replaces the text of a tool output and keeps every other part. Returns the
/// tokens that this frees.
pub fn elide_tool_output(output: &mut FunctionCallOutputPayload, placeholder: &str) -> (freed: usize)
    ensures
        final(output).deep_view() == elided_payload(old(output).deep_view(), placeholder@),
        freed == freed_tokens(
            match payload_text(old(output).deep_view()) {
                Some(content) => sizes::token_count(content),
                None => 0,
            },
            placeholder@,
        ),
{
    let original: usize = match tool_output_text(output) {
        Some((_, tokens)) => tokens,
        None => 0,
    };
    match &mut output.body {
        FunctionCallOutputBody::Text(content) => {
            *content = placeholder.to_owned();
        },
        FunctionCallOutputBody::ContentItems(items) => {
            let mut parts: Vec<FunctionCallOutputContentItem> = Vec::new();
            core::mem::swap(items, &mut parts);
            *items = replaced_parts(parts, placeholder);
        },
    }
    original.saturating_sub(sizes::approx_token_count(placeholder))
}

/// Computes [`replace_text`].
fn replaced_parts(parts: Vec<FunctionCallOutputContentItem>, placeholder: &str) -> (kept: Vec<
    FunctionCallOutputContentItem,
>)
    ensures
        kept.deep_view() == replace_text(parts.deep_view(), placeholder@),
{
    let ghost views = parts.deep_view();
    let mut kept: Vec<FunctionCallOutputContentItem> = Vec::new();
    let mut wrote = false;
    let ghost mut n: int = 0;
    for part in it: parts
        invariant
            n == it.index(),
            it.seq() == parts@,
            views == parts.deep_view(),
            wrote == has_text_part(views.take(n)),
            kept.deep_view() == replace_text(views.take(n), placeholder@),
    {
        let ghost view = part.deep_view();
        let ghost before = kept.deep_view();
        proof {
            assert(view == views[n]);
            assert(views.take(n + 1).drop_last() == views.take(n));
            assert(views.take(n + 1).last() == view);
            assert forall|i: int| 0 <= i < n implies views.take(n + 1)[i] == views.take(n)[i] by {}
            if has_text_part(views.take(n)) {
                let i = choose|i: int|
                    0 <= i < views.take(n).len() && (#[trigger] views.take(n)[i]) is InputText;
                assert(views.take(n + 1)[i] is InputText);
            }
            if view is InputText {
                assert(views.take(n + 1)[n] is InputText);
            }
            if has_text_part(views.take(n + 1)) && !(view is InputText) {
                let i = choose|i: int|
                    0 <= i < views.take(n + 1).len() && (#[trigger] views.take(
                        n + 1,
                    )[i]) is InputText;
                assert(views.take(n)[i] is InputText);
            }
        }
        match part {
            FunctionCallOutputContentItem::InputText { .. } => {
                if !wrote {
                    wrote = true;
                    kept.push(
                        FunctionCallOutputContentItem::InputText { text: placeholder.to_owned() },
                    );
                    assert(kept.deep_view() == before.push(
                        FunctionCallOutputContentItemView::InputText { text: placeholder@ },
                    ));
                }
            },
            other => {
                kept.push(other);
                assert(kept.deep_view() == before.push(view));
            },
        }
        proof {
            n = n + 1;
        }
    }
    assert(views.take(n) == views);
    kept
}

/// The tokens freed when `tokens` tokens give way to a placeholder.
pub open spec fn freed_tokens(tokens: nat, placeholder: Seq<char>) -> nat {
    if tokens > sizes::token_count(placeholder) {
        (tokens - sizes::token_count(placeholder)) as nat
    } else {
        0
    }
}

/// The estimated tokens of the items behind item `i`.
pub open spec fn tokens_after(items: Seq<ResponseItemEnvelopeView>, i: int) -> nat
    decreases items.len() - i,
{
    if i + 1 >= items.len() {
        0
    } else {
        sizes::item_tokens(items[i + 1]) + tokens_after(items, i + 1)
    }
}

/// Item `i` is old enough to be touched: what came later fills the protected
/// recent window.
pub open spec fn is_old(
    items: Seq<ResponseItemEnvelopeView>,
    protect_tokens: nat,
    i: int,
) -> bool {
    tokens_after(items, i) >= protect_tokens
}

/// Where a block stands in a message.
#[derive(Clone, Copy, Debug, PartialEq, Eq)]
pub struct BlockPlace {
    /// The part of the message.
    pub part: usize,
    /// The characters of that part's text.
    pub span: blocks::Span,
}

/// The value of a [`BlockPlace`].
pub struct BlockPlaceView {
    pub part: int,
    pub span: (int, int),
}

impl BlockPlace {
    pub open spec fn place_view(self) -> BlockPlaceView {
        BlockPlaceView { part: self.part as int, span: blocks::span_view(self.span) }
    }
}

/// A region of the history to be replaced.
#[derive(Debug, PartialEq, Eq)]
pub struct ElideRegion {
    /// The item that holds the region.
    pub item: usize,
    /// The place of a block, or `None` for the whole text of a tool output.
    pub block: Option<BlockPlace>,
    /// The text of the region.
    pub content: String,
    /// What the region is, for the placeholder and the file name.
    pub label: String,
    /// The estimated tokens of the region.
    pub tokens: usize,
}

/// The value of an [`ElideRegion`].
pub struct ElideRegionView {
    pub item: int,
    pub block: Option<BlockPlaceView>,
    pub content: Seq<char>,
    pub label: Seq<char>,
    pub tokens: nat,
}

impl DeepView for ElideRegion {
    type V = ElideRegionView;

    open spec fn deep_view(&self) -> ElideRegionView {
        ElideRegionView {
            item: self.item as int,
            block: match self.block {
                Some(place) => Some(place.place_view()),
                None => None,
            },
            content: self.content@,
            label: self.label@,
            tokens: self.tokens as nat,
        }
    }
}

/// The payload of a tool output.
pub open spec fn output_of(item: ResponseItemView) -> Option<FunctionCallOutputPayloadView> {
    match item {
        ResponseItemView::FunctionCallOutput { output, .. } => Some(output),
        ResponseItemView::CustomToolCallOutput { output, .. } => Some(output),
        _ => None,
    }
}

/// A text that is large enough to be replaced and is no placeholder already.
pub open spec fn is_worth_eliding(content: Seq<char>) -> bool {
    sizes::token_count(content) >= FENCE_MIN_TOKENS && !recovery::is_recovery_output(content)
}

/// The region that item `i` makes as a tool output.
pub open spec fn tool_region(
    items: Seq<ResponseItemEnvelopeView>,
    protect_tokens: nat,
    i: int,
) -> Option<ElideRegionView> {
    if !is_old(items, protect_tokens, i) || protection::is_protected_output(items, i) {
        None
    } else {
        match output_of(items[i].item) {
            Some(output) => match payload_text(output) {
                Some(content) if is_worth_eliding(content) => Some(
                    ElideRegionView {
                        item: i,
                        block: None,
                        content,
                        label: "tool output"@,
                        tokens: sizes::token_count(content),
                    },
                ),
                _ => None,
            },
            None => None,
        }
    }
}

/// The tool-output regions of the first `n` items.
pub open spec fn tool_regions(
    items: Seq<ResponseItemEnvelopeView>,
    protect_tokens: nat,
    n: int,
) -> Seq<ElideRegionView>
    decreases n,
{
    if n <= 0 {
        Seq::empty()
    } else {
        match tool_region(items, protect_tokens, n - 1) {
            Some(region) => tool_regions(items, protect_tokens, n - 1).push(region),
            None => tool_regions(items, protect_tokens, n - 1),
        }
    }
}

/// The text of a message part.
pub open spec fn part_text(part: ContentItemView) -> Option<Seq<char>> {
    match part {
        ContentItemView::InputText { text } => Some(text),
        ContentItemView::OutputText { text } => Some(text),
        _ => None,
    }
}

/// The regions that the first `n` blocks of a message part make.
pub open spec fn text_regions(
    item: int,
    part: int,
    content: Seq<char>,
    role: Seq<char>,
    n: int,
) -> Seq<ElideRegionView>
    decreases n,
{
    if n <= 0 {
        Seq::empty()
    } else {
        let front = text_regions(item, part, content, role, n - 1);
        let span = blocks::block_spans(content)[n - 1];
        let block = content.subrange(span.0, span.1);
        if is_worth_eliding(block) {
            front.push(
                ElideRegionView {
                    item,
                    block: Some(BlockPlaceView { part, span }),
                    content: block,
                    label: role + " block"@,
                    tokens: sizes::token_count(block),
                },
            )
        } else {
            front
        }
    }
}

/// The regions of the first `n` parts of a message.
pub open spec fn message_regions(
    item: int,
    role: Seq<char>,
    content: Seq<ContentItemView>,
    n: int,
) -> Seq<ElideRegionView>
    decreases n,
{
    if n <= 0 {
        Seq::empty()
    } else {
        message_regions(item, role, content, n - 1) + (match part_text(content[n - 1]) {
            Some(text) => text_regions(
                item,
                n - 1,
                text,
                role,
                blocks::block_spans(text).len() as int,
            ),
            None => Seq::empty(),
        })
    }
}

/// The block regions of item `i`.
pub open spec fn item_block_regions(
    items: Seq<ResponseItemEnvelopeView>,
    protect_tokens: nat,
    i: int,
) -> Seq<ElideRegionView> {
    if !is_old(items, protect_tokens, i) {
        Seq::empty()
    } else {
        match items[i].item {
            ResponseItemView::Message { role, content, .. } => message_regions(
                i,
                role,
                content,
                content.len() as int,
            ),
            _ => Seq::empty(),
        }
    }
}

/// The block regions of the first `n` items.
pub open spec fn block_regions(
    items: Seq<ResponseItemEnvelopeView>,
    protect_tokens: nat,
    n: int,
) -> Seq<ElideRegionView>
    decreases n,
{
    if n <= 0 {
        Seq::empty()
    } else {
        block_regions(items, protect_tokens, n - 1) + item_block_regions(
            items,
            protect_tokens,
            n - 1,
        )
    }
}

/// The regions that an elision replaces: the tool outputs from the oldest on,
/// and then the blocks from the last one back, so that replacing one block
/// never moves another that is still to be replaced.
pub open spec fn elision_plan(
    items: Seq<ResponseItemEnvelopeView>,
    protect_tokens: nat,
) -> Seq<ElideRegionView> {
    tool_regions(items, protect_tokens, items.len() as int) + block_regions(
        items,
        protect_tokens,
        items.len() as int,
    ).reverse()
}

/// For each item, whether it is old enough to be touched.
fn old_flags(items: &[ResponseItemEnvelope], protect_tokens: usize) -> (flags: Vec<bool>)
    ensures
        flags@.len() == items@.len(),
        forall|i: int|
            0 <= i < flags@.len() ==> #[trigger] flags@[i] == is_old(
                items.deep_view(),
                protect_tokens as nat,
                i,
            ),
{
    let n = items.len();
    let mut newest_first: Vec<bool> = Vec::new();
    let mut after: usize = 0;
    let ghost views = items.deep_view();
    while newest_first.len() < n
        invariant
            n == items@.len(),
            views == items.deep_view(),
            newest_first@.len() <= n,
            newest_first@.len() < n ==> after == text::capped(
                tokens_after(views, n - 1 - newest_first@.len()),
            ),
            forall|k: int|
                0 <= k < newest_first@.len() ==> #[trigger] newest_first@[k] == is_old(
                    views,
                    protect_tokens as nat,
                    n - 1 - k,
                ),
        decreases n - newest_first@.len(),
    {
        let i: usize = n - 1 - newest_first.len();
        newest_first.push(after >= protect_tokens);
        assert(views[i as int] == items@[i as int].deep_view());
        after = after.saturating_add(sizes::envelope_tokens(&items[i]));
    }
    let mut flags: Vec<bool> = Vec::new();
    let mut i: usize = 0;
    while i < n
        invariant
            i <= n,
            n == newest_first@.len(),
            n == views.len(),
            flags@.len() == i,
            forall|k: int|
                0 <= k < n ==> #[trigger] newest_first@[k] == is_old(
                    views,
                    protect_tokens as nat,
                    n - 1 - k,
                ),
            forall|k: int|
                0 <= k < i ==> #[trigger] flags@[k] == is_old(views, protect_tokens as nat, k),
        decreases n - i,
    {
        flags.push(newest_first[n - 1 - i]);
        i = i + 1;
    }
    flags
}

/// Decides [`is_worth_eliding`] for a text of `tokens` tokens.
fn worth_eliding(content: &[char], tokens: usize) -> (r: bool)
    requires
        tokens == sizes::token_count(content@),
    ensures
        r == is_worth_eliding(content@),
{
    tokens >= FENCE_MIN_TOKENS && !recovery::is_artifact_recovery_output(content)
}

/// The region of a tool output that is old and not protected.
fn region_of_output(output: &FunctionCallOutputPayload, item: usize) -> (region: Option<ElideRegion>)
    ensures
        match payload_text(output.deep_view()) {
            Some(content) if is_worth_eliding(content) => region matches Some(r) && r.deep_view()
                == (ElideRegionView {
                item: item as int,
                block: None,
                content,
                label: "tool output"@,
                tokens: sizes::token_count(content),
            }),
            _ => region is None,
        },
{
    match tool_output_text(output) {
        Some((content, tokens)) => {
            let chars = text::chars_of(content.as_str());
            if worth_eliding(chars.as_slice(), tokens) {
                Some(
                    ElideRegion {
                        item,
                        block: None,
                        content,
                        label: "tool output".to_owned(),
                        tokens,
                    },
                )
            } else {
                None
            }
        },
        None => None,
    }
}

/// Adds the block regions of one message part.
pub fn push_block_regions(
    item: usize,
    part: usize,
    content: &str,
    role: &str,
    out: &mut Vec<ElideRegion>,
)
    ensures
        final(out).deep_view() == old(out).deep_view() + text_regions(
            item as int,
            part as int,
            content@,
            role@,
            blocks::block_spans(content@).len() as int,
        ),
{
    let chars = text::chars_of(content);
    let spans = blocks::scan_block_spans(chars.as_slice());
    let ghost before = out.deep_view();
    let ghost views = spans@.map_values(|s: blocks::Span| blocks::span_view(s));
    proof {
        blocks::law_block_spans(content@);
    }
    let mut k: usize = 0;
    while k < spans.len()
        invariant
            k <= spans@.len(),
            chars@ == content@,
            views == spans@.map_values(|s: blocks::Span| blocks::span_view(s)),
            views == blocks::block_spans(content@),
            blocks::spans_ordered(views, content@.len() as int),
            out.deep_view() == before + text_regions(
                item as int,
                part as int,
                content@,
                role@,
                k as int,
            ),
        decreases spans@.len() - k,
    {
        let span = spans[k];
        assert(views[k as int] == blocks::span_view(span));
        let block = vstd::slice::slice_subrange(chars.as_slice(), span.start, span.end);
        let block_text = text::string_of(block);
        let tokens = sizes::approx_token_count(block_text.as_str());
        let ghost so_far = out.deep_view();
        if worth_eliding(block, tokens) {
            let mut label = role.to_owned();
            label.append(" block");
            out.push(
                ElideRegion {
                    item,
                    block: Some(BlockPlace { part, span }),
                    content: block_text,
                    label,
                    tokens,
                },
            );
            assert(out.deep_view() == so_far.push(out@.last().deep_view()));
        }
        k = k + 1;
    }
}

/// Adds the block regions of one message.
fn push_message_regions(
    item: usize,
    role: &String,
    content: &Vec<ContentItem>,
    out: &mut Vec<ElideRegion>,
)
    ensures
        final(out).deep_view() == old(out).deep_view() + message_regions(
            item as int,
            role@,
            content.deep_view(),
            content@.len() as int,
        ),
{
    let ghost before = out.deep_view();
    let mut j: usize = 0;
    while j < content.len()
        invariant
            j <= content@.len(),
            out.deep_view() == before + message_regions(
                item as int,
                role@,
                content.deep_view(),
                j as int,
            ),
        decreases content@.len() - j,
    {
        assert(content.deep_view()[j as int] == content@[j as int].deep_view());
        let ghost so_far = out.deep_view();
        match &content[j] {
            ContentItem::InputText { text } => {
                push_block_regions(item, j, text.as_str(), role.as_str(), out);
            },
            ContentItem::OutputText { text } => {
                push_block_regions(item, j, text.as_str(), role.as_str(), out);
            },
            _ => {},
        }
        j = j + 1;
        assert(out.deep_view() == before + message_regions(
            item as int,
            role@,
            content.deep_view(),
            j as int,
        ));
    }
}

/// Computes [`elision_plan`].
pub fn plan_elision(items: &[ResponseItemEnvelope], protect_tokens: usize) -> (plan: Vec<
    ElideRegion,
>)
    ensures
        plan.deep_view() == elision_plan(items.deep_view(), protect_tokens as nat),
{
    let old = old_flags(items, protect_tokens);
    let protected = protection::protected_output_flags(items);
    let mut plan: Vec<ElideRegion> = Vec::new();
    let mut found: Vec<ElideRegion> = Vec::new();
    let ghost views = items.deep_view();
    let ghost protect = protect_tokens as nat;
    let mut i: usize = 0;
    while i < items.len()
        invariant
            i <= items@.len(),
            views == items.deep_view(),
            protect == protect_tokens as nat,
            old@.len() == items@.len(),
            protected@.len() == items@.len(),
            forall|k: int| 0 <= k < old@.len() ==> #[trigger] old@[k] == is_old(views, protect, k),
            forall|k: int|
                0 <= k < protected@.len() ==> #[trigger] protected@[k]
                    == protection::is_protected_output(views, k),
            plan.deep_view() == tool_regions(views, protect, i as int),
            found.deep_view() == block_regions(views, protect, i as int),
        decreases items@.len() - i,
    {
        assert(views[i as int] == items@[i as int].deep_view());
        let ghost plan_before = plan.deep_view();
        let ghost found_before = found.deep_view();
        if old[i] {
            match &items[i].item {
                ResponseItem::FunctionCallOutput { output, .. } => {
                    if !protected[i] {
                        if let Some(region) = region_of_output(output, i) {
                            plan.push(region);
                            assert(plan.deep_view() == plan_before.push(region.deep_view()));
                        }
                    }
                },
                ResponseItem::CustomToolCallOutput { output, .. } => {
                    if !protected[i] {
                        if let Some(region) = region_of_output(output, i) {
                            plan.push(region);
                            assert(plan.deep_view() == plan_before.push(region.deep_view()));
                        }
                    }
                },
                ResponseItem::Message { role, content, .. } => {
                    push_message_regions(i, role, content, &mut found);
                },
                _ => {},
            }
        }
        i = i + 1;
        assert(found_before + Seq::<ElideRegionView>::empty() == found_before);
    }
    let ghost tools = plan.deep_view();
    let ghost all_blocks = found.deep_view();
    assert(tools + all_blocks.skip(all_blocks.len() as int).reverse() == tools);
    while found.len() > 0
        invariant
            found@.len() <= all_blocks.len(),
            found.deep_view() == all_blocks.take(found@.len() as int),
            plan.deep_view() == tools + all_blocks.skip(found@.len() as int).reverse(),
        decreases found@.len(),
    {
        let ghost n = found@.len() as int;
        let ghost before = plan.deep_view();
        if let Some(region) = found.pop() {
            let ghost view = region.deep_view();
            assert(view == all_blocks[n - 1]) by {
                assert(all_blocks.take(n)[n - 1] == all_blocks[n - 1]);
            }
            plan.push(region);
            assert(plan.deep_view() == before.push(view));
            assert(found.deep_view() == all_blocks.take(n - 1));
            assert(all_blocks.skip(n - 1).reverse() == all_blocks.skip(n).reverse().push(view));
        }
    }
    assert(all_blocks.skip(0) == all_blocks);
    plan
}

/// A message part with another text; a part without text is kept.
pub open spec fn with_part_text(part: ContentItemView, content: Seq<char>) -> ContentItemView {
    match part {
        ContentItemView::InputText { .. } => ContentItemView::InputText { text: content },
        ContentItemView::OutputText { .. } => ContentItemView::OutputText { text: content },
        other => other,
    }
}

/// A text with `span` replaced.
pub open spec fn splice(content: Seq<char>, span: (int, int), by: Seq<char>) -> Seq<char> {
    content.take(span.0) + by + content.skip(span.1)
}

/// The region names a place that exists: a tool output, or characters of a
/// message text.
pub open spec fn region_fits(items: Seq<ResponseItemEnvelopeView>, region: ElideRegionView) -> bool {
    &&& 0 <= region.item < items.len()
    &&& match region.block {
        None => output_of(items[region.item].item) is Some,
        Some(BlockPlaceView { part, span }) => match items[region.item].item {
            ResponseItemView::Message { content, .. } => {
                &&& 0 <= part < content.len()
                &&& part_text(content[part]) is Some
                &&& 0 <= span.0 <= span.1 <= part_text(content[part])->0.len()
            },
            _ => false,
        },
    }
}

/// An item with the region replaced by a placeholder.
pub open spec fn elided_item(
    item: ResponseItemView,
    block: Option<BlockPlaceView>,
    placeholder: Seq<char>,
) -> ResponseItemView {
    match (item, block) {
        (
            ResponseItemView::FunctionCallOutput {
                id,
                call_id,
                name,
                namespace,
                output,
                internal_chat_message_metadata_passthrough,
            },
            None,
        ) => ResponseItemView::FunctionCallOutput {
            id,
            call_id,
            name,
            namespace,
            output: elided_payload(output, placeholder),
            internal_chat_message_metadata_passthrough,
        },
        (
            ResponseItemView::CustomToolCallOutput {
                id,
                call_id,
                name,
                output,
                internal_chat_message_metadata_passthrough,
            },
            None,
        ) => ResponseItemView::CustomToolCallOutput {
            id,
            call_id,
            name,
            output: elided_payload(output, placeholder),
            internal_chat_message_metadata_passthrough,
        },
        (
            ResponseItemView::Message {
                id,
                role,
                content,
                phase,
                internal_chat_message_metadata_passthrough,
            },
            Some(BlockPlaceView { part, span }),
        ) => ResponseItemView::Message {
            id,
            role,
            content: content.update(
                part,
                with_part_text(
                    content[part],
                    splice(part_text(content[part])->0, span, placeholder),
                ),
            ),
            phase,
            internal_chat_message_metadata_passthrough,
        },
        _ => item,
    }
}

/// The history behind one region: replaced where it was saved at `path`, and
/// as before where it was not.
pub open spec fn apply_region(
    items: Seq<ResponseItemEnvelopeView>,
    region: ElideRegionView,
    path: Option<Seq<char>>,
) -> Seq<ResponseItemEnvelopeView> {
    match path {
        Some(path) if region_fits(items, region) => items.update(
            region.item,
            ResponseItemEnvelopeView {
                item: elided_item(
                    items[region.item].item,
                    region.block,
                    recovery::placeholder_text(region.tokens, region.label, path),
                ),
                metadata: items[region.item].metadata,
            },
        ),
        _ => items,
    }
}

/// The history behind the first `n` regions.
pub open spec fn apply_regions(
    items: Seq<ResponseItemEnvelopeView>,
    regions: Seq<ElideRegionView>,
    paths: Seq<Option<Seq<char>>>,
    n: int,
) -> Seq<ResponseItemEnvelopeView>
    decreases n,
{
    if n <= 0 {
        items
    } else {
        apply_region(apply_regions(items, regions, paths, n - 1), regions[n - 1], paths[n - 1])
    }
}

/// Region `k` is replaced.
pub open spec fn is_replaced(
    items: Seq<ResponseItemEnvelopeView>,
    regions: Seq<ElideRegionView>,
    paths: Seq<Option<Seq<char>>>,
    k: int,
) -> bool {
    paths[k] is Some && region_fits(apply_regions(items, regions, paths, k), regions[k])
}

/// How many of the first `n` regions are replaced, tool outputs or blocks.
pub open spec fn count_replaced(
    items: Seq<ResponseItemEnvelopeView>,
    regions: Seq<ElideRegionView>,
    paths: Seq<Option<Seq<char>>>,
    blocks: bool,
    n: int,
) -> nat
    decreases n,
{
    if n <= 0 {
        0
    } else {
        count_replaced(items, regions, paths, blocks, n - 1) + if is_replaced(
            items,
            regions,
            paths,
            n - 1,
        ) && (regions[n - 1].block is Some) == blocks {
            1nat
        } else {
            0nat
        }
    }
}

/// The tokens that replacing the first `n` regions frees.
pub open spec fn total_freed(
    items: Seq<ResponseItemEnvelopeView>,
    regions: Seq<ElideRegionView>,
    paths: Seq<Option<Seq<char>>>,
    n: int,
) -> nat
    decreases n,
{
    if n <= 0 {
        0
    } else {
        total_freed(items, regions, paths, n - 1) + if is_replaced(items, regions, paths, n - 1) {
            freed_tokens(
                regions[n - 1].tokens,
                recovery::placeholder_text(
                    regions[n - 1].tokens,
                    regions[n - 1].label,
                    paths[n - 1]->0,
                ),
            )
        } else {
            0
        }
    }
}

/// What an elision reports.
pub open spec fn is_elision_result(
    result: ShakeResult,
    items: Seq<ResponseItemEnvelopeView>,
    regions: Seq<ElideRegionView>,
    paths: Seq<Option<Seq<char>>>,
) -> bool {
    let n = regions.len() as int;
    &&& result.tool_outputs_elided == count_replaced(items, regions, paths, false, n)
    &&& result.blocks_elided == count_replaced(items, regions, paths, true, n)
    &&& result.images_dropped == 0
    &&& result.thinking_dropped == 0
    &&& result.tokens_freed == if total_freed(items, regions, paths, n) > i64::MAX {
        i64::MAX as int
    } else {
        total_freed(items, regions, paths, n) as int
    }
}

/// A text with `span` replaced.
fn spliced(content: &str, span: blocks::Span, by: &str) -> (r: Option<String>)
    ensures
        match r {
            Some(r) => span.start <= span.end <= content@.len() && r@ == splice(
                content@,
                blocks::span_view(span),
                by@,
            ),
            None => !(span.start <= span.end <= content@.len()),
        },
{
    let chars = text::chars_of(content);
    if span.start > span.end || span.end > chars.len() {
        return None;
    }
    let mut r = text::string_of(vstd::slice::slice_subrange(chars.as_slice(), 0, span.start));
    r.append(by);
    let tail = text::string_of(
        vstd::slice::slice_subrange(chars.as_slice(), span.end, chars.len()),
    );
    r.append(tail.as_str());
    assert(r@ == splice(content@, blocks::span_view(span), by@));
    Some(r)
}

/// Replaces one region of an item. Returns whether the region was there.
fn replace_region(item: &mut ResponseItem, block: Option<BlockPlace>, placeholder: &str) -> (fits:
    bool)
    ensures
        fits == match block {
            None => output_of(old(item).deep_view()) is Some,
            Some(place) => match old(item).deep_view() {
                ResponseItemView::Message { content, .. } => {
                    &&& place.part < content.len()
                    &&& part_text(content[place.part as int]) is Some
                    &&& place.span.start <= place.span.end <= part_text(
                        content[place.part as int],
                    )->0.len()
                },
                _ => false,
            },
        },
        fits ==> final(item).deep_view() == elided_item(
            old(item).deep_view(),
            match block {
                Some(place) => Some(place.place_view()),
                None => None,
            },
            placeholder@,
        ),
        !fits ==> final(item).deep_view() == old(item).deep_view(),
{
    match block {
        None => match item {
            ResponseItem::FunctionCallOutput { output, .. } => {
                elide_tool_output(output, placeholder);
                true
            },
            ResponseItem::CustomToolCallOutput { output, .. } => {
                elide_tool_output(output, placeholder);
                true
            },
            _ => false,
        },
        Some(place) => match item {
            ResponseItem::Message { content, .. } => replace_block(content, place, placeholder),
            _ => false,
        },
    }
}

/// Replaces one block of a message. Returns whether the block was there.
fn replace_block(content: &mut Vec<ContentItem>, place: BlockPlace, placeholder: &str) -> (fits:
    bool)
    ensures
        fits == ({
            &&& place.part < old(content)@.len()
            &&& part_text(old(content).deep_view()[place.part as int]) is Some
            &&& place.span.start <= place.span.end <= part_text(
                old(content).deep_view()[place.part as int],
            )->0.len()
        }),
        fits ==> final(content).deep_view() == old(content).deep_view().update(
            place.part as int,
            with_part_text(
                old(content).deep_view()[place.part as int],
                splice(
                    part_text(old(content).deep_view()[place.part as int])->0,
                    blocks::span_view(place.span),
                    placeholder@,
                ),
            ),
        ),
        !fits ==> final(content).deep_view() == old(content).deep_view(),
{
    if place.part >= content.len() {
        return false;
    }
    let ghost before = content.deep_view();
    assert(before[place.part as int] == content@[place.part as int].deep_view());
    let replaced: Option<ContentItem> = match &content[place.part] {
        ContentItem::InputText { text } => match spliced(text.as_str(), place.span, placeholder) {
            Some(text) => Some(ContentItem::InputText { text }),
            None => None,
        },
        ContentItem::OutputText { text } => match spliced(text.as_str(), place.span, placeholder) {
            Some(text) => Some(ContentItem::OutputText { text }),
            None => None,
        },
        _ => None,
    };
    match replaced {
        Some(part) => {
            let ghost view = part.deep_view();
            content.set(place.part, part);
            assert(content.deep_view() == before.update(place.part as int, view));
            true
        },
        None => false,
    }
}

/// Replaces the regions that were saved, in the order of the plan.
pub fn apply_saved_regions(
    items: &mut Vec<ResponseItemEnvelope>,
    regions: &Vec<ElideRegion>,
    paths: &Vec<Option<String>>,
) -> (result: ShakeResult)
    requires
        regions@.len() == paths@.len(),
    ensures
        final(items).deep_view() == apply_regions(
            old(items).deep_view(),
            regions.deep_view(),
            paths.deep_view(),
            regions@.len() as int,
        ),
        is_elision_result(
            result,
            old(items).deep_view(),
            regions.deep_view(),
            paths.deep_view(),
        ),
{
    let ghost start = items.deep_view();
    let ghost rv = regions.deep_view();
    let ghost pv = paths.deep_view();
    let mut tool_outputs_elided: usize = 0;
    let mut blocks_elided: usize = 0;
    let mut tokens_freed: i64 = 0;
    let mut k: usize = 0;
    while k < regions.len()
        invariant
            k <= regions@.len(),
            regions@.len() == paths@.len(),
            rv == regions.deep_view(),
            pv == paths.deep_view(),
            items.deep_view() == apply_regions(start, rv, pv, k as int),
            tool_outputs_elided == count_replaced(start, rv, pv, false, k as int),
            blocks_elided == count_replaced(start, rv, pv, true, k as int),
            tool_outputs_elided <= k,
            blocks_elided <= k,
            tokens_freed == if total_freed(start, rv, pv, k as int) > i64::MAX {
                i64::MAX as int
            } else {
                total_freed(start, rv, pv, k as int) as int
            },
        decreases regions@.len() - k,
    {
        let region = &regions[k];
        let ghost now = items.deep_view();
        assert(rv[k as int] == region.deep_view());
        assert(pv[k as int] == paths@[k as int].deep_view());
        if let Some(path) = &paths[k] {
            if region.item < items.len() {
                let placeholder = recovery::placeholder_for(
                    region.tokens,
                    region.label.as_str(),
                    path.as_str(),
                );
                let at = region.item;
                let ghost old_item = items@[at as int];
                assert(now[at as int] == old_item.deep_view());
                let fits = replace_region(&mut items[at].item, region.block, placeholder.as_str());
                assert(items.deep_view() == now.update(
                    at as int,
                    items@[at as int].deep_view(),
                ));
                if fits {
                    let freed = region.tokens.saturating_sub(
                        sizes::approx_token_count(placeholder.as_str()),
                    );
                    tokens_freed = add_freed(tokens_freed, freed);
                    if region.block.is_some() {
                        blocks_elided = blocks_elided + 1;
                    } else {
                        tool_outputs_elided = tool_outputs_elided + 1;
                    }
                } else {
                    assert(items.deep_view() == now);
                }
            }
        }
        k = k + 1;
    }
    ShakeResult {
        tool_outputs_elided,
        blocks_elided,
        images_dropped: 0,
        thinking_dropped: 0,
        tokens_freed,
    }
}

/// The sum of two counts of freed tokens, capped at the largest number.
fn add_freed(total: i64, freed: usize) -> (sum: i64)
    requires
        total >= 0,
    ensures
        sum == if total + freed > i64::MAX {
            i64::MAX as int
        } else {
            total + freed
        },
{
    let freed: u64 = freed as u64;
    let room: u64 = (i64::MAX - total) as u64;
    if freed > room {
        i64::MAX
    } else {
        total + freed as i64
    }
}

/// `save`, called on the region, may have returned `path`.
pub open spec fn saved_by<F: Fn(&str, &str) -> Option<String>>(
    save: F,
    region: ElideRegionView,
    path: Option<Seq<char>>,
) -> bool {
    exists|content: &str, label: &str, saved: Option<String>|
        content@ == region.content && label@ == region.label && saved.deep_view() == path
            && #[trigger] call_ensures(save, (content, label), saved)
}

/// `save` may be called on the region.
pub open spec fn admits<F: Fn(&str, &str) -> Option<String>>(
    save: F,
    region: ElideRegionView,
) -> bool {
    forall|content: &str, label: &str|
        content@ == region.content && label@ == region.label ==> #[trigger] call_requires(
            save,
            (content, label),
        )
}

/// Replaces the old and large regions of a history, each behind a call of
/// `save` with the region's text and label. A call that returns `None` leaves
/// its region as it is; one that returns a path puts a placeholder with that
/// path in the region's place. No other text is ever handed to `save`: it need
/// not take any.
///
/// The items whose followers hold fewer than `protect_tokens` tokens are never
/// touched.
pub fn shake_elide_with_recovery<F: Fn(&str, &str) -> Option<String>>(
    items: &mut Vec<ResponseItemEnvelope>,
    protect_tokens: usize,
    save: &F,
) -> (result: ShakeResult)
    requires
        forall|k: int|
            0 <= k < elision_plan(old(items).deep_view(), protect_tokens as nat).len() ==> admits(
                *save,
                #[trigger] elision_plan(old(items).deep_view(), protect_tokens as nat)[k],
            ),
    ensures
        exists|paths: Seq<Option<Seq<char>>>|
            #![trigger apply_regions(
                old(items).deep_view(),
                elision_plan(old(items).deep_view(), protect_tokens as nat),
                paths,
                elision_plan(old(items).deep_view(), protect_tokens as nat).len() as int,
            )]
            {
                let plan = elision_plan(old(items).deep_view(), protect_tokens as nat);
                &&& paths.len() == plan.len()
                &&& forall|k: int|
                    0 <= k < plan.len() ==> saved_by(*save, plan[k], #[trigger] paths[k])
                &&& final(items).deep_view() == apply_regions(
                    old(items).deep_view(),
                    plan,
                    paths,
                    plan.len() as int,
                )
                &&& is_elision_result(result, old(items).deep_view(), plan, paths)
            },
{
    let plan = plan_elision(items.as_slice(), protect_tokens);
    let mut paths: Vec<Option<String>> = Vec::new();
    let ghost views = plan.deep_view();
    assert(views == elision_plan(old(items).deep_view(), protect_tokens as nat));
    let mut k: usize = 0;
    while k < plan.len()
        invariant
            k <= plan@.len(),
            views == plan.deep_view(),
            paths@.len() == k,
            forall|j: int| 0 <= j < views.len() ==> admits(*save, #[trigger] views[j]),
            forall|j: int|
                0 <= j < k ==> saved_by(*save, views[j], #[trigger] paths.deep_view()[j]),
        decreases plan@.len() - k,
    {
        let ghost before = paths.deep_view();
        let content = plan[k].content.as_str();
        let label = plan[k].label.as_str();
        proof {
            assert(views[k as int] == plan@[k as int].deep_view());
            assert(admits(*save, views[k as int]));
        }
        let saved = save(content, label);
        proof {
            assert(call_ensures(*save, (content, label), saved));
            assert(saved_by(*save, views[k as int], saved.deep_view()));
        }
        let ghost path = saved.deep_view();
        paths.push(saved);
        assert(paths.deep_view() == before.push(path));
        k = k + 1;
    }
    apply_saved_regions(items, &plan, &paths)
}

} // verus!
