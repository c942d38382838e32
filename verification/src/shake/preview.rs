//! Measuring a shake without doing it.
//!
//! A preview runs the real transformation on a copy of the history. Nothing is
//! saved: the placeholders name files that are never written, with paths as
//! long as the real ones.

use sha1::Digest;
use vstd::prelude::*;
use vstd::string::*;

use crate::artifacts;
use crate::artifacts::ArtifactStore;
use crate::items;
use crate::items::ResponseItem;
use crate::items::ResponseItemEnvelope;
use crate::items::ResponseItemEnvelopeView;
use crate::items::ResponseItemView;
use crate::shake::elide;
use crate::shake::elide::ElideRegion;
use crate::shake::elide::ElideRegionView;
use crate::shake::strip;
use crate::shake::ShakeMode;
use crate::shake::ShakeResult;
use crate::text;

verus! {

/// What a shake would do, for the operator to confirm.
#[derive(Debug, PartialEq, Eq)]
pub struct ShakePreview {
    /// Identifies the history and the mode that were measured.
    pub fingerprint: String,
    /// The estimated tokens of the conversation.
    pub tokens_before: i64,
    /// The estimated tokens that the shake would leave.
    pub tokens_after: i64,
    pub tool_outputs: u32,
    pub text_blocks: u32,
    pub images: u32,
    pub thinking_blocks: u32,
    /// Why the mode cannot be applied to the thread, if it cannot.
    pub unavailable_reason: Option<String>,
}

/// The measure of a shake.
#[derive(Debug, PartialEq, Eq)]
pub struct ShakeEstimate {
    pub result: ShakeResult,
    pub tokens_before: i64,
    pub tokens_after: i64,
    pub unavailable_reason: Option<String>,
}

/// Why there is no preview.
#[derive(Clone, Copy, Debug, PartialEq, Eq, Structural)]
pub enum PreviewError {
    /// A turn is in progress.
    TurnInProgress,
    /// A count does not fit the preview.
    CountTooLarge,
}

impl PreviewError {
    /// The error in words.
    pub fn message(self) -> (message: &'static str)
        ensures
            message@ == match self {
                PreviewError::TurnInProgress => {
                    "Cannot preview shake while a turn is in progress."@
                },
                PreviewError::CountTooLarge => {
                    "out of range integral type conversion attempted"@
                },
            },
    {
        match self {
            PreviewError::TurnInProgress => "Cannot preview shake while a turn is in progress.",
            PreviewError::CountTooLarge => "out of range integral type conversion attempted",
        }
    }
}

/// The id that stands in for a real one: as long as any.
pub open spec fn stand_in_id() -> Seq<char> {
    "00000000000000000000000000000000"@
}

/// The path that a preview puts in a region's placeholder: the file that the
/// region would be saved to, or none where it is too large to be saved.
pub open spec fn preview_path(root: Seq<char>, region: ElideRegionView) -> Option<Seq<char>> {
    if text::byte_len(region.content) <= artifacts::MAX_ARTIFACT_BYTES {
        Some(artifacts::path_join(root, artifacts::artifact_file(stand_in_id(), region.label)))
    } else {
        None
    }
}

/// The paths of a whole plan.
pub open spec fn preview_paths(root: Seq<char>, plan: Seq<ElideRegionView>) -> Seq<
    Option<Seq<char>>,
> {
    plan.map_values(|region: ElideRegionView| preview_path(root, region))
}

/// A mode that cannot be applied, because nothing could be recovered.
pub open spec fn is_unavailable(mode: ShakeMode, persistent_thread: bool) -> bool {
    !persistent_thread && (mode is Elide || mode is SmartCompact)
}

/// The history behind a previewed shake.
pub open spec fn previewed_history(
    items: Seq<ResponseItemEnvelopeView>,
    mode: ShakeMode,
    protect_tokens: nat,
    persistent_thread: bool,
    root: Seq<char>,
) -> Seq<ResponseItemEnvelopeView> {
    if is_unavailable(mode, persistent_thread) {
        items
    } else {
        match mode {
            ShakeMode::Elide | ShakeMode::SmartCompact => {
                let plan = elide::elision_plan(items, protect_tokens);
                elide::apply_regions(
                    items,
                    plan,
                    preview_paths(root, plan),
                    plan.len() as int,
                )
            },
            ShakeMode::Images => strip::history_without_images(items),
            ShakeMode::Thinking => strip::history_without_reasoning(items),
        }
    }
}

/// The result of a previewed shake.
pub open spec fn is_previewed_result(
    result: ShakeResult,
    items: Seq<ResponseItemEnvelopeView>,
    mode: ShakeMode,
    protect_tokens: nat,
    persistent_thread: bool,
    root: Seq<char>,
) -> bool {
    let nothing = ShakeResult {
        tool_outputs_elided: 0,
        blocks_elided: 0,
        images_dropped: 0,
        thinking_dropped: 0,
        tokens_freed: 0,
    };
    if is_unavailable(mode, persistent_thread) {
        result == nothing
    } else {
        match mode {
            ShakeMode::Elide | ShakeMode::SmartCompact => {
                let plan = elide::elision_plan(items, protect_tokens);
                elide::is_elision_result(result, items, plan, preview_paths(root, plan))
            },
            ShakeMode::Images => result == (ShakeResult {
                images_dropped: text::capped(strip::history_images(items)) as usize,
                ..nothing
            }),
            ShakeMode::Thinking => result == (ShakeResult {
                thinking_dropped: (items.len() - strip::history_without_reasoning(
                    items,
                ).len()) as usize,
                ..nothing
            }),
        }
    }
}

/// The sum of two token counts, kept inside the range of a count.
pub open spec fn saturating_sum(a: int, b: int) -> int {
    if a + b > i64::MAX {
        i64::MAX as int
    } else if a + b < i64::MIN {
        i64::MIN as int
    } else {
        a + b
    }
}

/// The sum of a list of token counts.
pub open spec fn sum_tokens(counts: Seq<i64>) -> int
    decreases counts.len(),
{
    if counts.len() == 0 {
        0
    } else {
        saturating_sum(sum_tokens(counts.drop_last()), counts.last() as int)
    }
}

/// `estimate` may have given `count` for an item.
pub open spec fn estimated_by<E: Fn(&ResponseItem) -> i64>(
    estimate: E,
    item: ResponseItemView,
    count: i64,
) -> bool {
    exists|it: &ResponseItem|
        it.deep_view() == item && #[trigger] call_ensures(estimate, (it,), count)
}

/// `total` is the sum of what `estimate` gave for each item.
pub open spec fn is_total_estimate<E: Fn(&ResponseItem) -> i64>(
    estimate: E,
    items: Seq<ResponseItemEnvelopeView>,
    total: i64,
) -> bool {
    exists|counts: Seq<i64>|
        #![trigger sum_tokens(counts)]
        counts.len() == items.len() && total == sum_tokens(counts) && forall|i: int|
            0 <= i < items.len() ==> estimated_by(estimate, items[i].item, #[trigger] counts[i])
}

/// The sum of two token counts, kept inside the range of a count.
pub fn add_tokens(a: i64, b: i64) -> (sum: i64)
    ensures
        sum == saturating_sum(a as int, b as int),
{
    match a.checked_add(b) {
        Some(sum) => sum,
        None => if b > 0 {
            i64::MAX
        } else {
            i64::MIN
        },
    }
}

/// The sum of the token estimates of a history.
pub fn sum_item_tokens<E: Fn(&ResponseItem) -> i64>(
    items: &[ResponseItemEnvelope],
    estimate: &E,
) -> (total: i64)
    requires
        forall|item: &ResponseItem| call_requires(*estimate, (item,)),
    ensures
        is_total_estimate(*estimate, items.deep_view(), total),
{
    let mut total: i64 = 0;
    let ghost mut counts: Seq<i64> = Seq::empty();
    let mut i: usize = 0;
    while i < items.len()
        invariant
            i <= items@.len(),
            counts.len() == i,
            total == sum_tokens(counts),
            forall|item: &ResponseItem| call_requires(*estimate, (item,)),
            forall|k: int|
                0 <= k < i ==> estimated_by(
                    *estimate,
                    items.deep_view()[k].item,
                    #[trigger] counts[k],
                ),
        decreases items@.len() - i,
    {
        let item = &items[i].item;
        let count = estimate(item);
        proof {
            assert(call_ensures(*estimate, (item,), count));
            assert(items.deep_view()[i as int] == items@[i as int].deep_view());
            assert(estimated_by(*estimate, items.deep_view()[i as int].item, count));
            assert(counts.push(count).drop_last() == counts);
            counts = counts.push(count);
        }
        total = add_tokens(total, count);
        i = i + 1;
    }
    total
}

/// Computes [`preview_paths`].
fn paths_for_preview(store: &ArtifactStore, plan: &Vec<ElideRegion>) -> (paths: Vec<Option<String>>)
    ensures
        paths.deep_view() == preview_paths(store.root@, plan.deep_view()),
        paths@.len() == plan@.len(),
{
    let ghost views = plan.deep_view();
    let ghost root = store.root@;
    let mut paths: Vec<Option<String>> = Vec::new();
    let mut k: usize = 0;
    while k < plan.len()
        invariant
            k <= plan@.len(),
            views == plan.deep_view(),
            root == store.root@,
            paths@.len() == k,
            paths.deep_view() == preview_paths(root, views.take(k as int)),
        decreases plan@.len() - k,
    {
        let region = &plan[k];
        assert(views[k as int] == region.deep_view());
        let path: Option<String> = if text::text_bytes(region.content.as_str()) as u64
            <= artifacts::MAX_ARTIFACT_BYTES {
            Some(
                store.destination_path("00000000000000000000000000000000", region.label.as_str()),
            )
        } else {
            None
        };
        let ghost before = paths.deep_view();
        let ghost view = path.deep_view();
        paths.push(path);
        proof {
            assert(paths.deep_view() == before.push(view));
            assert(view == preview_path(root, views[k as int]));
            assert(preview_paths(root, views.take(k + 1)) == preview_paths(
                root,
                views.take(k as int),
            ).push(view));
        }
        k = k + 1;
    }
    assert(views.take(k as int) == views);
    paths
}

/// Why an elision is not available.
pub open spec fn unavailable_text() -> Seq<char> {
    "Elide requires a persistent thread so removed text can be recovered."@
}

/// Measures a shake on a copy of the history, without writing any artifact.
/// `estimate` gives the tokens of one item.
pub fn estimate_shake<E: Fn(&ResponseItem) -> i64>(
    history: &[ResponseItemEnvelope],
    mode: ShakeMode,
    protect_tokens: usize,
    persistent_thread: bool,
    store: &ArtifactStore,
    estimate: &E,
) -> (measured: ShakeEstimate)
    requires
        forall|item: &ResponseItem| call_requires(*estimate, (item,)),
    ensures
        is_previewed_result(
            measured.result,
            history.deep_view(),
            mode,
            protect_tokens as nat,
            persistent_thread,
            store.root@,
        ),
        is_total_estimate(*estimate, history.deep_view(), measured.tokens_before),
        is_total_estimate(
            *estimate,
            previewed_history(
                history.deep_view(),
                mode,
                protect_tokens as nat,
                persistent_thread,
                store.root@,
            ),
            measured.tokens_after,
        ),
        measured.unavailable_reason.deep_view() == if is_unavailable(mode, persistent_thread) {
            Some(unavailable_text())
        } else {
            None
        },
{
    let tokens_before = sum_item_tokens(history, estimate);
    let mut reduced = items::duplicate_history(history);
    let is_elision: bool = match mode {
        ShakeMode::Elide | ShakeMode::SmartCompact => true,
        _ => false,
    };
    let mut unavailable_reason: Option<String> = None;
    let result: ShakeResult = if !persistent_thread && is_elision {
        unavailable_reason = Some(
            "Elide requires a persistent thread so removed text can be recovered.".to_owned(),
        );
        ShakeResult::default()
    } else {
        match mode {
            ShakeMode::Elide | ShakeMode::SmartCompact => {
                let plan = elide::plan_elision(reduced.as_slice(), protect_tokens);
                let paths = paths_for_preview(store, &plan);
                elide::apply_saved_regions(&mut reduced, &plan, &paths)
            },
            ShakeMode::Images => strip::shake_images(&mut reduced),
            ShakeMode::Thinking => strip::shake_thinking(&mut reduced),
        }
    };
    let tokens_after = sum_item_tokens(reduced.as_slice(), estimate);
    ShakeEstimate { result, tokens_before, tokens_after, unavailable_reason }
}

/// The SHA-1 digest of some bytes, in hexadecimal digits.
pub uninterp spec fn sha1_hex(bytes: Seq<u8>) -> Seq<char>;

/// `sha1::Sha1::digest` hashes the bytes; the digest is written in lower-case
/// hexadecimal digits. Feeding a `Sha1` piece by piece gives the digest of the
/// pieces in a row.
#[verifier::external_body]
fn sha1_digest(bytes: &[u8]) -> (hex: String)
    ensures
        hex@ == sha1_hex(bytes@),
{
    format!("{:x}", sha1::Sha1::digest(bytes))
}

/// The serialized items in a row.
pub open spec fn concat_bytes(parts: Seq<Seq<u8>>) -> Seq<u8>
    decreases parts.len(),
{
    if parts.len() == 0 {
        Seq::empty()
    } else {
        concat_bytes(parts.drop_last()) + parts.last()
    }
}

/// What a fingerprint is made from: the mode, the context of a smart
/// compaction, and the serialized items.
pub open spec fn fingerprint_input(
    items: Seq<Seq<u8>>,
    mode: ShakeMode,
    smart_context: Option<Seq<char>>,
) -> Seq<u8> {
    let head = vstd::utf8::encode_utf8(crate::shake::mode_name(mode));
    let context = match smart_context {
        Some(context) => vstd::utf8::encode_utf8("smartCompact-context"@)
            + vstd::utf8::encode_utf8(context),
        None => Seq::empty(),
    };
    head + context + concat_bytes(items)
}

fn push_bytes(out: &mut Vec<u8>, bytes: &[u8])
    ensures
        final(out)@ == old(out)@ + bytes@,
{
    let ghost before = out@;
    let mut i: usize = 0;
    while i < bytes.len()
        invariant
            i <= bytes@.len(),
            out@ == before + bytes@.take(i as int),
        decreases bytes@.len() - i,
    {
        out.push(bytes[i]);
        i = i + 1;
        assert(bytes@.take(i as int) == bytes@.take(i - 1).push(bytes@[i - 1]));
    }
    assert(bytes@.take(i as int) == bytes@);
}

/// The bytes that a fingerprint is made from.
pub fn fingerprint_bytes(items: &Vec<Vec<u8>>, mode: ShakeMode, smart_context: Option<&str>) -> (
bytes: Vec<u8>)
    ensures
        bytes@ == fingerprint_input(
            items@.map_values(|item: Vec<u8>| item@),
            mode,
            match smart_context {
                Some(context) => Some(context@),
                None => None,
            },
        ),
{
    let mut bytes: Vec<u8> = Vec::new();
    push_bytes(&mut bytes, mode.as_str().as_bytes());
    let ghost head = vstd::utf8::encode_utf8(crate::shake::mode_name(mode));
    assert(bytes@ == head + Seq::<u8>::empty());
    if let Some(context) = smart_context {
        push_bytes(&mut bytes, "smartCompact-context".as_bytes());
        push_bytes(&mut bytes, context.as_bytes());
        assert(bytes@ == head + (vstd::utf8::encode_utf8("smartCompact-context"@)
            + vstd::utf8::encode_utf8(context@)));
    }
    let ghost front = bytes@;
    let ghost parts = items@.map_values(|item: Vec<u8>| item@);
    let mut i: usize = 0;
    while i < items.len()
        invariant
            i <= items@.len(),
            parts == items@.map_values(|item: Vec<u8>| item@),
            bytes@ == front + concat_bytes(parts.take(i as int)),
        decreases items@.len() - i,
    {
        push_bytes(&mut bytes, items[i].as_slice());
        assert(parts.take(i + 1).drop_last() == parts.take(i as int));
        i = i + 1;
        assert(bytes@ == front + concat_bytes(parts.take(i as int)));
    }
    assert(parts.take(i as int) == parts);
    bytes
}

/// Identifies a history, a mode and the context of a smart compaction, so that
/// a confirmation can be told from a stale one. The items come in their
/// serialized form.
pub fn fingerprint(items: &Vec<Vec<u8>>, mode: ShakeMode, smart_context: Option<&str>) -> (
print: String)
    ensures
        print@ == sha1_hex(
            fingerprint_input(
                items@.map_values(|item: Vec<u8>| item@),
                mode,
                match smart_context {
                    Some(context) => Some(context@),
                    None => None,
                },
            ),
        ),
{
    let bytes = fingerprint_bytes(items, mode, smart_context);
    sha1_digest(bytes.as_slice())
}

/// The context that a smart compaction is bound to: the model and the provider.
pub fn smart_context(mode: ShakeMode, model_slug: &str, provider_name: &str) -> (context: Option<
    String,
>)
    ensures
        context.deep_view() == if mode is SmartCompact {
            Some(model_slug@ + "|"@ + provider_name@)
        } else {
            None
        },
{
    match mode {
        ShakeMode::SmartCompact => {
            let mut context = model_slug.to_owned();
            context.append("|");
            context.append(provider_name);
            Some(context)
        },
        _ => None,
    }
}

/// The counts of a result all fit a preview.
pub open spec fn fits_preview(result: ShakeResult) -> bool {
    &&& result.tool_outputs_elided <= u32::MAX
    &&& result.blocks_elided <= u32::MAX
    &&& result.images_dropped <= u32::MAX
    &&& result.thinking_dropped <= u32::MAX
}

/// The preview that a measure makes. There is none while a turn is in progress,
/// and none where a count does not fit.
pub fn preview_shake(turn_in_progress: bool, measured: ShakeEstimate, print: String) -> (preview:
    Result<ShakePreview, PreviewError>)
    ensures
        match preview {
            Err(PreviewError::TurnInProgress) => turn_in_progress,
            Err(PreviewError::CountTooLarge) => !turn_in_progress && !fits_preview(measured.result),
            Ok(p) => {
                &&& !turn_in_progress
                &&& fits_preview(measured.result)
                &&& p == (ShakePreview {
                    fingerprint: print,
                    tokens_before: measured.tokens_before,
                    tokens_after: measured.tokens_after,
                    tool_outputs: measured.result.tool_outputs_elided as u32,
                    text_blocks: measured.result.blocks_elided as u32,
                    images: measured.result.images_dropped as u32,
                    thinking_blocks: measured.result.thinking_dropped as u32,
                    unavailable_reason: measured.unavailable_reason,
                })
            },
        },
{
    if turn_in_progress {
        return Err(PreviewError::TurnInProgress);
    }
    let result = measured.result;
    let largest: u64 = u32::MAX as u64;
    if result.tool_outputs_elided as u64 > largest || result.blocks_elided as u64 > largest
        || result.images_dropped as u64 > largest || result.thinking_dropped as u64 > largest {
        return Err(PreviewError::CountTooLarge);
    }
    Ok(
        ShakePreview {
            fingerprint: print,
            tokens_before: measured.tokens_before,
            tokens_after: measured.tokens_after,
            tool_outputs: result.tool_outputs_elided as u32,
            text_blocks: result.blocks_elided as u32,
            images: result.images_dropped as u32,
            thinking_blocks: result.thinking_dropped as u32,
            unavailable_reason: measured.unavailable_reason,
        },
    )
}

/// The digest covers the context of a handoff: another context gives other bytes
/// to digest, though the history and the mode are the same.
pub proof fn law_fingerprints_bind_the_context(
    items: Seq<Seq<u8>>,
    mode: ShakeMode,
    context: Seq<char>,
    other: Seq<char>,
)
    requires
        context != other,
    ensures
        fingerprint_input(items, mode, Some(context)) != fingerprint_input(
            items,
            mode,
            Some(other),
        ),
{
    let left = fingerprint_input(items, mode, Some(context));
    let right = fingerprint_input(items, mode, Some(other));
    if left == right {
        let head = vstd::utf8::encode_utf8(crate::shake::mode_name(mode));
        let mark = vstd::utf8::encode_utf8("smartCompact-context"@);
        let a = vstd::utf8::encode_utf8(context);
        let b = vstd::utf8::encode_utf8(other);
        let start = (head.len() + mark.len()) as int;
        assert(left.len() == start + a.len() + concat_bytes(items).len());
        assert(right.len() == start + b.len() + concat_bytes(items).len());
        assert(left.subrange(start, start + a.len()) =~= a);
        assert(right.subrange(start, start + b.len()) =~= b);
        vstd::utf8::encode_utf8_decode_utf8(context);
        vstd::utf8::encode_utf8_decode_utf8(other);
    }
}

/// The digest covers the mode: another mode gives other bytes to digest, whatever
/// the history and the context are.
pub proof fn law_fingerprints_bind_the_mode(
    items: Seq<Seq<u8>>,
    mode: ShakeMode,
    context: Option<Seq<char>>,
    other_items: Seq<Seq<u8>>,
    other_mode: ShakeMode,
    other_context: Option<Seq<char>>,
)
    requires
        mode != other_mode,
    ensures
        fingerprint_input(items, mode, context) != fingerprint_input(
            other_items,
            other_mode,
            other_context,
        ),
{
    lemma_first_byte(mode);
    lemma_first_byte(other_mode);
    let left = fingerprint_input(items, mode, context);
    let right = fingerprint_input(other_items, other_mode, other_context);
    assert(left[0] == vstd::utf8::encode_utf8(crate::shake::mode_name(mode))[0]);
    assert(right[0] == vstd::utf8::encode_utf8(crate::shake::mode_name(other_mode))[0]);
}

proof fn lemma_first_byte(mode: ShakeMode)
    ensures
        ({
            let bytes = vstd::utf8::encode_utf8(crate::shake::mode_name(mode));
            &&& bytes.len() > 0
            &&& bytes[0] == (match mode {
                ShakeMode::Elide => 101u8,
                ShakeMode::Images => 105u8,
                ShakeMode::Thinking => 116u8,
                ShakeMode::SmartCompact => 115u8,
            })
        }),
{
    reveal_strlit("elide");
    reveal_strlit("images");
    reveal_strlit("thinking");
    reveal_strlit("smartCompact");
    let name = crate::shake::mode_name(mode);
    vstd::utf8::is_ascii_chars_encode_utf8(name);
}

/// A smart compaction takes out what an elision takes out. Where nothing could be
/// recovered neither takes out anything, and the reason is given.
pub proof fn law_previews_of_elisions(
    items: Seq<ResponseItemEnvelopeView>,
    protect_tokens: nat,
    persistent_thread: bool,
    root: Seq<char>,
)
    ensures
        previewed_history(items, ShakeMode::SmartCompact, protect_tokens, persistent_thread, root)
            == previewed_history(items, ShakeMode::Elide, protect_tokens, persistent_thread, root),
        previewed_history(items, ShakeMode::Elide, protect_tokens, false, root) == items,
        is_unavailable(ShakeMode::Elide, false),
        is_unavailable(ShakeMode::SmartCompact, false),
        !is_unavailable(ShakeMode::Images, persistent_thread),
        !is_unavailable(ShakeMode::Thinking, persistent_thread),
        !is_unavailable(ShakeMode::Elide, true),
        !is_unavailable(ShakeMode::SmartCompact, true),
{
}

/// A preview replaces what the elision would replace: every region that can be
/// saved, with the path that it would have but for the digits of its id.
pub proof fn law_previews_replace_what_can_be_saved(
    items: Seq<ResponseItemEnvelopeView>,
    protect_tokens: nat,
    root: Seq<char>,
    k: int,
)
    requires
        0 <= k < elide::elision_plan(items, protect_tokens).len(),
    ensures
        ({
            let plan = elide::elision_plan(items, protect_tokens);
            let paths = preview_paths(root, plan);
            &&& paths.len() == plan.len()
            &&& (paths[k] is Some) == (text::byte_len(plan[k].content) <= 8_388_608)
            &&& paths[k] is Some ==> paths[k] == Some(
                artifacts::path_join(
                    root,
                    "00000000000000000000000000000000"@ + seq!['.'] + artifacts::sanitized(
                        plan[k].label,
                    ) + seq!['.', 'l', 'o', 'g'],
                ),
            )
            &&& previewed_history(items, ShakeMode::Elide, protect_tokens, true, root)
                == elide::apply_regions(items, plan, paths, plan.len() as int)
        }),
{
    reveal_strlit("00000000000000000000000000000000");
    let id = "00000000000000000000000000000000"@;
    assert forall|i: int| 0 <= i < id.len() implies artifacts::is_hex_digit(#[trigger] id[i]) by {}
    artifacts::law_files_are_named_by_their_id(
        id,
        elide::elision_plan(items, protect_tokens)[k].label,
    );
}

/// The tokens of a history are added up item by item, and stay at the limit where
/// they would go beyond it.
pub proof fn law_tokens_are_added_up(counts: Seq<i64>, count: i64)
    ensures
        sum_tokens(Seq::empty()) == 0,
        i64::MIN <= sum_tokens(counts) + count <= i64::MAX ==> sum_tokens(counts.push(count))
            == sum_tokens(counts) + count,
        sum_tokens(counts) + count > i64::MAX ==> sum_tokens(counts.push(count)) == i64::MAX,
        sum_tokens(counts) + count < i64::MIN ==> sum_tokens(counts.push(count)) == i64::MIN,
{
    assert(counts.push(count).drop_last() =~= counts);
}

/// The digest covers every item, in their order: the bytes of a further item come
/// behind all the others. It covers the context of a handoff before them.
pub proof fn law_fingerprints_cover_every_item(
    items: Seq<Seq<u8>>,
    item: Seq<u8>,
    mode: ShakeMode,
    context: Option<Seq<char>>,
)
    ensures
        fingerprint_input(items.push(item), mode, context) == fingerprint_input(
            items,
            mode,
            context,
        ) + item,
        fingerprint_input(Seq::empty(), mode, None) == vstd::utf8::encode_utf8(
            crate::shake::mode_name(mode),
        ),
        context matches Some(words) ==> fingerprint_input(Seq::empty(), mode, context)
            == vstd::utf8::encode_utf8(crate::shake::mode_name(mode))
            + vstd::utf8::encode_utf8("smartCompact-context"@) + vstd::utf8::encode_utf8(words),
{
    assert(items.push(item).drop_last() =~= items);
    assert(concat_bytes(Seq::<Seq<u8>>::empty()) =~= Seq::<u8>::empty());
    let head = vstd::utf8::encode_utf8(crate::shake::mode_name(mode));
    assert(fingerprint_input(items.push(item), mode, context) =~= fingerprint_input(
        items,
        mode,
        context,
    ) + item);
    assert(fingerprint_input(Seq::empty(), mode, None) =~= head);
    if let Some(words) = context {
        assert(fingerprint_input(Seq::empty(), mode, context) =~= head + vstd::utf8::encode_utf8(
            "smartCompact-context"@,
        ) + vstd::utf8::encode_utf8(words));
    }
}

} // verus!
