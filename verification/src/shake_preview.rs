//! Asking the operator before a shake.

use vstd::prelude::*;
use vstd::string::*;

use crate::agent::target::ThreadId;
use crate::shake;
use crate::shake::preview::ShakePreview;
use crate::shake::ShakeMode;
use crate::text;

verus! {

/// A shake of a history that was measured before.
#[derive(Debug, PartialEq, Eq)]
pub struct ShakeOperation {
    pub mode: ShakeMode,
    /// The fingerprint of the history that was measured.
    pub expected_fingerprint: String,
}

/// The value of a [`ShakeOperation`].
pub struct ShakeOperationView {
    pub mode: ShakeMode,
    pub expected_fingerprint: Seq<char>,
}

impl DeepView for ShakeOperation {
    type V = ShakeOperationView;

    open spec fn deep_view(&self) -> ShakeOperationView {
        ShakeOperationView {
            mode: self.mode,
            expected_fingerprint: self.expected_fingerprint@,
        }
    }
}

/// What becomes of a preview.
#[derive(Debug, PartialEq, Eq)]
pub enum PreviewDecision {
    /// It is for another thread.
    Ignore,
    /// The operator is told why there is nothing to confirm.
    Info(String),
    /// The operator is asked. The shake frees this many tokens; once it is
    /// confirmed, the operation goes to the thread.
    Confirm { freed: i64, thread: ThreadId, operation: ShakeOperation },
}

/// The value of a [`PreviewDecision`].
pub enum PreviewDecisionView {
    Ignore,
    Info(Seq<char>),
    Confirm { freed: i64, thread: ThreadId, operation: ShakeOperationView },
}

impl DeepView for PreviewDecision {
    type V = PreviewDecisionView;

    open spec fn deep_view(&self) -> PreviewDecisionView {
        match *self {
            PreviewDecision::Ignore => PreviewDecisionView::Ignore,
            PreviewDecision::Info(message) => PreviewDecisionView::Info(message@),
            PreviewDecision::Confirm { freed, thread, operation } => PreviewDecisionView::Confirm {
                freed,
                thread,
                operation: operation.deep_view(),
            },
        }
    }
}

/// A shake would remove nothing.
pub open spec fn removes_nothing(preview: ShakePreview) -> bool {
    preview.tool_outputs == 0 && preview.text_blocks == 0 && preview.images == 0
        && preview.thinking_blocks == 0
}

/// The tokens that a shake would free.
pub open spec fn freed_tokens(before: int, after: int) -> int {
    if before - after <= 0 {
        0
    } else if before - after > i64::MAX {
        i64::MAX as int
    } else {
        before - after
    }
}

/// What becomes of a preview.
pub open spec fn decision_for(
    current: Option<ThreadId>,
    thread: ThreadId,
    mode: ShakeMode,
    preview: ShakePreview,
) -> PreviewDecisionView {
    if current != Some(thread) {
        PreviewDecisionView::Ignore
    } else if preview.unavailable_reason is Some {
        PreviewDecisionView::Info(preview.unavailable_reason->0@)
    } else if removes_nothing(preview) {
        PreviewDecisionView::Info("Nothing to shake."@)
    } else {
        PreviewDecisionView::Confirm {
            freed: freed_tokens(preview.tokens_before as int, preview.tokens_after as int) as i64,
            thread,
            operation: ShakeOperationView { mode, expected_fingerprint: preview.fingerprint@ },
        }
    }
}

/// Decides what becomes of a preview of `thread`, while `current` is shown.
pub fn decide_preview(
    current: Option<ThreadId>,
    thread: ThreadId,
    mode: ShakeMode,
    preview: &ShakePreview,
) -> (r: PreviewDecision)
    ensures
        r.deep_view() == decision_for(current, thread, mode, *preview),
{
    match current {
        Some(id) => {
            if id != thread {
                return PreviewDecision::Ignore;
            }
        },
        None => {
            return PreviewDecision::Ignore;
        },
    }
    if let Some(reason) = &preview.unavailable_reason {
        return PreviewDecision::Info(reason.clone());
    }
    if preview.tool_outputs == 0 && preview.text_blocks == 0 && preview.images == 0
        && preview.thinking_blocks == 0 {
        return PreviewDecision::Info("Nothing to shake.".to_owned());
    }
    let difference = preview.tokens_before as i128 - preview.tokens_after as i128;
    let freed = if difference <= 0 {
        0
    } else if difference > i64::MAX as i128 {
        i64::MAX
    } else {
        difference as i64
    };
    PreviewDecision::Confirm {
        freed,
        thread,
        operation: ShakeOperation { mode, expected_fingerprint: preview.fingerprint.clone() },
    }
}

/// The numbers of a preview as the operator reads them.
#[derive(Debug, PartialEq, Eq)]
pub struct PreviewTexts {
    pub before: String,
    pub after: String,
    pub freed: String,
    pub percent: String,
}

/// What a shake would remove.
pub open spec fn affected_text(mode: ShakeMode, preview: ShakePreview) -> Seq<char> {
    match mode {
        ShakeMode::Elide | ShakeMode::SmartCompact => text::decimal(preview.tool_outputs as nat)
            + " tool outputs and "@ + text::decimal(preview.text_blocks as nat)
            + " text blocks. Recent ~4k tokens stay protected; removed text is recoverable."@,
        ShakeMode::Images => "Images to remove: "@ + text::decimal(preview.images as nat)
            + ". This mode does not save recovery artifacts."@,
        ShakeMode::Thinking => "Thinking blocks to remove: "@ + text::decimal(
            preview.thinking_blocks as nat,
        ) + ". This mode does not save recovery artifacts."@,
    }
}

/// What the operator is told before a shake.
pub open spec fn subtitle_text(
    mode: ShakeMode,
    preview: ShakePreview,
    texts: PreviewTexts,
) -> Seq<char> {
    "Estimated conversation: "@ + texts.before@ + " → "@ + texts.after@ + " tokens. Frees ~"@
        + texts.freed@ + " ("@ + texts.percent@ + "%).\n"@ + affected_text(mode, preview)
        + "\n\nThe next request may cost more from lost cache reuse. Later requests carry less context; recovery reads add tokens back.\n\nEstimates exclude base instructions and tool schemas. Exact subscription or API savings depend on future requests."@
}

fn affected(mode: ShakeMode, preview: &ShakePreview) -> (r: String)
    ensures
        r@ == affected_text(mode, *preview),
{
    match mode {
        ShakeMode::Elide | ShakeMode::SmartCompact => {
            let mut r = text::decimal_text(preview.tool_outputs as u64);
            r.append(" tool outputs and ");
            r.append(text::decimal_text(preview.text_blocks as u64).as_str());
            r.append(
                " text blocks. Recent ~4k tokens stay protected; removed text is recoverable.",
            );
            r
        },
        ShakeMode::Images => {
            let mut r = "Images to remove: ".to_owned();
            r.append(text::decimal_text(preview.images as u64).as_str());
            r.append(". This mode does not save recovery artifacts.");
            r
        },
        ShakeMode::Thinking => {
            let mut r = "Thinking blocks to remove: ".to_owned();
            r.append(text::decimal_text(preview.thinking_blocks as u64).as_str());
            r.append(". This mode does not save recovery artifacts.");
            r
        },
    }
}

/// The head of the question to the operator.
#[derive(Debug, PartialEq, Eq)]
pub struct PreviewHeader {
    pub title: String,
    pub description: String,
}

/// A text in lines that are at most so wide.
pub uninterp spec fn wrapped(paragraph: Seq<char>, width: int) -> Seq<Seq<char>>;

/// `textwrap::wrap` breaks a text into lines of at most some width. Where it
/// breaks is a function of the text and the width.
#[verifier::external_body]
fn wrap(paragraph: &str, width: usize) -> (lines: Vec<String>)
    requires
        width >= 1,
    ensures
        lines.deep_view() == wrapped(paragraph@, width as int),
{
    textwrap::wrap(paragraph, width).into_iter().map(|line| line.into_owned()).collect()
}

/// A width, but at least one.
pub open spec fn usable(width: u16) -> int {
    if width == 0 {
        1
    } else {
        width as int
    }
}

/// The lines of the paragraphs of `s` from `from` on. A paragraph ends at a line
/// break.
pub open spec fn paragraph_lines(s: Seq<char>, from: int, width: int) -> Seq<Seq<char>>
    decreases s.len() - from,
{
    let end = text::line_end(s, from);
    let lines = wrapped(s.subrange(from, end), width);
    if 0 <= from <= end < s.len() {
        lines + paragraph_lines(s, end + 1, width)
    } else {
        lines
    }
}

/// The lines of the head.
pub open spec fn header_lines(header: PreviewHeader, width: u16) -> Seq<Seq<char>> {
    seq![header.title@] + paragraph_lines(header.description@, 0, usable(width))
}

impl PreviewHeader {
    /// The head of the question whether to shake.
    pub fn new(mode: ShakeMode, preview: &ShakePreview, texts: &PreviewTexts) -> (header: Self)
        ensures
            header.title@ == "Shake preview ("@ + shake::mode_name(mode) + ")"@,
            header.description@ == subtitle_text(mode, *preview, *texts),
    {
        let mut title = "Shake preview (".to_owned();
        title.append(mode.as_str());
        title.append(")");
        let mut description = "Estimated conversation: ".to_owned();
        description.append(texts.before.as_str());
        description.append(" → ");
        description.append(texts.after.as_str());
        description.append(" tokens. Frees ~");
        description.append(texts.freed.as_str());
        description.append(" (");
        description.append(texts.percent.as_str());
        description.append("%).\n");
        description.append(affected(mode, preview).as_str());
        description.append(
            "\n\nThe next request may cost more from lost cache reuse. Later requests carry less context; recovery reads add tokens back.\n\nEstimates exclude base instructions and tool schemas. Exact subscription or API savings depend on future requests.",
        );
        PreviewHeader { title, description }
    }

    /// The lines of the head: its title, and its text in lines of that width.
    pub fn lines(&self, width: u16) -> (lines: Vec<String>)
        ensures
            lines.deep_view() == header_lines(*self, width),
    {
        let usable_width: usize = if width == 0 {
            1
        } else {
            width as usize
        };
        let chars = text::chars_of(self.description.as_str());
        let mut lines: Vec<String> = Vec::new();
        lines.push(self.title.clone());
        assert(lines.deep_view() =~= seq![self.title@]);
        let ghost all = header_lines(*self, width);
        let mut from: usize = 0;
        loop
            invariant
                usable_width == usable(width),
                chars@ == self.description@,
                from <= chars@.len(),
                header_lines(*self, width) == lines.deep_view() + paragraph_lines(
                    chars@,
                    from as int,
                    usable(width),
                ),
            decreases chars@.len() - from,
        {
            let end = text::line_end_of(chars.as_slice(), from);
            let paragraph = text::string_of(
                vstd::slice::slice_subrange(chars.as_slice(), from, end),
            );
            let more = wrap(paragraph.as_str(), usable_width);
            let ghost before = lines.deep_view();
            let ghost added = more.deep_view();
            let mut more = more;
            lines.append(&mut more);
            assert(lines.deep_view() =~= before + added);
            if end >= chars.len() {
                return lines;
            }
            assert(header_lines(*self, width) =~= lines.deep_view() + paragraph_lines(
                chars@,
                end + 1,
                usable(width),
            ));
            from = end + 1;
        }
    }

    /// How many lines the head takes.
    pub fn desired_height(&self, width: u16) -> (height: u16)
        ensures
            height == (if header_lines(*self, width).len() > u16::MAX {
                u16::MAX as int
            } else {
                header_lines(*self, width).len() as int
            }),
    {
        let lines = self.lines(width);
        assert(lines@.len() == lines.deep_view().len());
        if lines.len() > u16::MAX as usize {
            u16::MAX
        } else {
            lines.len() as u16
        }
    }
}

/// The operator is asked only about a shake of the thread that is shown, which
/// can be done and removes something.
pub proof fn law_only_real_shakes_are_confirmed(
    current: Option<ThreadId>,
    thread: ThreadId,
    mode: ShakeMode,
    preview: ShakePreview,
)
    ensures
        (decision_for(current, thread, mode, preview) is Confirm) == (current == Some(thread)
            && preview.unavailable_reason is None && !removes_nothing(preview)),
{
}

/// What becomes of a preview of the thread that is shown: the reason why it
/// cannot be done comes first; then that there is nothing to do; and otherwise
/// the operator is asked about just this shake of just this history, with what it
/// frees. A preview of any other thread is passed over.
pub proof fn law_previews_lead_to_one_question(
    current: Option<ThreadId>,
    thread: ThreadId,
    mode: ShakeMode,
    preview: ShakePreview,
)
    ensures
        current != Some(thread) ==> decision_for(current, thread, mode, preview) is Ignore,
        preview.unavailable_reason matches Some(reason) ==> decision_for(
            Some(thread),
            thread,
            mode,
            preview,
        ) == PreviewDecisionView::Info(reason@),
        preview.unavailable_reason is None && preview.tool_outputs == 0 && preview.text_blocks == 0
            && preview.images == 0 && preview.thinking_blocks == 0 ==> decision_for(
            Some(thread),
            thread,
            mode,
            preview,
        ) == PreviewDecisionView::Info("Nothing to shake."@),
        preview.unavailable_reason is None && (preview.tool_outputs > 0 || preview.text_blocks > 0
            || preview.images > 0 || preview.thinking_blocks > 0) ==> (decision_for(
            Some(thread),
            thread,
            mode,
            preview,
        ) matches PreviewDecisionView::Confirm { freed, thread: asked, operation } && {
            &&& asked == thread
            &&& operation.mode == mode
            &&& operation.expected_fingerprint == preview.fingerprint@
            &&& freed >= 0
            &&& preview.tokens_after >= preview.tokens_before ==> freed == 0
            &&& 0 <= preview.tokens_after <= preview.tokens_before ==> freed + preview.tokens_after
                == preview.tokens_before
        }),
{
}

/// The paragraphs of a text are broken into lines one by one: what stands behind
/// a line break begins on a line of its own.
pub proof fn law_paragraphs_begin_on_their_own_line(
    paragraph: Seq<char>,
    rest: Seq<char>,
    width: int,
)
    requires
        !paragraph.contains('\n'),
    ensures
        paragraph_lines(paragraph, 0, width) == wrapped(paragraph, width),
        paragraph_lines(paragraph + seq!['\n'] + rest, 0, width) == wrapped(paragraph, width)
            + paragraph_lines(rest, 0, width),
{
    let n = paragraph.len() as int;
    lemma_line_end_is(paragraph, 0, n);
    assert(paragraph.subrange(0, n) =~= paragraph);
    let s = paragraph + seq!['\n'] + rest;
    assert forall|i: int| 0 <= i < n implies s[i] != '\n' by {
        assert(s[i] == paragraph[i]);
    }
    lemma_line_end_is(s, 0, n);
    assert(s.subrange(0, n) =~= paragraph);
    lemma_paragraphs_shift(s, n + 1, n + 1, width);
    assert(s.skip(n + 1) =~= rest);
}

proof fn lemma_line_end_is(s: Seq<char>, from: int, end: int)
    requires
        0 <= from <= end <= s.len(),
        end == s.len() || s[end] == '\n',
        forall|i: int| from <= i < end ==> s[i] != '\n',
    ensures
        text::line_end(s, from) == end,
{
    text::lemma_line_end(s, from);
}

proof fn lemma_paragraphs_shift(s: Seq<char>, k: int, from: int, width: int)
    requires
        0 <= k <= from <= s.len(),
    ensures
        paragraph_lines(s.skip(k), from - k, width) == paragraph_lines(s, from, width),
    decreases s.len() - from,
{
    let rest = s.skip(k);
    text::lemma_line_end(s, from);
    let end = text::line_end(s, from);
    assert forall|i: int| from - k <= i < end - k implies rest[i] != '\n' by {
        assert(rest[i] == s[i + k]);
    }
    if end < s.len() {
        assert(rest[end - k] == s[end]);
    }
    lemma_line_end_is(rest, from - k, end - k);
    assert(rest.subrange(from - k, end - k) =~= s.subrange(from, end));
    if end < s.len() {
        lemma_paragraphs_shift(s, k, end + 1, width);
    }
}

/// What a question says of a shake's effect, by its mode: how much of which kind
/// goes, and whether it can be recovered.
pub proof fn law_questions_name_what_goes(preview: ShakePreview)
    ensures
        affected_text(ShakeMode::SmartCompact, preview) == affected_text(ShakeMode::Elide, preview),
        affected_text(ShakeMode::Elide, preview) == text::decimal(preview.tool_outputs as nat)
            + " tool outputs and "@ + text::decimal(preview.text_blocks as nat)
            + " text blocks. Recent ~4k tokens stay protected; removed text is recoverable."@,
        affected_text(ShakeMode::Images, preview) == "Images to remove: "@ + text::decimal(
            preview.images as nat,
        ) + ". This mode does not save recovery artifacts."@,
        affected_text(ShakeMode::Thinking, preview) == "Thinking blocks to remove: "@
            + text::decimal(preview.thinking_blocks as nat)
            + ". This mode does not save recovery artifacts."@,
{
}

} // verus!
