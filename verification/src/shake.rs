//! Surgical compaction ("shake"): heavy content is dropped out of the live
//! context mechanically, without asking a model.
//!
//! Large tool outputs and large blocks of message text are replaced by short
//! placeholders that name where the text was saved ([`elide`]). Images and
//! reasoning can be removed outright ([`strip`]). [`preview`] measures a shake
//! without doing it, and [`auto`] decides when one is due.

use vstd::prelude::*;
use vstd::string::*;

use crate::text;

pub mod auto;
pub mod auto_laws;
pub mod blocks;
pub mod elide;
pub mod elide_laws;
pub mod preview;
pub mod protection;
pub mod recovery;
pub mod sizes;
pub mod strip;

verus! {

/// The protected recent window, in tokens, of a shake that an operator asked
/// for.
pub const MANUAL_PROTECT_TOKENS: usize = 4_000;

/// The protected recent window, in tokens, of a shake that runs unattended.
pub const AUTO_PROTECT_TOKENS: usize = 16_000;

/// What a shake removes.
#[derive(Clone, Copy, Debug, PartialEq, Eq, Structural)]
pub enum ShakeMode {
    /// Old tool outputs and blocks, which can be recovered.
    Elide,
    /// Images.
    Images,
    /// Reasoning.
    Thinking,
    /// As `Elide`, with a handoff that a model writes.
    SmartCompact,
}

/// The name of a mode.
pub open spec fn mode_name(mode: ShakeMode) -> Seq<char> {
    match mode {
        ShakeMode::Elide => "elide"@,
        ShakeMode::Images => "images"@,
        ShakeMode::Thinking => "thinking"@,
        ShakeMode::SmartCompact => "smartCompact"@,
    }
}

impl ShakeMode {
    /// The name of the mode.
    pub fn as_str(self) -> (name: &'static str)
        ensures
            name@ == mode_name(self),
    {
        match self {
            ShakeMode::Elide => "elide",
            ShakeMode::Images => "images",
            ShakeMode::Thinking => "thinking",
            ShakeMode::SmartCompact => "smartCompact",
        }
    }
}

/// What a shake did.
#[derive(Clone, Copy, Debug, PartialEq, Eq, Structural)]
pub struct ShakeResult {
    /// Whole tool outputs replaced.
    pub tool_outputs_elided: usize,
    /// Large blocks replaced.
    pub blocks_elided: usize,
    /// Images removed.
    pub images_dropped: usize,
    /// Reasoning items removed.
    pub thinking_dropped: usize,
    /// Estimated tokens freed.
    pub tokens_freed: i64,
}

impl Default for ShakeResult {
    /// The result of a shake that did nothing.
    fn default() -> (result: Self)
        ensures
            result == (ShakeResult {
                tool_outputs_elided: 0,
                blocks_elided: 0,
                images_dropped: 0,
                thinking_dropped: 0,
                tokens_freed: 0,
            }),
    {
        ShakeResult {
            tool_outputs_elided: 0,
            blocks_elided: 0,
            images_dropped: 0,
            thinking_dropped: 0,
            tokens_freed: 0,
        }
    }
}

/// A count with a noun, in the plural unless there is one.
pub open spec fn counted(n: nat, noun: Seq<char>) -> Seq<char> {
    text::decimal(n) + " "@ + noun + if n == 1 {
        ""@
    } else {
        "s"@
    }
}

/// The parts of an elision that a summary names: those that are not zero.
pub open spec fn summary_parts(result: ShakeResult) -> Seq<Seq<char>> {
    let outputs = if result.tool_outputs_elided > 0 {
        seq![counted(result.tool_outputs_elided as nat, "tool output"@)]
    } else {
        Seq::empty()
    };
    if result.blocks_elided > 0 {
        outputs.push(counted(result.blocks_elided as nat, "block"@))
    } else {
        outputs
    }
}

/// The one-line summary of a shake.
pub open spec fn summary_text(result: ShakeResult, mode: ShakeMode) -> Seq<char> {
    match mode {
        ShakeMode::Images => if result.images_dropped == 0 {
            "No images found in this conversation."@
        } else {
            "Dropped "@ + counted(result.images_dropped as nat, "image"@)
                + " from this conversation."@
        },
        ShakeMode::Thinking => if result.thinking_dropped == 0 {
            "No thinking blocks found in this conversation."@
        } else {
            "Dropped "@ + counted(result.thinking_dropped as nat, "thinking block"@)
                + " from this conversation."@
        },
        ShakeMode::Elide | ShakeMode::SmartCompact => if summary_parts(result).len() == 0 {
            "Nothing to shake."@
        } else {
            "Shook "@ + text::join(summary_parts(result), " + "@) + " (~"@ + text::signed_decimal(
                result.tokens_freed as int,
            ) + " tokens freed)."@
        },
    }
}

/// Writes a count with its noun.
pub fn counted_text(n: usize, noun: &str) -> (r: String)
    ensures
        r@ == counted(n as nat, noun@),
{
    let mut r = text::decimal_text(n as u64);
    r.append(" ");
    r.append(noun);
    if n == 1 {
        r.append("");
    } else {
        r.append("s");
    }
    r
}

impl ShakeResult {
    /// Whether the shake removed nothing.
    pub fn is_noop(&self) -> (r: bool)
        ensures
            r == (self.tool_outputs_elided == 0 && self.blocks_elided == 0 && self.images_dropped
                == 0 && self.thinking_dropped == 0),
    {
        self.tool_outputs_elided == 0 && self.blocks_elided == 0 && self.images_dropped == 0
            && self.thinking_dropped == 0
    }

    /// One line that tells the operator what the shake did.
    pub fn summary_line(&self, mode: ShakeMode) -> (line: String)
        ensures
            line@ == summary_text(*self, mode),
    {
        match mode {
            ShakeMode::Images => {
                if self.images_dropped == 0 {
                    "No images found in this conversation.".to_owned()
                } else {
                    let mut line = "Dropped ".to_owned();
                    line.append(counted_text(self.images_dropped, "image").as_str());
                    line.append(" from this conversation.");
                    line
                }
            },
            ShakeMode::Thinking => {
                if self.thinking_dropped == 0 {
                    "No thinking blocks found in this conversation.".to_owned()
                } else {
                    let mut line = "Dropped ".to_owned();
                    line.append(counted_text(self.thinking_dropped, "thinking block").as_str());
                    line.append(" from this conversation.");
                    line
                }
            },
            ShakeMode::Elide | ShakeMode::SmartCompact => {
                let mut joined: Option<String> = None;
                let ghost mut parts: Seq<Seq<char>> = Seq::empty();
                if self.tool_outputs_elided > 0 {
                    let part = counted_text(self.tool_outputs_elided, "tool output");
                    text::join_onto(&mut joined, part.as_str(), " + ", Ghost(parts));
                    proof {
                        parts = parts.push(part@);
                    }
                }
                if self.blocks_elided > 0 {
                    let part = counted_text(self.blocks_elided, "block");
                    text::join_onto(&mut joined, part.as_str(), " + ", Ghost(parts));
                    proof {
                        parts = parts.push(part@);
                    }
                }
                assert(parts == summary_parts(*self));
                match joined {
                    None => "Nothing to shake.".to_owned(),
                    Some(parts) => {
                        let mut line = "Shook ".to_owned();
                        line.append(parts.as_str());
                        line.append(" (~");
                        line.append(text::signed_decimal_text(self.tokens_freed).as_str());
                        line.append(" tokens freed).");
                        line
                    },
                }
            },
        }
    }
}

/// What a summary says. It counts the images, or the thinking blocks, or what was
/// elided of each kind with the tokens that this freed; and it says so where there
/// was nothing.
pub proof fn law_summaries_count_what_went(result: ShakeResult)
    ensures
        summary_text(result, ShakeMode::SmartCompact) == summary_text(result, ShakeMode::Elide),
        result.images_dropped == 0 ==> summary_text(result, ShakeMode::Images)
            == "No images found in this conversation."@,
        result.images_dropped == 1 ==> summary_text(result, ShakeMode::Images)
            == "Dropped "@ + (text::decimal(1) + " image"@) + " from this conversation."@,
        result.images_dropped > 1 ==> summary_text(result, ShakeMode::Images) == "Dropped "@ + (
        text::decimal(result.images_dropped as nat) + " images"@) + " from this conversation."@,
        result.thinking_dropped == 0 ==> summary_text(result, ShakeMode::Thinking)
            == "No thinking blocks found in this conversation."@,
        result.thinking_dropped > 1 ==> summary_text(result, ShakeMode::Thinking) == "Dropped "@ + (
        text::decimal(result.thinking_dropped as nat) + " thinking blocks"@)
            + " from this conversation."@,
        result.tool_outputs_elided == 0 && result.blocks_elided == 0 ==> summary_text(
            result,
            ShakeMode::Elide,
        ) == "Nothing to shake."@,
        result.tool_outputs_elided > 1 && result.blocks_elided == 0 ==> summary_text(
            result,
            ShakeMode::Elide,
        ) == "Shook "@ + (text::decimal(result.tool_outputs_elided as nat) + " tool outputs"@)
            + " (~"@ + text::signed_decimal(result.tokens_freed as int) + " tokens freed)."@,
        result.tool_outputs_elided == 0 && result.blocks_elided > 1 ==> summary_text(
            result,
            ShakeMode::Elide,
        ) == "Shook "@ + (text::decimal(result.blocks_elided as nat) + " blocks"@) + " (~"@
            + text::signed_decimal(result.tokens_freed as int) + " tokens freed)."@,
        result.tool_outputs_elided > 1 && result.blocks_elided > 1 ==> summary_text(
            result,
            ShakeMode::Elide,
        ) == "Shook "@ + ((text::decimal(result.tool_outputs_elided as nat) + " tool outputs"@)
            + " + "@ + (text::decimal(result.blocks_elided as nat) + " blocks"@)) + " (~"@
            + text::signed_decimal(result.tokens_freed as int) + " tokens freed)."@,
{
    reveal_strlit("");
    reveal_strlit(" ");
    reveal_strlit("s");
    reveal_strlit("image");
    reveal_strlit(" image");
    reveal_strlit(" images");
    reveal_strlit("thinking block");
    reveal_strlit(" thinking blocks");
    reveal_strlit("tool output");
    reveal_strlit(" tool outputs");
    reveal_strlit("block");
    reveal_strlit(" blocks");
    let outputs = result.tool_outputs_elided as nat;
    let blocks = result.blocks_elided as nat;
    let images = result.images_dropped as nat;
    let thoughts = result.thinking_dropped as nat;
    assert(counted(1, "image"@) =~= text::decimal(1) + " image"@);
    if images > 1 {
        assert(counted(images, "image"@) =~= text::decimal(images) + " images"@);
    }
    if thoughts > 1 {
        assert(counted(thoughts, "thinking block"@) =~= text::decimal(thoughts)
            + " thinking blocks"@);
    }
    let shown = summary_parts(result);
    if outputs > 1 {
        assert(counted(outputs, "tool output"@) =~= text::decimal(outputs) + " tool outputs"@);
    }
    if blocks > 1 {
        assert(counted(blocks, "block"@) =~= text::decimal(blocks) + " blocks"@);
    }
    if outputs > 1 && blocks > 1 {
        assert(shown.drop_last() =~= seq![counted(outputs, "tool output"@)]);
        assert(text::join(shown.drop_last(), " + "@) == counted(outputs, "tool output"@));
    }
}

} // verus!
