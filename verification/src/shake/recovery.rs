//! Placeholders for removed text, and how they are told from other text.
//!
//! A placeholder names the file that holds the removed text. Text that already
//! carries such a marker, or that was read back from an artifact, is never
//! removed again: that would only write another artifact.

use vstd::prelude::*;
use vstd::string::*;

use crate::text;

verus! {

/// The text that stands in for `tokens` tokens saved at `path`.
pub open spec fn placeholder_text(tokens: nat, label: Seq<char>, path: Seq<char>) -> Seq<char> {
    "[shaken ~"@ + text::decimal(tokens) + " tokens from "@ + label + ". original: "@ + path + "]"@
}

/// A line that a placeholder consists of.
pub open spec fn is_shaken_marker(line: Seq<char>) -> bool {
    &&& text::starts_with(line, "[shaken ~"@)
    &&& match text::after_first(line.skip("[shaken ~"@.len() as int), " tokens from "@) {
        None => false,
        Some(rest) => {
            &&& text::ends_with(rest, "]"@)
            &&& match text::after_first(rest.drop_last(), ". original: "@) {
                Some(path) => path.len() > 0,
                None => false,
            }
        },
    }
}

/// A line that says from which artifact the text around it was read back.
pub open spec fn is_source_marker(line: Seq<char>) -> bool {
    &&& text::starts_with(line, "[artifact source: artifact://"@)
    &&& text::ends_with(line, "]"@)
    &&& line.len() > "[artifact source: artifact://"@.len() + 1
}

/// A text with a line that marks it as saved or read back already.
pub open spec fn is_recovery_output(s: Seq<char>) -> bool {
    exists|i: int|
        0 <= i < text::lines(s).len() && (is_shaken_marker(#[trigger] text::lines(s)[i])
            || is_source_marker(text::lines(s)[i]))
}

/// The text that stands in for `tokens` tokens saved at `path`.
pub fn placeholder_for(tokens: usize, label: &str, path: &str) -> (placeholder: String)
    ensures
        placeholder@ == placeholder_text(tokens as nat, label@, path@),
{
    let mut placeholder = "[shaken ~".to_owned();
    placeholder.append(text::decimal_text(tokens as u64).as_str());
    placeholder.append(" tokens from ");
    placeholder.append(label);
    placeholder.append(". original: ");
    placeholder.append(path);
    placeholder.append("]");
    placeholder
}

/// Saves a region and gives the text that stands in for it. Where the region
/// was not saved there is nothing to stand in for it.
pub fn recovery_placeholder<F: Fn(&str, &str) -> Option<String>>(
    save: &F,
    original: &str,
    tokens: usize,
    label: &str,
) -> (placeholder: Option<String>)
    requires
        call_requires(save, (original, label)),
    ensures
        exists|saved: Option<String>|
            #![trigger call_ensures(save, (original, label), saved)]
            call_ensures(save, (original, label), saved) && match saved {
                Some(path) => placeholder matches Some(p) && p@ == placeholder_text(
                    tokens as nat,
                    label@,
                    path@,
                ),
                None => placeholder is None,
            },
{
    let saved = save(original, label);
    match &saved {
        Some(path) => Some(placeholder_for(tokens, label, path.as_str())),
        None => None,
    }
}

/// Decides [`is_shaken_marker`].
pub fn is_shaken_artifact_marker(line: &[char]) -> (r: bool)
    ensures
        r == is_shaken_marker(line@),
{
    if !text::has_prefix(line, "[shaken ~") {
        return false;
    }
    proof {
        reveal_strlit("[shaken ~");
        reveal_strlit("]");
    }
    let rest = vstd::slice::slice_subrange(line, 9, line.len());
    assert(rest@ == line@.skip(9));
    match text::rest_after(rest, " tokens from ") {
        None => false,
        Some(rest) => {
            if !text::has_suffix(rest, "]") {
                return false;
            }
            let body = vstd::slice::slice_subrange(rest, 0, rest.len() - 1);
            assert(body@ == rest@.drop_last());
            match text::rest_after(body, ". original: ") {
                Some(path) => path.len() > 0,
                None => false,
            }
        },
    }
}

/// Decides [`is_source_marker`].
fn is_artifact_source_marker(line: &[char]) -> (r: bool)
    ensures
        r == is_source_marker(line@),
{
    proof {
        reveal_strlit("[artifact source: artifact://");
    }
    text::has_prefix(line, "[artifact source: artifact://") && text::has_suffix(line, "]")
        && line.len() > 30
}

/// Decides [`is_recovery_output`].
pub fn is_artifact_recovery_output(content: &[char]) -> (r: bool)
    ensures
        r == is_recovery_output(content@),
{
    let mut pos: usize = 0;
    let ghost mut seen: int = 0;
    let ghost all = text::lines(content@);
    assert(all.skip(0) == all);
    while pos < content.len()
        invariant
            pos <= content@.len(),
            all == text::lines(content@),
            0 <= seen <= all.len(),
            all.skip(seen) == text::lines_from(content@, pos as int),
            forall|i: int|
                0 <= i < seen ==> !(is_shaken_marker(#[trigger] all[i]) || is_source_marker(
                    all[i],
                )),
        decreases content@.len() - pos,
    {
        let (line, next) = text::line_of(content, pos);
        assert(text::lines_from(content@, pos as int).len() > 0);
        assert(all.skip(seen)[0] == line@);
        assert(all[seen] == line@);
        if is_shaken_artifact_marker(line) || is_artifact_source_marker(line) {
            return true;
        }
        proof {
            assert(all.skip(seen).drop_first() == text::lines_from(content@, next as int));
            assert(all.skip(seen + 1) == all.skip(seen).drop_first());
            seen = seen + 1;
        }
        pos = next;
    }
    assert(all.skip(seen).len() == 0);
    false
}

proof fn lemma_one_line(s: Seq<char>, from: int)
    requires
        0 <= from <= s.len(),
        !s.contains('\n'),
    ensures
        text::line_end(s, from) == s.len(),
    decreases s.len() - from,
{
    if from < s.len() {
        assert(s[from] != '\n');
        lemma_one_line(s, from + 1);
    }
}

/// What stands in front of the tail does not matter, as long as the first
/// `mid` comes no later than the one in front of `label`.
proof fn lemma_marker(digits: Seq<char>, label: Seq<char>, path: Seq<char>)
    requires
        path.len() > 0,
    ensures
        is_shaken_marker(
            "[shaken ~"@ + digits + " tokens from "@ + label + ". original: "@ + path + "]"@,
        ),
{
    reveal_strlit("[shaken ~");
    reveal_strlit("]");
    let head = "[shaken ~"@;
    let mid = " tokens from "@;
    let orig = ". original: "@;
    let close = "]"@;
    let line = head + digits + mid + label + orig + path + close;
    assert(line.subrange(0, head.len() as int) == head);
    let rest = line.skip(head.len() as int);
    let behind = label + orig + path + close;
    assert(rest == digits + mid + behind);
    assert(rest.subrange(digits.len() as int, (digits.len() + mid.len()) as int) == mid);
    assert(text::occurs_at(rest, mid, digits.len() as int));
    text::lemma_find_from(rest, mid, 0);
    let at = text::find(rest, mid)->0;
    assert(at <= digits.len());
    let tail = rest.skip(at + mid.len());
    let front = (digits + mid).skip(at + mid.len());
    assert(tail == front + behind);
    let body = tail.drop_last();
    assert(body == front + label + orig + path);
    assert(tail.subrange(tail.len() - 1, tail.len() as int) == close);
    let k = (front.len() + label.len()) as int;
    assert(body.subrange(k, k + orig.len()) == orig);
    assert(text::occurs_at(body, orig, k));
    text::lemma_find_from(body, orig, 0);
}

/// A placeholder whose label and path are without line breaks is one line.
pub proof fn law_placeholder_is_one_line(tokens: nat, label: Seq<char>, path: Seq<char>)
    requires
        !label.contains('\n'),
        !path.contains('\n'),
    ensures
        placeholder_text(tokens, label, path).len() > 0,
        !placeholder_text(tokens, label, path).contains('\n'),
{
    let line = placeholder_text(tokens, label, path);
    let digits = text::decimal(tokens);
    assert(!line.contains('\n')) by {
        text::lemma_decimal_digits(tokens);
        reveal_strlit("[shaken ~");
        reveal_strlit(" tokens from ");
        reveal_strlit(". original: ");
        reveal_strlit("]");
        let a = "[shaken ~"@ + digits;
        text::lemma_absent_concat("[shaken ~"@, digits, '\n');
        text::lemma_absent_concat(a, " tokens from "@, '\n');
        let b = a + " tokens from "@;
        text::lemma_absent_concat(b, label, '\n');
        text::lemma_absent_concat(b + label, ". original: "@, '\n');
        let c = b + label + ". original: "@;
        text::lemma_absent_concat(c, path, '\n');
        text::lemma_absent_concat(c + path, "]"@, '\n');
    }
    assert(line.len() > 0) by {
        reveal_strlit("]");
    }
}

/// A placeholder with a path is a marker, whatever the label and the path are.
/// Where neither has a line break it is recognized in a text of its own, so that
/// no later shake removes it again.
pub proof fn law_placeholder_is_recognized(tokens: nat, label: Seq<char>, path: Seq<char>)
    requires
        path.len() > 0,
    ensures
        is_shaken_marker(placeholder_text(tokens, label, path)),
        !label.contains('\n') && !path.contains('\n') ==> is_recovery_output(
            placeholder_text(tokens, label, path),
        ),
{
    let line = placeholder_text(tokens, label, path);
    lemma_marker(text::decimal(tokens), label, path);
    if !label.contains('\n') && !path.contains('\n') {
        law_placeholder_is_one_line(tokens, label, path);
        lemma_one_line(line, 0);
        assert(text::line_at(line, 0) == line);
        assert(text::lines(line)[0] == line);
    }
}

} // verus!
