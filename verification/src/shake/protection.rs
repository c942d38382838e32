//! Tools whose outputs a shake never removes.
//!
//! Protection goes by the tool that made an output. An output mostly carries no
//! tool name of its own, so it is paired with the call that has the same id.

use vstd::prelude::*;

use crate::items::ResponseItem;
use crate::items::ResponseItemEnvelope;
use crate::items::ResponseItemEnvelopeView;
use crate::items::ResponseItemView;
use crate::text;

verus! {

/// A tool namespace without the spellings of the default one.
pub open spec fn normal_namespace(namespace: Option<Seq<char>>) -> Option<Seq<char>> {
    match namespace {
        Some(value) if value.len() > 0 && value != "functions"@ => Some(value),
        _ => None,
    }
}

/// The protected tools: the artifact read in the default namespace, and the
/// reads and listings of skills.
pub open spec fn is_protected(namespace: Option<Seq<char>>, name: Seq<char>) -> bool {
    match normal_namespace(namespace) {
        None => name == "read_artifact"@,
        Some(value) => value == "skills"@ && (name == "read"@ || name == "list"@),
    }
}

/// Some call of a protected tool has the id `call_id`.
pub open spec fn is_protected_call(
    items: Seq<ResponseItemEnvelopeView>,
    call_id: Seq<char>,
) -> bool {
    exists|k: int|
        0 <= k < items.len() && calls_protected((#[trigger] items[k]).item) == Some(call_id)
}

/// The id of an item that calls a protected tool.
pub open spec fn calls_protected(item: ResponseItemView) -> Option<Seq<char>> {
    match item {
        ResponseItemView::FunctionCall { call_id, name, namespace, .. } if is_protected(
            namespace,
            name,
        ) => Some(call_id),
        ResponseItemView::CustomToolCall { call_id, name, namespace, .. } if is_protected(
            namespace,
            name,
        ) => Some(call_id),
        _ => None,
    }
}

/// Item `i` is the output of a protected tool.
pub open spec fn is_protected_output(items: Seq<ResponseItemEnvelopeView>, i: int) -> bool {
    match items[i].item {
        ResponseItemView::FunctionCallOutput { call_id, name, namespace, .. } => {
            ||| name is Some && is_protected(namespace, name->0)
            ||| call_id is Some && is_protected_call(items, call_id->0)
        },
        ResponseItemView::CustomToolCallOutput { call_id, name, .. } => {
            ||| name is Some && is_protected(None, name->0)
            ||| is_protected_call(items, call_id)
        },
        _ => false,
    }
}

/// Decides [`is_protected`].
pub fn is_protected_tool(namespace: Option<&str>, name: &str) -> (r: bool)
    ensures
        r == is_protected(
            match namespace {
                Some(value) => Some(value@),
                None => None,
            },
            name@,
        ),
{
    match namespace {
        Some(value) => {
            if value.is_empty() || text::same_text(value, "functions") {
                text::same_text(name, "read_artifact")
            } else {
                text::same_text(value, "skills") && (text::same_text(name, "read")
                    || text::same_text(name, "list"))
            }
        },
        None => text::same_text(name, "read_artifact"),
    }
}

/// [`is_protected_tool`] on stored texts.
fn is_protected_name(namespace: &Option<String>, name: &String) -> (r: bool)
    ensures
        r == is_protected(namespace.deep_view(), name@),
{
    match namespace {
        Some(value) => is_protected_tool(Some(value.as_str()), name.as_str()),
        None => is_protected_tool(None, name.as_str()),
    }
}

/// The ids of the calls of protected tools.
fn protected_call_ids(items: &[ResponseItemEnvelope]) -> (ids: Vec<String>)
    ensures
        forall|id: Seq<char>|
            ids.deep_view().contains(id) == #[trigger] is_protected_call(items.deep_view(), id),
{
    let mut ids: Vec<String> = Vec::new();
    let ghost views = items.deep_view();
    let mut i: usize = 0;
    while i < items.len()
        invariant
            i <= items@.len(),
            views == items.deep_view(),
            forall|j: int|
                0 <= j < ids@.len() ==> is_protected_call(views, #[trigger] ids.deep_view()[j]),
            forall|k: int|
                0 <= k < i && calls_protected((#[trigger] views[k]).item) is Some
                    ==> ids.deep_view().contains(calls_protected(views[k].item)->0),
        decreases items@.len() - i,
    {
        let ghost before = ids.deep_view();
        assert(views[i as int] == items@[i as int].deep_view());
        match &items[i].item {
            ResponseItem::FunctionCall { call_id, name, namespace, .. } => {
                if is_protected_name(namespace, name) {
                    ids.push(call_id.clone());
                    assert(ids.deep_view() == before.push(call_id@));
                    assert(ids.deep_view()[before.len() as int] == call_id@);
                }
            },
            ResponseItem::CustomToolCall { call_id, name, namespace, .. } => {
                if is_protected_name(namespace, name) {
                    ids.push(call_id.clone());
                    assert(ids.deep_view() == before.push(call_id@));
                    assert(ids.deep_view()[before.len() as int] == call_id@);
                }
            },
            _ => {},
        }
        proof {
            assert forall|j: int| 0 <= j < ids@.len() implies is_protected_call(
                views,
                #[trigger] ids.deep_view()[j],
            ) by {
                if j < before.len() {
                    assert(ids.deep_view()[j] == before[j]);
                } else {
                    assert(calls_protected(views[i as int].item) == Some(ids.deep_view()[j]));
                }
            }
            assert forall|k: int|
                0 <= k < i + 1 && calls_protected(
                    (#[trigger] views[k]).item,
                ) is Some implies ids.deep_view().contains(
                calls_protected(views[k].item)->0,
            ) by {
                if k < i {
                    let id = calls_protected(views[k].item)->0;
                    let j = choose|j: int| 0 <= j < before.len() && before[j] == id;
                    assert(ids.deep_view()[j] == id);
                }
            }
        }
        i = i + 1;
    }
    proof {
        assert forall|id: Seq<char>|
            ids.deep_view().contains(id) == #[trigger] is_protected_call(views, id) by {
            if is_protected_call(views, id) {
                let k = choose|k: int|
                    0 <= k < views.len() && calls_protected((#[trigger] views[k]).item) == Some(id);
                assert(ids.deep_view().contains(calls_protected(views[k].item)->0));
            }
        }
    }
    ids
}

/// Whether `id` is one of `ids`.
fn lists_id(ids: &Vec<String>, id: &String) -> (r: bool)
    ensures
        r == ids.deep_view().contains(id@),
{
    let mut i: usize = 0;
    while i < ids.len()
        invariant
            i <= ids@.len(),
            forall|j: int| 0 <= j < i ==> ids.deep_view()[j] != id@,
        decreases ids@.len() - i,
    {
        if text::same_text(ids[i].as_str(), id.as_str()) {
            assert(ids.deep_view()[i as int] == id@);
            return true;
        }
        i = i + 1;
    }
    false
}

/// For each item, whether it is the output of a protected tool.
pub fn protected_output_flags(items: &[ResponseItemEnvelope]) -> (flags: Vec<bool>)
    ensures
        flags@.len() == items@.len(),
        forall|i: int|
            0 <= i < flags@.len() ==> #[trigger] flags@[i] == is_protected_output(
                items.deep_view(),
                i,
            ),
{
    let ids = protected_call_ids(items);
    let mut flags: Vec<bool> = Vec::new();
    let mut i: usize = 0;
    while i < items.len()
        invariant
            i <= items@.len(),
            flags@.len() == i,
            forall|id: Seq<char>|
                ids.deep_view().contains(id) == #[trigger] is_protected_call(
                    items.deep_view(),
                    id,
                ),
            forall|j: int|
                0 <= j < i ==> #[trigger] flags@[j] == is_protected_output(items.deep_view(), j),
        decreases items@.len() - i,
    {
        assert(items.deep_view()[i as int] == items@[i as int].deep_view());
        let flag: bool = match &items[i].item {
            ResponseItem::FunctionCallOutput { call_id, name, namespace, .. } => {
                let by_name: bool = match name {
                    Some(name) => is_protected_name(namespace, name),
                    None => false,
                };
                let by_call: bool = match call_id {
                    Some(call_id) => lists_id(&ids, call_id),
                    None => false,
                };
                by_name || by_call
            },
            ResponseItem::CustomToolCallOutput { call_id, name, .. } => {
                let by_name: bool = match name {
                    Some(name) => is_protected_tool(None, name.as_str()),
                    None => false,
                };
                by_name || lists_id(&ids, call_id)
            },
            _ => false,
        };
        flags.push(flag);
        i = i + 1;
    }
    flags
}

} // verus!
