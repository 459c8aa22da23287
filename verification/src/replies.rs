//! How the replies of the GitHub REST API are understood.

use vstd::prelude::*;
use vstd::string::*;

use crate::compare::text_field;
use crate::config::AllowedActions;
use crate::github::ActionsPermissions;
use crate::json::{compact, item_views, parsed, Json, JsonView};
use crate::text::{decimal, join, joined, number_text, texts, trim, trimmed};

verus! {

// --- Models -------------------------------------------------------------

/// Whether a status says that the request was carried out.
pub open spec fn success(status: u16) -> bool {
    200 <= status < 300
}

/// Whether a status says that what was asked for is there or is not there.
pub open spec fn presence(status: u16) -> Option<bool> {
    if success(status) {
        Some(true)
    } else if status == 404 {
        Some(false)
    } else {
        None
    }
}

/// Whether a status says that there is an allow-list, or that there is none.
pub open spec fn list_presence(status: u16) -> Option<bool> {
    if status == 409 {
        Some(false)
    } else {
        presence(status)
    }
}

/// The notations of some values.
pub open spec fn notations(items: Seq<JsonView>) -> Seq<Seq<char>> {
    items.map_values(|item: JsonView| compact(item))
}

/// What a reply that was read as `value` says went wrong: its `message`, with
/// its `errors` where there are any, or else the whole text.
pub open spec fn complaint(value: Option<JsonView>, text: Seq<char>) -> Seq<char> {
    match value {
        Some(v) => match text_field(v, "message"@) {
            Some(message) => match v.field("errors"@) {
                Some(JsonView::Array(errors)) => if errors.len() > 0 {
                    message + ": "@ + joined(notations(errors), "; "@)
                } else {
                    message
                },
                _ => message,
            },
            None => trimmed(text),
        },
        None => trimmed(text),
    }
}

/// What is said of a request that failed with the given status.
pub open spec fn api_error(context: Seq<char>, status: u16, message: Seq<char>) -> Seq<char> {
    context + ": GitHub API error ("@ + decimal(status as nat) + "): "@ + message
}

/// What is said of a reply to the given request that cannot be read.
pub open spec fn unreadable(context: Seq<char>, text: Seq<char>) -> Seq<char> {
    context + ": unexpected GitHub response: "@ + text
}

/// The Actions permissions from what GitHub reports.
pub open spec fn permissions_of(
    enabled: bool,
    allowed_actions: Option<AllowedActions>,
) -> ActionsPermissions {
    ActionsPermissions {
        enabled: enabled,
        allowed_actions: match allowed_actions {
            Some(policy) => policy,
            None => AllowedActions::All,
        },
    }
}

// --- Operations ----------------------------------------------------------

/// The notations of some values.
fn notation_list(items: &Vec<Json>) -> (list: Vec<String>)
    ensures
        texts(list@) == notations(item_views(items@)),
{
    let mut list: Vec<String> = Vec::new();
    let mut i: usize = 0;
    while i < items.len()
        invariant
            i <= items@.len(),
            list@.len() == i,
            forall|j: int| 0 <= j < i ==> (#[trigger] list@[j])@ == compact(items@[j]@),
        decreases items@.len() - i,
    {
        list.push(items[i].to_text());
        i = i + 1;
    }
    assert(texts(list@) =~= notations(item_views(items@)));
    list
}

/// What a reply says went wrong, where its text was read as `value`.
pub fn reply_message(value: Option<&Json>, text: &str) -> (message: String)
    ensures
        message@ == complaint(
            match value {
                Some(v) => Some(v@),
                None => None,
            },
            text@,
        ),
{
    let value = match value {
        Some(v) => v,
        None => return trim(text),
    };
    let message = match value.get("message") {
        Some(field) => match field.as_str() {
            Some(message) => message,
            None => return trim(text),
        },
        None => return trim(text),
    };
    if let Some(field) = value.get("errors") {
        if let Some(errors) = field.as_array() {
            assert(item_views(errors@).len() == errors@.len());
            if errors.len() > 0 {
                return message.to_owned().concat(": ").concat(
                    join(&notation_list(errors), "; ").as_str(),
                );
            }
        }
    }
    message.to_owned()
}

/// What the text of a reply says went wrong.
pub fn api_message(text: &str) -> (message: String)
    ensures
        message@ == complaint(parsed(text@), text@),
{
    let value = Json::parse(text);
    reply_message(value.as_ref(), text)
}

/// Whether a request was carried out, or what went wrong.
pub fn check_reply(context: &str, status: u16, text: &str) -> (outcome: Result<(), String>)
    ensures
        match outcome {
            Ok(()) => success(status),
            Err(message) => !success(status) && message@ == api_error(
                context@,
                status,
                complaint(parsed(text@), text@),
            ),
        },
{
    if 200 <= status && status < 300 {
        return Ok(());
    }
    Err(
        context.to_owned().concat(": GitHub API error (").concat(
            number_text(status as u64).as_str(),
        ).concat("): ").concat(api_message(text).as_str()),
    )
}

/// Whether what was asked for is there: `404 Not Found` says that it is not.
pub fn check_optional(context: &str, status: u16, text: &str) -> (present: Result<bool, String>)
    ensures
        match present {
            Ok(true) => success(status),
            Ok(false) => status == 404,
            Err(message) => !success(status) && status != 404 && message@ == api_error(
                context@,
                status,
                complaint(parsed(text@), text@),
            ),
        },
        match present {
            Ok(there) => presence(status) == Some(there),
            Err(_) => presence(status) is None,
        },
{
    if status == 404 {
        return Ok(false);
    }
    match check_reply(context, status, text) {
        Ok(()) => Ok(true),
        Err(message) => Err(message),
    }
}

/// Whether there is an allow-list of actions.
///
/// GitHub answers `409 Conflict` when the repository's actions policy is not
/// `selected`; that simply means "no allow-list configured".
pub fn check_selected(context: &str, status: u16, text: &str) -> (present: Result<bool, String>)
    ensures
        match present {
            Ok(true) => success(status),
            Ok(false) => status == 404 || status == 409,
            Err(message) => !success(status) && status != 404 && status != 409 && message@
                == api_error(context@, status, complaint(parsed(text@), text@)),
        },
        match present {
            Ok(there) => list_presence(status) == Some(there),
            Err(_) => list_presence(status) is None,
        },
{
    if status == 409 {
        return Ok(false);
    }
    check_optional(context, status, text)
}

/// What is said of a reply that cannot be read.
pub fn unexpected_reply(context: &str, text: &str) -> (message: String)
    ensures
        message@ == context@ + ": unexpected GitHub response: "@ + text@,
        message@ == unreadable(context@, text@),
{
    context.to_owned().concat(": unexpected GitHub response: ").concat(text)
}

/// The Actions permissions from what GitHub reports: without a policy, all
/// actions are allowed.
pub fn reported_permissions(enabled: bool, allowed_actions: Option<AllowedActions>) -> (permissions:
    ActionsPermissions)
    ensures
        permissions.enabled == enabled,
        permissions.allowed_actions == (match allowed_actions {
            Some(policy) => policy,
            None => AllowedActions::All,
        }),
        permissions == permissions_of(enabled, allowed_actions),
{
    ActionsPermissions {
        enabled: enabled,
        allowed_actions: match allowed_actions {
            Some(policy) => policy,
            None => AllowedActions::All,
        },
    }
}

} // verus!
