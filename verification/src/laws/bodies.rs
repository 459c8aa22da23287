//! Laws of the bodies that GitHub is sent: each field has the value that it is
//! named after.

use vstd::prelude::*;

use crate::bodies::{
    checks_body, checks_fields, creation_body, optional_text, permissions_body, permissions_fields,
    protection_body, protection_fields, restrictions_body, restrictions_fields, reviews_body,
    reviews_fields, selected_body, selected_fields, topics_body, workflow_body, workflow_fields,
};
use crate::github::{
    ActionsPermissions, BranchProtectionView, CreateRepoView, PullRequestReviews,
    PushRestrictionsView, SelectedView, StatusChecksView, WorkflowPermissions,
};
use crate::json::{gathered, string_array, JsonView, NumberView};
use crate::keymap::{lemma_lookup_with_entry, lookup};
use crate::laws::actions::{permission_word, policy_word};

verus! {

/// Whether no two entries have one key.
pub open spec fn keys_differ(entries: Seq<(Seq<char>, JsonView)>) -> bool {
    forall|i: int, j: int|
        0 <= i < j < entries.len() ==> (#[trigger] entries[i]).0 != (#[trigger] entries[j]).0
}

/// Putting entries into a map one after another keeps, for each key, the value
/// that was put in last, and has no other keys.
pub proof fn law_gathering_keeps_the_last(
    entries: Seq<(Seq<char>, JsonView)>,
    key: Seq<char>,
    value: JsonView,
)
    ensures
        lookup(gathered(entries.push((key, value))), key) == Some(value),
        forall|other: Seq<char>|
            other != key ==> #[trigger] lookup(gathered(entries.push((key, value))), other)
                == lookup(gathered(entries), other),
        forall|other: Seq<char>| #[trigger] lookup(gathered(Seq::empty()), other) is None,
{
    let more = entries.push((key, value));
    assert(more.drop_last() =~= entries);
    lemma_lookup_with_entry(gathered(entries), key, value, key);
    assert forall|other: Seq<char>| other != key implies #[trigger] lookup(gathered(more), other)
        == lookup(gathered(entries), other) by {
        lemma_lookup_with_entry(gathered(entries), key, value, other);
    }
}

/// Where no two entries have one key, each key leads to its value.
proof fn lemma_gathered(entries: Seq<(Seq<char>, JsonView)>)
    requires
        keys_differ(entries),
    ensures
        forall|i: int|
            0 <= i < entries.len() ==> lookup(gathered(entries), (#[trigger] entries[i]).0) == Some(
                entries[i].1,
            ),
        forall|key: Seq<char>|
            (forall|i: int| 0 <= i < entries.len() ==> (#[trigger] entries[i]).0 != key) ==> (
            #[trigger] lookup(gathered(entries), key)) is None,
    decreases entries.len(),
{
    if entries.len() > 0 {
        let rest = entries.drop_last();
        let (key, value) = entries.last();
        assert forall|i: int, j: int| 0 <= i < j < rest.len() implies (#[trigger] rest[i]).0 != (
        #[trigger] rest[j]).0 by {
            assert(rest[i] == entries[i] && rest[j] == entries[j]);
        }
        lemma_gathered(rest);
        law_gathering_keeps_the_last(rest, key, value);
        assert(entries =~= rest.push((key, value)));
        assert forall|i: int| 0 <= i < entries.len() implies lookup(
            gathered(entries),
            (#[trigger] entries[i]).0,
        ) == Some(entries[i].1) by {
            if i < rest.len() {
                assert(rest[i] == entries[i]);
                assert(entries[i].0 != entries[entries.len() - 1].0);
            }
        }
        assert forall|other: Seq<char>|
            (forall|i: int| 0 <= i < entries.len() ==> (#[trigger] entries[i]).0 != other) implies (
        #[trigger] lookup(gathered(entries), other)) is None by {
            assert(entries[entries.len() - 1].0 != other);
            assert forall|i: int| 0 <= i < rest.len() implies (#[trigger] rest[i]).0 != other by {
                assert(entries[i].0 != other);
            }
        }
    }
}

/// The body that creates a repository has its name and whether it is private,
/// and the texts that are known.
pub proof fn law_creation_body(creation: CreateRepoView)
    ensures
        creation_body(creation).field("name"@) == Some(JsonView::String(creation.name)),
        creation_body(creation).field("private"@) == Some(JsonView::Bool(creation.private)),
        creation_body(creation).field("description"@) == (match creation.description {
            Some(text) => Some(JsonView::String(text)),
            None => None,
        }),
        creation_body(creation).field("homepage"@) == (match creation.homepage {
            Some(text) => Some(JsonView::String(text)),
            None => None,
        }),
        forall|key: Seq<char>|
            key != "name"@ && key != "private"@ && key != "description"@ && key != "homepage"@
                ==> (#[trigger] creation_body(creation).field(key)) is None,
{
    reveal_strlit("name");
    reveal_strlit("private");
    reveal_strlit("description");
    reveal_strlit("homepage");
    assert("name"@.len() == 4 && "private"@.len() == 7 && "description"@.len() == 11);
    assert("homepage"@.len() == 8);
    let none = Seq::<(Seq<char>, JsonView)>::empty();
    let name = JsonView::String(creation.name);
    let private = JsonView::Bool(creation.private);
    let first = none.push(("name"@, name));
    law_gathering_keeps_the_last(none, "name"@, name);
    let second = match creation.description {
        Some(text) => first.push(("description"@, JsonView::String(text))),
        None => first,
    };
    if let Some(text) = creation.description {
        law_gathering_keeps_the_last(first, "description"@, JsonView::String(text));
    }
    let third = match creation.homepage {
        Some(text) => second.push(("homepage"@, JsonView::String(text))),
        None => second,
    };
    if let Some(text) = creation.homepage {
        law_gathering_keeps_the_last(second, "homepage"@, JsonView::String(text));
    }
    law_gathering_keeps_the_last(third, "private"@, private);
    let all = third.push(("private"@, private));
    let stated = seq![("name"@, name)] + optional_text(
        "description"@,
        creation.description,
    ) + optional_text("homepage"@, creation.homepage) + seq![
        ("private"@, private),
    ];
    assert(stated =~= all);
}

/// The body that sets topics has their names.
pub proof fn law_topics_body(topics: Seq<Seq<char>>)
    ensures
        topics_body(topics).field("names"@) == Some(string_array(topics)),
        forall|key: Seq<char>|
            key != "names"@ ==> (#[trigger] topics_body(topics).field(key)) is None,
{
    let entries = seq![("names"@, string_array(topics))];
    lemma_gathered(entries);
    assert(entries[0].0 == "names"@);
}

/// A list of strings is an array of just these strings.
pub proof fn law_string_lists(strings: Seq<Seq<char>>)
    ensures
        match string_array(strings) {
            JsonView::Array(items) => items.len() == strings.len() && forall|i: int|
                0 <= i < items.len() ==> #[trigger] items[i] == JsonView::String(strings[i]),
            _ => false,
        },
{
}

/// The body that sets the Actions permissions.
pub proof fn law_permissions_body(permissions: ActionsPermissions)
    ensures
        permissions_body(permissions).field("enabled"@) == Some(
            JsonView::Bool(permissions.enabled),
        ),
        permissions_body(permissions).field("allowed_actions"@) == Some(
            JsonView::String(policy_word(permissions.allowed_actions)),
        ),
        forall|key: Seq<char>|
            key != "enabled"@ && key != "allowed_actions"@
                ==> (#[trigger] permissions_body(permissions).field(key)) is None,
{
    reveal_strlit("enabled");
    reveal_strlit("allowed_actions");
    let entries = permissions_fields(permissions);
    assert(entries[0].0 == "enabled"@ && entries[1].0 == "allowed_actions"@);
    assert("enabled"@.len() == 7 && "allowed_actions"@.len() == 15);
    lemma_gathered(entries);
}

/// The body that sets the workflow permissions.
pub proof fn law_workflow_body(permissions: WorkflowPermissions)
    ensures
        workflow_body(permissions).field("default_workflow_permissions"@) == Some(
            JsonView::String(permission_word(permissions.default_workflow_permissions)),
        ),
        workflow_body(permissions).field("can_approve_pull_request_reviews"@) == Some(
            JsonView::Bool(permissions.can_approve_pull_request_reviews),
        ),
        forall|key: Seq<char>|
            key != "default_workflow_permissions"@ && key != "can_approve_pull_request_reviews"@
                ==> (#[trigger] workflow_body(permissions).field(key)) is None,
{
    reveal_strlit("default_workflow_permissions");
    reveal_strlit("can_approve_pull_request_reviews");
    let entries = workflow_fields(permissions);
    assert(entries[0].0 == "default_workflow_permissions"@);
    assert(entries[1].0 == "can_approve_pull_request_reviews"@);
    assert("default_workflow_permissions"@.len() == 28);
    assert("can_approve_pull_request_reviews"@.len() == 32);
    lemma_gathered(entries);
}

/// The body that sets the allow-list of actions.
pub proof fn law_selected_body(selected: SelectedView)
    ensures
        selected_body(selected).field("github_owned_allowed"@) == Some(
            JsonView::Bool(selected.github_owned_allowed),
        ),
        selected_body(selected).field("verified_allowed"@) == Some(
            JsonView::Bool(selected.verified_allowed),
        ),
        selected_body(selected).field("patterns_allowed"@) == Some(
            string_array(selected.patterns_allowed),
        ),
        forall|key: Seq<char>|
            key != "github_owned_allowed"@ && key != "verified_allowed"@
                && key != "patterns_allowed"@
                ==> (#[trigger] selected_body(selected).field(key)) is None,
{
    reveal_strlit("github_owned_allowed");
    reveal_strlit("verified_allowed");
    reveal_strlit("patterns_allowed");
    let entries = selected_fields(selected);
    assert(entries[0].0 == "github_owned_allowed"@ && entries[1].0 == "verified_allowed"@);
    assert(entries[2].0 == "patterns_allowed"@);
    assert("github_owned_allowed"@.len() == 20 && "verified_allowed"@.len() == 16);
    assert("verified_allowed"@[0] != "patterns_allowed"@[0] && "patterns_allowed"@.len() == 16);
    lemma_gathered(entries);
}

/// The status checks in a body, `null` where there are none.
pub proof fn law_checks_body(checks: StatusChecksView)
    ensures
        checks_body(None) is Null,
        checks_body(Some(checks)).field("strict"@) == Some(JsonView::Bool(checks.strict)),
        checks_body(Some(checks)).field("contexts"@) == Some(string_array(checks.contexts)),
        forall|key: Seq<char>|
            key != "strict"@ && key != "contexts"@
                ==> (#[trigger] checks_body(Some(checks)).field(key)) is None,
{
    reveal_strlit("strict");
    reveal_strlit("contexts");
    let entries = checks_fields(checks);
    assert(entries[0].0 == "strict"@ && entries[1].0 == "contexts"@);
    assert("strict"@.len() == 6 && "contexts"@.len() == 8);
    lemma_gathered(entries);
}

/// The reviews in a body, `null` where there are none.
pub proof fn law_reviews_body(reviews: PullRequestReviews)
    ensures
        reviews_body(None) is Null,
        reviews_body(Some(reviews)).field("dismiss_stale_reviews"@) == Some(
            JsonView::Bool(reviews.dismiss_stale_reviews),
        ),
        reviews_body(Some(reviews)).field("require_code_owner_reviews"@) == Some(
            JsonView::Bool(reviews.require_code_owner_reviews),
        ),
        reviews_body(Some(reviews)).field("required_approving_review_count"@) == Some(
            JsonView::Number(NumberView::Int(reviews.required_approving_review_count as int)),
        ),
        reviews_body(Some(reviews)).field("require_last_push_approval"@) == Some(
            JsonView::Bool(reviews.require_last_push_approval),
        ),
        forall|key: Seq<char>|
            key != "dismiss_stale_reviews"@ && key != "require_code_owner_reviews"@
                && key != "required_approving_review_count"@
                && key != "require_last_push_approval"@
                ==> (#[trigger] reviews_body(Some(reviews)).field(key)) is None,
{
    reveal_strlit("dismiss_stale_reviews");
    reveal_strlit("require_code_owner_reviews");
    reveal_strlit("required_approving_review_count");
    reveal_strlit("require_last_push_approval");
    let entries = reviews_fields(reviews);
    assert(entries[0].0 == "dismiss_stale_reviews"@);
    assert(entries[1].0 == "require_code_owner_reviews"@);
    assert(entries[2].0 == "required_approving_review_count"@);
    assert(entries[3].0 == "require_last_push_approval"@);
    assert("dismiss_stale_reviews"@.len() == 21);
    assert("require_code_owner_reviews"@.len() == 26);
    assert("required_approving_review_count"@.len() == 31);
    assert("require_last_push_approval"@.len() == 26);
    assert("require_code_owner_reviews"@[8] != "require_last_push_approval"@[8]);
    lemma_gathered(entries);
}

/// The push restrictions in a body, `null` where there are none.
pub proof fn law_restrictions_body(restrictions: PushRestrictionsView)
    ensures
        restrictions_body(None) is Null,
        restrictions_body(Some(restrictions)).field("users"@) == Some(
            string_array(restrictions.users),
        ),
        restrictions_body(Some(restrictions)).field("teams"@) == Some(
            string_array(restrictions.teams),
        ),
        restrictions_body(Some(restrictions)).field("apps"@) == Some(
            string_array(restrictions.apps),
        ),
        forall|key: Seq<char>|
            key != "users"@ && key != "teams"@ && key != "apps"@
                ==> (#[trigger] restrictions_body(Some(restrictions)).field(key)) is None,
{
    reveal_strlit("users");
    reveal_strlit("teams");
    reveal_strlit("apps");
    let entries = restrictions_fields(restrictions);
    assert(entries[0].0 == "users"@ && entries[1].0 == "teams"@ && entries[2].0 == "apps"@);
    assert("users"@[0] != "teams"@[0] && "users"@.len() == 5 && "teams"@.len() == 5);
    assert("apps"@.len() == 4);
    lemma_gathered(entries);
}

/// The body that protects a branch has every part of the protection.
pub proof fn law_protection_body(protection: BranchProtectionView)
    ensures
        ({
            let body = protection_body(protection);
            &&& body.field("required_status_checks"@) == Some(
                checks_body(protection.required_status_checks),
            )
            &&& body.field("required_pull_request_reviews"@) == Some(
                reviews_body(protection.required_pull_request_reviews),
            )
            &&& body.field("restrictions"@) == Some(restrictions_body(protection.restrictions))
            &&& body.field("enforce_admins"@) == Some(JsonView::Bool(protection.enforce_admins))
            &&& body.field("required_linear_history"@) == Some(
                JsonView::Bool(protection.required_linear_history),
            )
            &&& body.field("allow_force_pushes"@) == Some(
                JsonView::Bool(protection.allow_force_pushes),
            )
            &&& body.field("allow_deletions"@) == Some(JsonView::Bool(protection.allow_deletions))
            &&& body.field("block_creations"@) == Some(JsonView::Bool(protection.block_creations))
            &&& body.field("required_conversation_resolution"@) == Some(
                JsonView::Bool(protection.required_conversation_resolution),
            )
            &&& body.field("lock_branch"@) == Some(JsonView::Bool(protection.lock_branch))
            &&& body.field("allow_fork_syncing"@) == Some(
                JsonView::Bool(protection.allow_fork_syncing),
            )
        }),
        forall|key: Seq<char>|
            key != "required_status_checks"@ && key != "enforce_admins"@
                && key != "required_pull_request_reviews"@ && key != "restrictions"@
                && key != "required_linear_history"@ && key != "allow_force_pushes"@
                && key != "allow_deletions"@ && key != "block_creations"@
                && key != "required_conversation_resolution"@ && key != "lock_branch"@
                && key != "allow_fork_syncing"@
                ==> (#[trigger] protection_body(protection).field(key)) is None,
{
    let entries = protection_fields(protection);
    lemma_protection_keys(protection);
    lemma_gathered(entries);
    assert(entries[0].0 == "required_status_checks"@ && entries[1].0 == "enforce_admins"@);
    assert(entries[2].0 == "required_pull_request_reviews"@ && entries[3].0 == "restrictions"@);
    assert(entries[4].0 == "required_linear_history"@ && entries[5].0 == "allow_force_pushes"@);
    assert(entries[6].0 == "allow_deletions"@ && entries[7].0 == "block_creations"@);
    assert(entries[8].0 == "required_conversation_resolution"@ && entries[9].0 == "lock_branch"@);
    assert(entries[10].0 == "allow_fork_syncing"@);
}

/// The place of a key in the protection, by which no two are the same.
spec fn place_in_protection(key: Seq<char>) -> int {
    if key.len() == 22 {
        0
    } else if key.len() == 14 {
        1
    } else if key.len() == 29 {
        2
    } else if key.len() == 12 {
        3
    } else if key.len() == 23 {
        4
    } else if key.len() == 18 && key[9] == 'c' {
        5
    } else if key.len() == 15 && key[0] == 'a' {
        6
    } else if key.len() == 15 {
        7
    } else if key.len() == 32 {
        8
    } else if key.len() == 11 {
        9
    } else {
        10
    }
}

proof fn lemma_protection_keys(protection: BranchProtectionView)
    ensures
        keys_differ(protection_fields(protection)),
{
    reveal_strlit("required_status_checks");
    reveal_strlit("enforce_admins");
    reveal_strlit("required_pull_request_reviews");
    reveal_strlit("restrictions");
    reveal_strlit("required_linear_history");
    reveal_strlit("allow_force_pushes");
    reveal_strlit("allow_deletions");
    reveal_strlit("block_creations");
    reveal_strlit("required_conversation_resolution");
    reveal_strlit("lock_branch");
    reveal_strlit("allow_fork_syncing");
    let entries = protection_fields(protection);
    assert(place_in_protection("required_status_checks"@) == 0);
    assert(place_in_protection("enforce_admins"@) == 1);
    assert(place_in_protection("required_pull_request_reviews"@) == 2);
    assert(place_in_protection("restrictions"@) == 3);
    assert(place_in_protection("required_linear_history"@) == 4);
    assert(place_in_protection("allow_force_pushes"@) == 5);
    assert(place_in_protection("allow_deletions"@) == 6);
    assert(place_in_protection("block_creations"@) == 7);
    assert(place_in_protection("required_conversation_resolution"@) == 8);
    assert(place_in_protection("lock_branch"@) == 9);
    assert(place_in_protection("allow_fork_syncing"@) == 10);
    assert(forall|i: int| 0 <= i < 11 ==> place_in_protection((#[trigger] entries[i]).0) == i);
}

} // verus!
