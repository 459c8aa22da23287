//! The bodies of the requests that GitHub is sent.

use vstd::prelude::*;

use crate::actions::{
    allowed_actions_str, allowed_actions_text, workflow_permission_str, workflow_permission_text,
};
use crate::github::{
    ActionsPermissions, BranchProtection, BranchProtectionView, CreateRepo, CreateRepoView,
    PullRequestReviews, PushRestrictions, PushRestrictionsView, SelectedActions, SelectedView,
    StatusChecks, StatusChecksView, WorkflowPermissions,
};
use crate::json::{
    gathered, json_string_list, no_object, object, put_next, string_array, Json, JsonView, Number,
    NumberView,
};
use crate::text::texts;

verus! {

// --- Models -------------------------------------------------------------

/// An optional string field.
pub open spec fn optional_text(key: Seq<char>, text: Option<Seq<char>>) -> Seq<
    (Seq<char>, JsonView),
> {
    match text {
        Some(t) => seq![(key, JsonView::String(t))],
        None => Seq::empty(),
    }
}

/// The body that creates a repository. Texts that were not declared are left
/// out.
pub open spec fn creation_body(creation: CreateRepoView) -> JsonView {
    JsonView::Object(
        gathered(
            seq![("name"@, JsonView::String(creation.name))] + optional_text(
                "description"@,
                creation.description,
            ) + optional_text("homepage"@, creation.homepage) + seq![
                ("private"@, JsonView::Bool(creation.private)),
            ],
        ),
    )
}

/// The body that sets topics.
pub open spec fn topics_body(topics: Seq<Seq<char>>) -> JsonView {
    JsonView::Object(gathered(seq![("names"@, string_array(topics))]))
}

/// The fields of the body `permissions_body`.
pub open spec fn permissions_fields(permissions: ActionsPermissions) -> Seq<(Seq<char>, JsonView)> {
    seq![
        ("enabled"@, JsonView::Bool(permissions.enabled)),
        (
            "allowed_actions"@,
            JsonView::String(allowed_actions_text(permissions.allowed_actions)),
        ),
    ]
}

/// The body that sets the Actions permissions.
pub open spec fn permissions_body(permissions: ActionsPermissions) -> JsonView {
    JsonView::Object(gathered(permissions_fields(permissions)))
}

/// The fields of the body `workflow_body`.
pub open spec fn workflow_fields(permissions: WorkflowPermissions) -> Seq<(Seq<char>, JsonView)> {
    seq![
        (
            "default_workflow_permissions"@,
            JsonView::String(
                workflow_permission_text(permissions.default_workflow_permissions),
            ),
        ),
        (
            "can_approve_pull_request_reviews"@,
            JsonView::Bool(permissions.can_approve_pull_request_reviews),
        ),
    ]
}

/// The body that sets the workflow permissions.
pub open spec fn workflow_body(permissions: WorkflowPermissions) -> JsonView {
    JsonView::Object(gathered(workflow_fields(permissions)))
}

/// The fields of the body `selected_body`.
pub open spec fn selected_fields(selected: SelectedView) -> Seq<(Seq<char>, JsonView)> {
    seq![
        ("github_owned_allowed"@, JsonView::Bool(selected.github_owned_allowed)),
        ("verified_allowed"@, JsonView::Bool(selected.verified_allowed)),
        ("patterns_allowed"@, string_array(selected.patterns_allowed)),
    ]
}

/// The body that sets the allow-list of actions.
pub open spec fn selected_body(selected: SelectedView) -> JsonView {
    JsonView::Object(gathered(selected_fields(selected)))
}

/// The fields of the object in `checks_body`.
pub open spec fn checks_fields(checks: StatusChecksView) -> Seq<(Seq<char>, JsonView)> {
    seq![
        ("strict"@, JsonView::Bool(checks.strict)),
        ("contexts"@, string_array(checks.contexts)),
    ]
}

/// Required status checks in a body.
pub open spec fn checks_body(checks: Option<StatusChecksView>) -> JsonView {
    match checks {
        Some(c) => JsonView::Object(gathered(checks_fields(c))),
        None => JsonView::Null,
    }
}

/// The fields of the object in `reviews_body`.
pub open spec fn reviews_fields(reviews: PullRequestReviews) -> Seq<(Seq<char>, JsonView)> {
    seq![
        ("dismiss_stale_reviews"@, JsonView::Bool(reviews.dismiss_stale_reviews)),
        ("require_code_owner_reviews"@, JsonView::Bool(reviews.require_code_owner_reviews)),
        (
            "required_approving_review_count"@,
            JsonView::Number(NumberView::Int(reviews.required_approving_review_count as int)),
        ),
        ("require_last_push_approval"@, JsonView::Bool(reviews.require_last_push_approval)),
    ]
}

/// Required reviews in a body.
pub open spec fn reviews_body(reviews: Option<PullRequestReviews>) -> JsonView {
    match reviews {
        Some(r) => JsonView::Object(gathered(reviews_fields(r))),
        None => JsonView::Null,
    }
}

/// The fields of the object in `restrictions_body`.
pub open spec fn restrictions_fields(restrictions: PushRestrictionsView) -> Seq<(Seq<char>, JsonView)> {
    seq![
        ("users"@, string_array(restrictions.users)),
        ("teams"@, string_array(restrictions.teams)),
        ("apps"@, string_array(restrictions.apps)),
    ]
}

/// Push restrictions in a body.
pub open spec fn restrictions_body(restrictions: Option<PushRestrictionsView>) -> JsonView {
    match restrictions {
        Some(r) => JsonView::Object(gathered(restrictions_fields(r))),
        None => JsonView::Null,
    }
}

/// The fields of the body `protection_body`.
pub open spec fn protection_fields(protection: BranchProtectionView) -> Seq<(Seq<char>, JsonView)> {
    seq![
        ("required_status_checks"@, checks_body(protection.required_status_checks)),
        ("enforce_admins"@, JsonView::Bool(protection.enforce_admins)),
        (
            "required_pull_request_reviews"@,
            reviews_body(protection.required_pull_request_reviews),
        ),
        ("restrictions"@, restrictions_body(protection.restrictions)),
        ("required_linear_history"@, JsonView::Bool(protection.required_linear_history)),
        ("allow_force_pushes"@, JsonView::Bool(protection.allow_force_pushes)),
        ("allow_deletions"@, JsonView::Bool(protection.allow_deletions)),
        ("block_creations"@, JsonView::Bool(protection.block_creations)),
        (
            "required_conversation_resolution"@,
            JsonView::Bool(protection.required_conversation_resolution),
        ),
        ("lock_branch"@, JsonView::Bool(protection.lock_branch)),
        ("allow_fork_syncing"@, JsonView::Bool(protection.allow_fork_syncing)),
    ]
}

/// The body that protects a branch: the full object, with `null` for the parts
/// that are switched off.
pub open spec fn protection_body(protection: BranchProtectionView) -> JsonView {
    JsonView::Object(gathered(protection_fields(protection)))
}

// --- Operations ----------------------------------------------------------

/// The body that creates a repository.
pub fn create_body(creation: &CreateRepo) -> (body: Json)
    ensures
        body@ == creation_body(creation@),
{
    let mut map = no_object();
    let Ghost(f) = put_next(
        &mut map,
        Ghost(Seq::empty()),
        "name",
        Json::String(creation.name.clone()),
    );
    let ghost named = f;
    let mut fields: Ghost<Seq<(Seq<char>, JsonView)>> = Ghost(f);
    if let Some(description) = &creation.description {
        fields = put_next(&mut map, fields, "description", Json::String(description.clone()));
    }
    assert(fields@ =~= named + optional_text("description"@, creation@.description));
    let ghost described = fields@;
    if let Some(homepage) = &creation.homepage {
        fields = put_next(&mut map, fields, "homepage", Json::String(homepage.clone()));
    }
    assert(fields@ =~= described + optional_text("homepage"@, creation@.homepage));
    let Ghost(all) = put_next(&mut map, fields, "private", Json::Bool(creation.private));
    assert(all =~= seq![("name"@, JsonView::String(creation@.name))] + optional_text(
        "description"@,
        creation@.description,
    ) + optional_text("homepage"@, creation@.homepage) + seq![
        ("private"@, JsonView::Bool(creation@.private)),
    ]);
    object(map, Ghost(all))
}

/// The body that sets topics.
pub fn topic_names_body(topics: &Vec<String>) -> (body: Json)
    ensures
        body@ == topics_body(texts(topics@)),
{
    let mut map = no_object();
    let Ghost(f) = put_next(&mut map, Ghost(Seq::empty()), "names", json_string_list(topics));
    assert(f =~= seq![("names"@, string_array(texts(topics@)))]);
    object(map, Ghost(f))
}

/// The body that sets the Actions permissions.
pub fn actions_permissions_body(permissions: ActionsPermissions) -> (body: Json)
    ensures
        body@ == permissions_body(permissions),
{
    let mut map = no_object();
    let Ghost(f) = put_next(
        &mut map,
        Ghost(Seq::empty()),
        "enabled",
        Json::Bool(permissions.enabled),
    );
    let policy = allowed_actions_str(permissions.allowed_actions);
    let Ghost(f) = put_next(&mut map, Ghost(f), "allowed_actions", Json::String(policy));
    assert(f =~= permissions_fields(permissions));
    object(map, Ghost(f))
}

/// The body that sets the workflow permissions.
pub fn workflow_permissions_body(permissions: WorkflowPermissions) -> (body: Json)
    ensures
        body@ == workflow_body(permissions),
{
    let mut map = no_object();
    let token = workflow_permission_str(permissions.default_workflow_permissions);
    let Ghost(f) = put_next(
        &mut map,
        Ghost(Seq::empty()),
        "default_workflow_permissions",
        Json::String(token),
    );
    let Ghost(f) = put_next(
        &mut map,
        Ghost(f),
        "can_approve_pull_request_reviews",
        Json::Bool(permissions.can_approve_pull_request_reviews),
    );
    assert(f =~= workflow_fields(permissions));
    object(map, Ghost(f))
}

/// The body that sets the allow-list of actions.
pub fn selected_actions_body(selected: &SelectedActions) -> (body: Json)
    ensures
        body@ == selected_body(selected@),
{
    let mut map = no_object();
    let Ghost(f) = put_next(
        &mut map,
        Ghost(Seq::empty()),
        "github_owned_allowed",
        Json::Bool(selected.github_owned_allowed),
    );
    let Ghost(f) = put_next(
        &mut map,
        Ghost(f),
        "verified_allowed",
        Json::Bool(selected.verified_allowed),
    );
    let patterns = json_string_list(&selected.patterns_allowed);
    let Ghost(f) = put_next(&mut map, Ghost(f), "patterns_allowed", patterns);
    assert(f =~= selected_fields(selected@));
    object(map, Ghost(f))
}

/// Required status checks in a body.
fn status_checks_body(checks: &Option<StatusChecks>) -> (body: Json)
    ensures
        body@ == checks_body(
            match *checks {
                Some(c) => Some(c@),
                None => None,
            },
        ),
{
    match checks {
        None => Json::Null,
        Some(c) => {
            let mut map = no_object();
            let Ghost(f) = put_next(
                &mut map,
                Ghost(Seq::empty()),
                "strict",
                Json::Bool(c.strict),
            );
            let contexts = json_string_list(&c.contexts);
            let Ghost(f) = put_next(&mut map, Ghost(f), "contexts", contexts);
            assert(f =~= checks_fields(c@));
            object(map, Ghost(f))
        },
    }
}

/// Required reviews in a body.
fn pull_request_reviews_body(reviews: Option<PullRequestReviews>) -> (body: Json)
    ensures
        body@ == reviews_body(reviews),
{
    match reviews {
        None => Json::Null,
        Some(r) => {
            let mut map = no_object();
            let Ghost(f) = put_next(
                &mut map,
                Ghost(Seq::empty()),
                "dismiss_stale_reviews",
                Json::Bool(r.dismiss_stale_reviews),
            );
            let Ghost(f) = put_next(
                &mut map,
                Ghost(f),
                "require_code_owner_reviews",
                Json::Bool(r.require_code_owner_reviews),
            );
            let count = Json::Number(Number::PosInt(r.required_approving_review_count as u64));
            let Ghost(f) = put_next(&mut map, Ghost(f), "required_approving_review_count", count);
            let Ghost(f) = put_next(
                &mut map,
                Ghost(f),
                "require_last_push_approval",
                Json::Bool(r.require_last_push_approval),
            );
            assert(f =~= reviews_fields(r));
            object(map, Ghost(f))
        },
    }
}

/// Push restrictions in a body.
fn push_restrictions_body(restrictions: &Option<PushRestrictions>) -> (body: Json)
    ensures
        body@ == restrictions_body(
            match *restrictions {
                Some(r) => Some(r@),
                None => None,
            },
        ),
{
    match restrictions {
        None => Json::Null,
        Some(r) => {
            let mut map = no_object();
            let Ghost(f) = put_next(
                &mut map,
                Ghost(Seq::empty()),
                "users",
                json_string_list(&r.users),
            );
            let Ghost(f) = put_next(&mut map, Ghost(f), "teams", json_string_list(&r.teams));
            let Ghost(f) = put_next(&mut map, Ghost(f), "apps", json_string_list(&r.apps));
            assert(f =~= restrictions_fields(r@));
            object(map, Ghost(f))
        },
    }
}

/// The body that protects a branch.
pub fn branch_protection_body(protection: &BranchProtection) -> (body: Json)
    ensures
        body@ == protection_body(protection@),
{
    let mut map = no_object();
    let Ghost(f) = put_next(
        &mut map,
        Ghost(Seq::empty()),
        "required_status_checks",
        status_checks_body(&protection.required_status_checks),
    );
    let Ghost(f) = put_next(
        &mut map,
        Ghost(f),
        "enforce_admins",
        Json::Bool(protection.enforce_admins),
    );
    let Ghost(f) = put_next(
        &mut map,
        Ghost(f),
        "required_pull_request_reviews",
        pull_request_reviews_body(protection.required_pull_request_reviews),
    );
    let Ghost(f) = put_next(
        &mut map,
        Ghost(f),
        "restrictions",
        push_restrictions_body(&protection.restrictions),
    );
    let Ghost(f) = put_next(
        &mut map,
        Ghost(f),
        "required_linear_history",
        Json::Bool(protection.required_linear_history),
    );
    let Ghost(f) = put_next(
        &mut map,
        Ghost(f),
        "allow_force_pushes",
        Json::Bool(protection.allow_force_pushes),
    );
    let Ghost(f) = put_next(
        &mut map,
        Ghost(f),
        "allow_deletions",
        Json::Bool(protection.allow_deletions),
    );
    let Ghost(f) = put_next(
        &mut map,
        Ghost(f),
        "block_creations",
        Json::Bool(protection.block_creations),
    );
    let Ghost(f) = put_next(
        &mut map,
        Ghost(f),
        "required_conversation_resolution",
        Json::Bool(protection.required_conversation_resolution),
    );
    let Ghost(f) = put_next(
        &mut map,
        Ghost(f),
        "lock_branch",
        Json::Bool(protection.lock_branch),
    );
    let Ghost(f) = put_next(
        &mut map,
        Ghost(f),
        "allow_fork_syncing",
        Json::Bool(protection.allow_fork_syncing),
    );
    assert(f =~= protection_fields(protection@));
    object(map, Ghost(f))
}

} // verus!
