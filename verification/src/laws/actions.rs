//! Laws of the Actions settings: what is declared is what comes about, and what
//! is reported is what changes.

use vstd::prelude::*;

use crate::actions::{allow_list_text, planned_actions, ActionsPlanView};
use crate::change::ChangeView;
use crate::config::{ActionsConfig, AllowedActions, WorkflowPermission};
use crate::github::{ActionsPermissions, SelectedView, WorkflowPermissions};
use crate::text::{joined, texts};

verus! {

/// Whether a value is the declared one, or else the one that there was.
pub open spec fn follows<T>(declared: Option<T>, before: T, after: T) -> bool {
    match declared {
        Some(value) => after == value,
        None => after == before,
    }
}

/// Whether a list holds the given strings in their order.
pub open spec fn spells(list: Seq<Seq<char>>, strings: Seq<String>) -> bool {
    &&& list.len() == strings.len()
    &&& forall|i: int| 0 <= i < list.len() ==> #[trigger] list[i] == strings[i]@
}

/// Whether a text is one of some strings.
pub open spec fn is_among(strings: Seq<String>, text: Seq<char>) -> bool {
    exists|j: int| 0 <= j < strings.len() && (#[trigger] strings[j])@ == text
}

/// Whether a list holds the same texts as some strings, in whatever order.
pub open spec fn spells_in_any_order(list: Seq<Seq<char>>, strings: Seq<String>) -> bool {
    forall|text: Seq<char>| #[trigger] list.contains(text) <==> is_among(strings, text)
}

/// One for a condition that holds.
pub open spec fn tally(condition: bool) -> nat {
    if condition {
        1
    } else {
        0
    }
}

/// How a flag is shown.
pub open spec fn yes_no(flag: bool) -> Seq<char> {
    if flag {
        "true"@
    } else {
        "false"@
    }
}

/// The permissions once a plan was carried out.
pub open spec fn permissions_then(
    plan: Option<ActionsPlanView>,
    before: ActionsPermissions,
) -> ActionsPermissions {
    if plan is Some && plan->0.permissions is Some {
        plan->0.permissions->0
    } else {
        before
    }
}

/// The workflow permissions once a plan was carried out.
pub open spec fn workflow_then(
    plan: Option<ActionsPlanView>,
    before: WorkflowPermissions,
) -> WorkflowPermissions {
    if plan is Some && plan->0.workflow is Some {
        plan->0.workflow->0
    } else {
        before
    }
}

/// The allow-list once a plan was carried out.
pub open spec fn selected_then(plan: Option<ActionsPlanView>, before: SelectedView) -> SelectedView {
    if plan is Some && plan->0.selected is Some {
        plan->0.selected->0
    } else {
        before
    }
}

/// What is declared of the Actions settings holds once the plan was carried
/// out, and what is not declared is as it was. The allow-list is touched only
/// where one is declared and the policy is `selected` by then.
pub proof fn law_declared_actions_come_about(
    cfg: ActionsConfig,
    permissions: ActionsPermissions,
    workflow: WorkflowPermissions,
    selected: SelectedView,
)
    ensures
        ({
            let plan = planned_actions(cfg, permissions, workflow, selected);
            let p = permissions_then(plan, permissions);
            let w = workflow_then(plan, workflow);
            let s = selected_then(plan, selected);
            &&& follows(cfg.enable, permissions.enabled, p.enabled)
            &&& follows(cfg.policy, permissions.allowed_actions, p.allowed_actions)
            &&& follows(
                cfg.default_token_permissions,
                workflow.default_workflow_permissions,
                w.default_workflow_permissions,
            )
            &&& follows(
                cfg.allow_pr_approval,
                workflow.can_approve_pull_request_reviews,
                w.can_approve_pull_request_reviews,
            )
            &&& match cfg.selected {
                Some(list) => if p.allowed_actions is Selected {
                    &&& follows(
                        list.github_owned,
                        selected.github_owned_allowed,
                        s.github_owned_allowed,
                    )
                    &&& follows(list.verified, selected.verified_allowed, s.verified_allowed)
                    &&& match list.patterns {
                        Some(patterns) => spells(s.patterns_allowed, patterns@),
                        None => s.patterns_allowed == selected.patterns_allowed,
                    }
                } else {
                    s == selected
                },
                None => s == selected,
            }
        }),
{
    if let Some(list) = cfg.selected {
        if let Some(patterns) = list.patterns {
            assert(spells(texts(patterns@), patterns@));
        }
    }
}

/// A part of the Actions settings is sent only where it changes something, and
/// there is a plan exactly where something changes.
pub proof fn law_actions_are_sent_where_they_differ(
    cfg: ActionsConfig,
    permissions: ActionsPermissions,
    workflow: WorkflowPermissions,
    selected: SelectedView,
)
    ensures
        match planned_actions(cfg, permissions, workflow, selected) {
            Some(plan) => {
                &&& plan.permissions is Some || plan.workflow is Some || plan.selected is Some
                &&& plan.permissions is Some ==> plan.permissions->0 != permissions
                &&& plan.workflow is Some ==> plan.workflow->0 != workflow
                &&& plan.selected is Some ==> plan.selected->0 != selected
                &&& plan.changes.len() > 0
            },
            None => true,
        },
{
}

/// Each difference in the Actions settings is reported under its name, with
/// what was and what will be, and nothing else is reported.
pub proof fn law_actions_are_reported(
    cfg: ActionsConfig,
    permissions: ActionsPermissions,
    workflow: WorkflowPermissions,
    selected: SelectedView,
)
    requires
        planned_actions(cfg, permissions, workflow, selected) is Some,
    ensures
        ({
            let plan = planned_actions(cfg, permissions, workflow, selected);
            let changes = plan->0.changes;
            let p = permissions_then(plan, permissions);
            let w = workflow_then(plan, workflow);
            let reported = |field: Seq<char>, from: Seq<char>, to: Seq<char>|
                changes.contains(
                    ChangeView { scope: "actions"@, field: field, from: Some(from), to: to },
                );
            &&& p.enabled != permissions.enabled ==> reported(
                "enable"@,
                yes_no(permissions.enabled),
                yes_no(p.enabled),
            )
            &&& p.allowed_actions != permissions.allowed_actions ==> reported(
                "policy"@,
                policy_word(permissions.allowed_actions),
                policy_word(p.allowed_actions),
            )
            &&& w.default_workflow_permissions != workflow.default_workflow_permissions
                ==> reported(
                "default_token_permissions"@,
                permission_word(workflow.default_workflow_permissions),
                permission_word(w.default_workflow_permissions),
            )
            &&& w.can_approve_pull_request_reviews != workflow.can_approve_pull_request_reviews
                ==> reported(
                "allow_pr_approval"@,
                yes_no(workflow.can_approve_pull_request_reviews),
                yes_no(w.can_approve_pull_request_reviews),
            )
            &&& plan->0.selected is Some ==> reported(
                "selected"@,
                list_words(selected),
                list_words(plan->0.selected->0),
            )
            &&& changes.len() == tally(p.enabled != permissions.enabled) + tally(
                p.allowed_actions != permissions.allowed_actions,
            ) + tally(w.default_workflow_permissions != workflow.default_workflow_permissions)
                + tally(
                w.can_approve_pull_request_reviews != workflow.can_approve_pull_request_reviews,
            ) + tally(plan->0.selected is Some)
        }),
{
    broadcast use vstd::seq_lib::group_seq_properties;

    if planned_actions(cfg, permissions, workflow, selected)->0.selected is Some {
        lemma_list_words(selected);
        lemma_list_words(planned_actions(cfg, permissions, workflow, selected)->0.selected->0);
    }
}

proof fn lemma_list_words(list: SelectedView)
    ensures
        list_words(list) == allow_list_text(list),
{
    assert(list_words(list) =~= allow_list_text(list));
}

/// How an allow-list is called.
pub open spec fn list_words(list: SelectedView) -> Seq<char> {
    "github_owned="@ + yes_no(list.github_owned_allowed) + ", verified="@ + yes_no(
        list.verified_allowed,
    ) + ", patterns=["@ + joined(list.patterns_allowed, ", "@) + "]"@
}

/// How a policy is called.
pub open spec fn policy_word(policy: AllowedActions) -> Seq<char> {
    if policy is All {
        "all"@
    } else if policy is LocalOnly {
        "local_only"@
    } else {
        "selected"@
    }
}

/// How a token permission is called.
pub open spec fn permission_word(permission: WorkflowPermission) -> Seq<char> {
    if permission is Read {
        "read"@
    } else {
        "write"@
    }
}

} // verus!
