//! Reconciling the GitHub Actions settings of a repository.

use vstd::prelude::*;
use vstd::string::*;

use crate::change::{change_views, note, noted, Change, ChangeView};
use crate::config::{ActionsConfig, AllowedActions, SelectedActionsConfig, WorkflowPermission};
use crate::github::{ActionsPermissions, SelectedActions, SelectedView, WorkflowPermissions};
use crate::text::{copy_list, join, joined, same_list, texts, truth, truth_text};

verus! {

/// What to change in the Actions settings.
#[derive(Debug, Clone, Default)]
pub struct ActionsPlan {
    pub permissions: Option<ActionsPermissions>,
    pub workflow: Option<WorkflowPermissions>,
    pub selected: Option<SelectedActions>,
    pub changes: Vec<Change>,
}

/// The model of a plan for the Actions settings.
pub struct ActionsPlanView {
    pub permissions: Option<ActionsPermissions>,
    pub workflow: Option<WorkflowPermissions>,
    pub selected: Option<SelectedView>,
    pub changes: Seq<ChangeView>,
}

impl View for ActionsPlan {
    type V = ActionsPlanView;

    open spec fn view(&self) -> ActionsPlanView {
        ActionsPlanView {
            permissions: self.permissions,
            workflow: self.workflow,
            selected: match self.selected {
                Some(s) => Some(s@),
                None => None,
            },
            changes: change_views(self.changes@),
        }
    }
}

// --- Models -------------------------------------------------------------

/// The name of a policy.
pub open spec fn allowed_actions_text(policy: AllowedActions) -> Seq<char> {
    match policy {
        AllowedActions::All => "all"@,
        AllowedActions::LocalOnly => "local_only"@,
        AllowedActions::Selected => "selected"@,
    }
}

/// The name of a token permission.
pub open spec fn workflow_permission_text(permission: WorkflowPermission) -> Seq<char> {
    match permission {
        WorkflowPermission::Read => "read"@,
        WorkflowPermission::Write => "write"@,
    }
}

/// The permissions with what was declared.
pub open spec fn desired_permissions(
    cfg: ActionsConfig,
    live: ActionsPermissions,
) -> ActionsPermissions {
    ActionsPermissions {
        enabled: match cfg.enable {
            Some(enable) => enable,
            None => live.enabled,
        },
        allowed_actions: match cfg.policy {
            Some(policy) => policy,
            None => live.allowed_actions,
        },
    }
}

/// The workflow permissions with what was declared.
pub open spec fn desired_workflow(
    cfg: ActionsConfig,
    live: WorkflowPermissions,
) -> WorkflowPermissions {
    WorkflowPermissions {
        default_workflow_permissions: match cfg.default_token_permissions {
            Some(permission) => permission,
            None => live.default_workflow_permissions,
        },
        can_approve_pull_request_reviews: match cfg.allow_pr_approval {
            Some(allow) => allow,
            None => live.can_approve_pull_request_reviews,
        },
    }
}

/// The allow-list with what was declared.
pub open spec fn desired_allow_list(cfg: SelectedActionsConfig, live: SelectedView) -> SelectedView {
    SelectedView {
        github_owned_allowed: match cfg.github_owned {
            Some(allow) => allow,
            None => live.github_owned_allowed,
        },
        verified_allowed: match cfg.verified {
            Some(allow) => allow,
            None => live.verified_allowed,
        },
        patterns_allowed: match cfg.patterns {
            Some(patterns) => texts(patterns@),
            None => live.patterns_allowed,
        },
    }
}

/// The allow-list to send: one was declared, the policy is or becomes
/// `selected`, and the live list differs.
pub open spec fn selected_to_send(
    cfg: ActionsConfig,
    permissions: ActionsPermissions,
    live: SelectedView,
) -> Option<SelectedView> {
    if cfg.selected is Some && desired_permissions(cfg, permissions).allowed_actions
        == AllowedActions::Selected && desired_allow_list(cfg.selected->0, live) != live {
        Some(desired_allow_list(cfg.selected->0, live))
    } else {
        None
    }
}

/// How an allow-list is shown.
pub open spec fn allow_list_text(selected: SelectedView) -> Seq<char> {
    "github_owned="@ + truth(selected.github_owned_allowed) + ", verified="@ + truth(
        selected.verified_allowed,
    ) + ", patterns=["@ + joined(selected.patterns_allowed, ", "@) + "]"@
}

/// The differences in the Actions settings, in the order in which they are
/// reported.
pub open spec fn actions_changes(
    cfg: ActionsConfig,
    permissions: ActionsPermissions,
    workflow: WorkflowPermissions,
    selected: SelectedView,
) -> Seq<ChangeView> {
    let new_permissions = desired_permissions(cfg, permissions);
    let new_workflow = desired_workflow(cfg, workflow);
    let new_selected = selected_to_send(cfg, permissions, selected);
    noted(
        new_permissions.enabled != permissions.enabled,
        "actions"@,
        "enable"@,
        Some(truth(permissions.enabled)),
        truth(new_permissions.enabled),
    ) + noted(
        new_permissions.allowed_actions != permissions.allowed_actions,
        "actions"@,
        "policy"@,
        Some(allowed_actions_text(permissions.allowed_actions)),
        allowed_actions_text(new_permissions.allowed_actions),
    ) + noted(
        new_workflow.default_workflow_permissions != workflow.default_workflow_permissions,
        "actions"@,
        "default_token_permissions"@,
        Some(workflow_permission_text(workflow.default_workflow_permissions)),
        workflow_permission_text(new_workflow.default_workflow_permissions),
    ) + noted(
        new_workflow.can_approve_pull_request_reviews != workflow.can_approve_pull_request_reviews,
        "actions"@,
        "allow_pr_approval"@,
        Some(truth(workflow.can_approve_pull_request_reviews)),
        truth(new_workflow.can_approve_pull_request_reviews),
    ) + noted(
        new_selected is Some,
        "actions"@,
        "selected"@,
        Some(allow_list_text(selected)),
        allow_list_text(new_selected->0),
    )
}

/// The plan for the Actions settings: what differs is sent, and there is no
/// plan where nothing does.
pub open spec fn planned_actions(
    cfg: ActionsConfig,
    permissions: ActionsPermissions,
    workflow: WorkflowPermissions,
    selected: SelectedView,
) -> Option<ActionsPlanView> {
    let changes = actions_changes(cfg, permissions, workflow, selected);
    if changes.len() == 0 {
        None
    } else {
        Some(
            ActionsPlanView {
                permissions: if desired_permissions(cfg, permissions) != permissions {
                    Some(desired_permissions(cfg, permissions))
                } else {
                    None
                },
                workflow: if desired_workflow(cfg, workflow) != workflow {
                    Some(desired_workflow(cfg, workflow))
                } else {
                    None
                },
                selected: selected_to_send(cfg, permissions, selected),
                changes: changes,
            },
        )
    }
}

// --- Operations ----------------------------------------------------------

/// The name of a policy.
pub fn allowed_actions_str(v: AllowedActions) -> (text: String)
    ensures
        text@ == allowed_actions_text(v),
{
    match v {
        AllowedActions::All => "all".to_owned(),
        AllowedActions::LocalOnly => "local_only".to_owned(),
        AllowedActions::Selected => "selected".to_owned(),
    }
}

/// The name of a token permission.
pub fn workflow_permission_str(v: WorkflowPermission) -> (text: String)
    ensures
        text@ == workflow_permission_text(v),
{
    match v {
        WorkflowPermission::Read => "read".to_owned(),
        WorkflowPermission::Write => "write".to_owned(),
    }
}

/// How an allow-list is shown.
fn describe_allow_list(selected: &SelectedActions) -> (text: String)
    ensures
        text@ == allow_list_text(selected@),
{
    "github_owned=".to_owned().concat(truth_text(selected.github_owned_allowed).as_str()).concat(
        ", verified=",
    ).concat(truth_text(selected.verified_allowed).as_str()).concat(", patterns=[").concat(
        join(&selected.patterns_allowed, ", ").as_str(),
    ).concat("]")
}

/// The allow-list to send, if one has to be sent.
fn select_actions(
    cfg: &ActionsConfig,
    permissions: ActionsPermissions,
    live: &SelectedActions,
) -> (selected: Option<SelectedActions>)
    ensures
        match selected {
            Some(s) => selected_to_send(*cfg, permissions, live@) == Some(s@),
            None => selected_to_send(*cfg, permissions, live@) is None,
        },
{
    let policy = match cfg.policy {
        Some(policy) => policy,
        None => permissions.allowed_actions,
    };
    match &cfg.selected {
        Some(declared) => {
            // Allow-lists only matter once the policy is (or becomes) `selected`.
            if policy != AllowedActions::Selected {
                return None;
            }
            let desired = SelectedActions {
                github_owned_allowed: match declared.github_owned {
                    Some(allow) => allow,
                    None => live.github_owned_allowed,
                },
                verified_allowed: match declared.verified {
                    Some(allow) => allow,
                    None => live.verified_allowed,
                },
                patterns_allowed: match &declared.patterns {
                    Some(patterns) => copy_list(patterns),
                    None => copy_list(&live.patterns_allowed),
                },
            };
            assert(desired@ == desired_allow_list(*declared, live@));
            if desired.github_owned_allowed == live.github_owned_allowed
                && desired.verified_allowed == live.verified_allowed && same_list(
                &desired.patterns_allowed,
                &live.patterns_allowed,
            ) {
                return None;
            }
            Some(desired)
        },
        None => None,
    }
}

/// Plans the Actions settings, or `None` when they already match.
pub fn plan_actions(
    cfg: &ActionsConfig,
    perms: ActionsPermissions,
    wf: WorkflowPermissions,
    sel: SelectedActions,
) -> (plan: Option<ActionsPlan>)
    ensures
        match plan {
            Some(p) => planned_actions(*cfg, perms, wf, sel@) == Some(p@),
            None => planned_actions(*cfg, perms, wf, sel@) is None,
        },
{
    let mut changes: Vec<Change> = Vec::new();
    assert(change_views(changes@) =~= Seq::empty());

    let desired_perms = ActionsPermissions {
        enabled: match cfg.enable {
            Some(enable) => enable,
            None => perms.enabled,
        },
        allowed_actions: match cfg.policy {
            Some(policy) => policy,
            None => perms.allowed_actions,
        },
    };
    note(
        &mut changes,
        desired_perms.enabled != perms.enabled,
        "actions",
        "enable",
        Some(truth_text(perms.enabled)),
        truth_text(desired_perms.enabled),
    );
    note(
        &mut changes,
        desired_perms.allowed_actions != perms.allowed_actions,
        "actions",
        "policy",
        Some(allowed_actions_str(perms.allowed_actions)),
        allowed_actions_str(desired_perms.allowed_actions),
    );

    let desired_wf = WorkflowPermissions {
        default_workflow_permissions: match cfg.default_token_permissions {
            Some(permission) => permission,
            None => wf.default_workflow_permissions,
        },
        can_approve_pull_request_reviews: match cfg.allow_pr_approval {
            Some(allow) => allow,
            None => wf.can_approve_pull_request_reviews,
        },
    };
    note(
        &mut changes,
        desired_wf.default_workflow_permissions != wf.default_workflow_permissions,
        "actions",
        "default_token_permissions",
        Some(workflow_permission_str(wf.default_workflow_permissions)),
        workflow_permission_str(desired_wf.default_workflow_permissions),
    );
    note(
        &mut changes,
        desired_wf.can_approve_pull_request_reviews != wf.can_approve_pull_request_reviews,
        "actions",
        "allow_pr_approval",
        Some(truth_text(wf.can_approve_pull_request_reviews)),
        truth_text(desired_wf.can_approve_pull_request_reviews),
    );

    let selected = select_actions(cfg, perms, &sel);
    let ghost so_far = change_views(changes@);
    if let Some(desired) = &selected {
        note(
            &mut changes,
            true,
            "actions",
            "selected",
            Some(describe_allow_list(&sel)),
            describe_allow_list(desired),
        );
    } else {
        assert(so_far =~= so_far + Seq::<ChangeView>::empty());
    }
    assert(change_views(changes@) =~= actions_changes(*cfg, perms, wf, sel@));

    if changes.len() == 0 {
        return None;
    }
    Some(
        ActionsPlan {
            permissions: if desired_perms != perms {
                Some(desired_perms)
            } else {
                None
            },
            workflow: if desired_wf != wf {
                Some(desired_wf)
            } else {
                None
            },
            selected: selected,
            changes: changes,
        },
    )
}

} // verus!
