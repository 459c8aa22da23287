//! Laws of the operations of a plan: what GitHub is asked, and where.

use vstd::prelude::*;

use crate::apply::{
    actions_operations, all_branch_operations, branch_operations, failed, planned_operations,
    ruleset_operation, FailureView, OperationView,
};
use crate::bodies::{
    creation_body, permissions_body, protection_body, selected_body, topics_body, workflow_body,
};
use crate::branches::BranchPlanView;
use crate::config::AllowedActions;
use crate::github::CreateRepoView;
use crate::json::{compact, JsonView};
use crate::laws::actions::tally;
use crate::plan::RepoPlanView;
use crate::replies::{
    api_error, complaint, list_presence, notations, permissions_of, presence, success, unreadable,
};
use crate::reading::ReadView;
use crate::requests::{creation_request, read_request, user_request, ApiRequest, Method};
use crate::rulesets::RulesetPlanView;
use crate::text::{decimal, joined, trimmed};

verus! {

/// Whether an operation asks for the given thing, at the given place below the
/// endpoint.
pub open spec fn asks(
    operation: OperationView,
    base: Seq<char>,
    label: Seq<char>,
    method: Method,
    path: Seq<char>,
    body: Option<JsonView>,
) -> bool {
    &&& operation.label == label
    &&& operation.request.method == method
    &&& operation.request.path == path
    &&& operation.request.url == base + path
    &&& operation.request.body == body
}

/// Where a repository is found.
pub open spec fn place(plan: RepoPlanView) -> Seq<char> {
    "/repos/"@ + plan.owner + "/"@ + plan.repo
}

/// How many operations there are on some branches.
pub open spec fn branch_tally(plans: Seq<BranchPlanView>) -> nat
    decreases plans.len(),
{
    if plans.len() == 0 {
        0
    } else {
        branch_tally(plans.drop_last()) + tally(plans.last().protection is Some) + tally(
            plans.last().required_signatures is Some,
        )
    }
}

/// How many operations there are on the Actions settings.
pub open spec fn actions_tally(plan: RepoPlanView) -> nat {
    if plan.actions is Some {
        tally(plan.actions->0.permissions is Some) + tally(plan.actions->0.workflow is Some)
            + tally(plan.actions->0.selected is Some)
    } else {
        0
    }
}

/// How many operations there are on the settings and on the topics.
pub open spec fn head_tally(plan: RepoPlanView) -> nat {
    tally(plan.settings is Some && plan.settings->0.len() > 0) + tally(plan.topics is Some)
}

/// A plan asks for one operation for each part of it, and for nothing else.
pub proof fn law_one_operation_for_each_part(base: Seq<char>, plan: RepoPlanView)
    ensures
        planned_operations(base, plan).len() == head_tally(plan) + actions_tally(plan)
            + branch_tally(plan.branches) + plan.rulesets.len(),
{
    lemma_branch_tally(base, plan.owner, plan.repo, plan.branches);
    assert(plan.rulesets.map_values(
        |ruleset: RulesetPlanView| ruleset_operation(base, plan.owner, plan.repo, ruleset),
    ).len() == plan.rulesets.len());
}

proof fn lemma_branch_tally(
    base: Seq<char>,
    owner: Seq<char>,
    repo: Seq<char>,
    plans: Seq<BranchPlanView>,
)
    ensures
        all_branch_operations(base, owner, repo, plans).len() == branch_tally(plans),
    decreases plans.len(),
{
    if plans.len() > 0 {
        lemma_branch_tally(base, owner, repo, plans.drop_last());
    }
}

/// The settings are patched first, with just the fields of the patch; then the
/// topics are set.
pub proof fn law_settings_and_topics_are_sent(base: Seq<char>, plan: RepoPlanView)
    ensures
        plan.settings is Some && plan.settings->0.len() > 0 ==> asks(
            planned_operations(base, plan)[0],
            base,
            "update repository settings"@,
            Method::Patch,
            place(plan),
            Some(JsonView::Object(plan.settings->0)),
        ),
        plan.topics is Some ==> asks(
            planned_operations(base, plan)[head_tally(plan) - 1],
            base,
            "update topics"@,
            Method::Put,
            place(plan) + "/topics"@,
            Some(topics_body(plan.topics->0)),
        ),
{
}

/// Each part of the Actions settings is sent to its own place: the permissions,
/// then those of the workflows, then the allow-list.
pub proof fn law_actions_are_sent(base: Seq<char>, plan: RepoPlanView)
    requires
        plan.actions is Some,
    ensures
        ({
            let operations = planned_operations(base, plan);
            let actions = plan.actions->0;
            let first = head_tally(plan) as int;
            let second = first + tally(actions.permissions is Some);
            let third = second + tally(actions.workflow is Some);
            &&& actions.permissions is Some ==> asks(
                operations[first],
                base,
                "update actions permissions"@,
                Method::Put,
                place(plan) + "/actions/permissions"@,
                Some(permissions_body(actions.permissions->0)),
            )
            &&& actions.workflow is Some ==> asks(
                operations[second],
                base,
                "update workflow permissions"@,
                Method::Put,
                place(plan) + "/actions/permissions/workflow"@,
                Some(workflow_body(actions.workflow->0)),
            )
            &&& actions.selected is Some ==> asks(
                operations[third],
                base,
                "update selected actions"@,
                Method::Put,
                place(plan) + "/actions/permissions/selected-actions"@,
                Some(selected_body(actions.selected->0)),
            )
        }),
{
    let parts = actions_operations(base, plan.owner, plan.repo, plan.actions->0);
    let operations = planned_operations(base, plan);
    let first = head_tally(plan) as int;
    assert(parts.len() == actions_tally(plan));
    assert forall|i: int| 0 <= i < parts.len() implies operations[first + i]
        == #[trigger] parts[i] by {}
    let a: int = tally(plan.actions->0.permissions is Some) as int;
    let b: int = tally(plan.actions->0.workflow is Some) as int;
    if plan.actions->0.permissions is Some {
        assert(operations[first] == parts[0]);
    }
    if plan.actions->0.workflow is Some {
        assert(operations[first + a] == parts[a]);
    }
    if plan.actions->0.selected is Some {
        assert(operations[first + a + b] == parts[a + b]);
    }
}

/// The protection of a branch is put in place, and then signed commits are
/// required or no longer required, for the branch that they are planned for.
pub proof fn law_branches_are_sent(base: Seq<char>, plan: RepoPlanView, index: int)
    requires
        0 <= index < plan.branches.len(),
    ensures
        ({
            let operations = planned_operations(base, plan);
            let branch = plan.branches[index];
            let path = place(plan) + "/branches/"@ + branch.branch;
            let first = head_tally(plan) + actions_tally(plan) + branch_tally(
                plan.branches.take(index),
            );
            let second = first + tally(branch.protection is Some);
            &&& branch.protection is Some ==> asks(
                operations[first as int],
                base,
                "update branch protection for `"@ + branch.branch + "`"@,
                Method::Put,
                path + "/protection"@,
                Some(protection_body(branch.protection->0)),
            )
            &&& branch.required_signatures is Some ==> asks(
                operations[second as int],
                base,
                "update required signatures for `"@ + branch.branch + "`"@,
                if branch.required_signatures->0 {
                    Method::Post
                } else {
                    Method::Delete
                },
                path + "/protection/required_signatures"@,
                None,
            )
        }),
{
    let branch = plan.branches[index];
    let own = branch_operations(base, plan.owner, plan.repo, branch);
    let at: int = branch_tally(plan.branches.take(index)) as int;
    lemma_branch_place(base, plan.owner, plan.repo, plan.branches, index);
    lemma_branches_in_plan(base, plan);
    lemma_own_operations(base, plan, branch);
    let parts = all_branch_operations(base, plan.owner, plan.repo, plan.branches);
    if branch.protection is Some {
        assert(parts[at + 0] == own[0]);
    }
    if branch.required_signatures is Some {
        let second: int = tally(branch.protection is Some) as int;
        assert(parts[at + second] == own[second]);
    }
}

/// The operations on branches come after those on the settings, the topics and
/// the Actions settings.
proof fn lemma_branches_in_plan(base: Seq<char>, plan: RepoPlanView)
    ensures
        ({
            let parts = all_branch_operations(base, plan.owner, plan.repo, plan.branches);
            forall|i: int|
                0 <= i < parts.len() ==> planned_operations(base, plan)[head_tally(plan)
                    + actions_tally(plan) + i] == #[trigger] parts[i]
        }),
{
}

proof fn lemma_own_operations(base: Seq<char>, plan: RepoPlanView, branch: BranchPlanView)
    ensures
        ({
            let own = branch_operations(base, plan.owner, plan.repo, branch);
            let path = place(plan) + "/branches/"@ + branch.branch;
            let second = tally(branch.protection is Some) as int;
            &&& own.len() == second + tally(branch.required_signatures is Some)
            &&& branch.protection is Some ==> asks(
                own[0],
                base,
                "update branch protection for `"@ + branch.branch + "`"@,
                Method::Put,
                path + "/protection"@,
                Some(protection_body(branch.protection->0)),
            )
            &&& branch.required_signatures is Some ==> asks(
                own[second],
                base,
                "update required signatures for `"@ + branch.branch + "`"@,
                if branch.required_signatures->0 {
                    Method::Post
                } else {
                    Method::Delete
                },
                path + "/protection/required_signatures"@,
                None,
            )
        }),
{
}

proof fn lemma_branch_place(
    base: Seq<char>,
    owner: Seq<char>,
    repo: Seq<char>,
    plans: Seq<BranchPlanView>,
    index: int,
)
    requires
        0 <= index < plans.len(),
    ensures
        ({
            let all = all_branch_operations(base, owner, repo, plans);
            let own = branch_operations(base, owner, repo, plans[index]);
            let at = branch_tally(plans.take(index));
            at + own.len() <= all.len() && forall|i: int|
                0 <= i < own.len() ==> all[at + i] == #[trigger] own[i]
        }),
    decreases plans.len(),
{
    let rest = plans.drop_last();
    lemma_branch_tally(base, owner, repo, rest);
    if index == plans.len() - 1 {
        assert(plans.take(index) =~= rest);
    } else {
        lemma_branch_place(base, owner, repo, rest, index);
        assert(rest.take(index) =~= plans.take(index));
        assert(rest[index] == plans[index]);
    }
}

/// The rulesets come last, in their order: a new one is posted, and one that
/// exists is replaced under its own ID, with the body that is planned for it.
pub proof fn law_rulesets_are_sent(base: Seq<char>, plan: RepoPlanView, index: int)
    requires
        0 <= index < plan.rulesets.len(),
    ensures
        ({
            let operations = planned_operations(base, plan);
            let ruleset = plan.rulesets[index];
            let operation = operations[operations.len() - plan.rulesets.len() + index];
            match ruleset.id {
                None => asks(
                    operation,
                    base,
                    "create ruleset `"@ + ruleset.name + "`"@,
                    Method::Post,
                    place(plan) + "/rulesets"@,
                    Some(ruleset.body),
                ),
                Some(id) => asks(
                    operation,
                    base,
                    "update ruleset `"@ + ruleset.name + "`"@,
                    Method::Put,
                    place(plan) + "/rulesets/"@ + decimal(id as nat),
                    Some(ruleset.body),
                ),
            }
        }),
{
    let parts = plan.rulesets.map_values(
        |ruleset: RulesetPlanView| ruleset_operation(base, plan.owner, plan.repo, ruleset),
    );
    let operations = planned_operations(base, plan);
    assert(operations[operations.len() - plan.rulesets.len() + index] == parts[index]);
}

/// The failures are those of the operations that failed, in their order: what
/// one more operation adds.
pub proof fn law_failures_follow_the_operations(
    operations: Seq<OperationView>,
    outcomes: Seq<Result<(), String>>,
    operation: OperationView,
    outcome: Result<(), String>,
)
    requires
        operations.len() == outcomes.len(),
    ensures
        ({
            let before = failed(operations, outcomes);
            let after = failed(operations.push(operation), outcomes.push(outcome));
            match outcome {
                Ok(_) => after == before,
                Err(error) => after == before.push(
                    FailureView { operation: operation.label, error: error@ },
                ),
            }
        }),
        failed(Seq::empty(), outcomes).len() == 0,
{
    assert(operations.push(operation).drop_last() =~= operations);
    lemma_failed_prefix(operations, outcomes, outcomes.push(outcome));
}

proof fn lemma_failed_prefix(
    operations: Seq<OperationView>,
    outcomes: Seq<Result<(), String>>,
    more: Seq<Result<(), String>>,
)
    requires
        operations.len() <= outcomes.len() <= more.len(),
        forall|i: int| 0 <= i < operations.len() ==> #[trigger] outcomes[i] == more[i],
    ensures
        failed(operations, outcomes) == failed(operations, more),
    decreases operations.len(),
{
    if operations.len() > 0 {
        lemma_failed_prefix(operations.drop_last(), outcomes, more);
        assert(outcomes[operations.len() - 1] == more[operations.len() - 1]);
    }
}

// --- Reads ------------------------------------------------------------------------

/// Each part of the live state is asked for at its own place, and asking
/// changes nothing: nothing is sent along.
pub proof fn law_reads_only_ask(
    base: Seq<char>,
    owner: Seq<char>,
    repo: Seq<char>,
    read: ReadView,
)
    ensures
        ({
            let request = read_request(base, owner, repo, read);
            let here = "/repos/"@ + owner + "/"@ + repo;
            &&& request.method is Get
            &&& request.body is None
            &&& request.url == base + request.path
            &&& match read {
                ReadView::Repository => request.path == here,
                ReadView::ActionsPermissions => request.path == here + "/actions/permissions"@,
                ReadView::WorkflowPermissions => request.path == here
                    + "/actions/permissions/workflow"@,
                ReadView::SelectedActions => request.path == here
                    + "/actions/permissions/selected-actions"@,
                ReadView::BranchExists(branch) => request.path == here + "/branches/"@ + branch,
                ReadView::BranchProtection(branch) => request.path == here + "/branches/"@ + branch
                    + "/protection"@,
                ReadView::Rulesets => request.path == here + "/rulesets"@,
                ReadView::Ruleset(id) => request.path == here + "/rulesets/"@ + decimal(id as nat),
            }
        }),
{
}

/// The user is asked for, and a repository is created for that user with the
/// planned body, at the places that the API has for that.
pub proof fn law_requests_of_the_user(base: Seq<char>, creation: CreateRepoView)
    ensures
        ({
            let user = user_request(base);
            let created = creation_request(base, creation);
            &&& user.method is Get
            &&& user.body is None
            &&& user.path == "/user"@
            &&& user.url == base + "/user"@
            &&& created.method is Post
            &&& created.body == Some(creation_body(creation))
            &&& created.path == "/user/repos"@
            &&& created.url == base + "/user/repos"@
        }),
{
}

/// A request is named by its method and its path.
pub proof fn law_requests_are_named(request: ApiRequest)
    ensures
        request.endpoint() == request.method.name() + (" "@ + request.path@),
{
    assert(request.endpoint() =~= request.method.name() + (" "@ + request.path@));
}

// --- Replies --------------------------------------------------------------------

/// A request was carried out exactly where its status is one of success, and
/// what is said of any other names the request, the status and the complaint.
pub proof fn law_statuses(context: Seq<char>, status: u16, message: Seq<char>)
    ensures
        success(status) <==> status / 100 == 2,
        api_error(context, status, message) == context + (": GitHub API error ("@ + (decimal(
            status as nat,
        ) + ("): "@ + message))),
{
    assert(api_error(context, status, message) =~= context + (": GitHub API error ("@ + (decimal(
        status as nat,
    ) + ("): "@ + message))));
}

/// What was asked for is there where the request was carried out, and is not
/// there where it was not found. Anything else is an error, except that there
/// is no allow-list where that conflicts with the policy.
pub proof fn law_presence(status: u16)
    ensures
        presence(status) == Some(true) <==> status / 100 == 2,
        presence(status) == Some(false) <==> status == 404,
        list_presence(status) == Some(true) <==> status / 100 == 2,
        list_presence(status) == Some(false) <==> status == 404 || status == 409,
{
}

/// Actions permissions are as reported, and all actions are allowed where no
/// policy is. What cannot be read is told with the request that it answers.
pub proof fn law_reported_permissions(
    enabled: bool,
    allowed_actions: Option<AllowedActions>,
    context: Seq<char>,
    text: Seq<char>,
)
    ensures
        permissions_of(enabled, allowed_actions).enabled == enabled,
        allowed_actions is Some ==> permissions_of(enabled, allowed_actions).allowed_actions
            == allowed_actions->0,
        allowed_actions is None ==> permissions_of(enabled, allowed_actions).allowed_actions is All,
        unreadable(context, text) == context + (": unexpected GitHub response: "@ + text),
{
    assert(unreadable(context, text) =~= context + (": unexpected GitHub response: "@ + text));
}

/// A reply complains with its message, and with its errors where it lists any;
/// a reply without a message complains with its text.
pub proof fn law_complaints(value: JsonView, text: Seq<char>)
    ensures
        complaint(None, text) == trimmed(text),
        match value.field("message"@) {
            Some(JsonView::String(message)) => match value.field("errors"@) {
                Some(JsonView::Array(errors)) => if errors.len() == 0 {
                    complaint(Some(value), text) == message
                } else {
                    complaint(Some(value), text) == message + (": "@ + joined(
                        Seq::new(errors.len(), |i: int| compact(errors[i])),
                        "; "@,
                    ))
                },
                _ => complaint(Some(value), text) == message,
            },
            _ => complaint(Some(value), text) == trimmed(text),
        },
{
    if let Some(JsonView::String(message)) = value.field("message"@) {
        if let Some(JsonView::Array(errors)) = value.field("errors"@) {
            let shown = Seq::new(errors.len(), |i: int| compact(errors[i]));
            assert(notations(errors) =~= shown);
            if errors.len() > 0 {
                assert(complaint(Some(value), text) =~= message + (": "@ + joined(shown, "; "@)));
            }
        }
    }
}

} // verus!
