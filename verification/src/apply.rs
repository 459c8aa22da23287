//! The operations that a plan asks for, and the failures among them.

use vstd::prelude::*;
use vstd::string::*;

use crate::actions::ActionsPlanView;
use crate::bodies::{permissions_body, protection_body, selected_body, topics_body, workflow_body};
use crate::branches::{BranchPlan, BranchPlanView};
use crate::json::{object_view, JsonView};
use crate::plan::{branch_views, ruleset_views, ActionsPlan, RepoPlan, RepoPlanView};
use crate::requests::{
    branch_path, call, repo_path, ruleset_path, ApiRequest, ApiRequestView, HttpApi, Method,
};
use crate::rulesets::{RulesetPlan, RulesetPlanView};

verus! {

/// One operation of a plan.
#[derive(Debug)]
pub struct Operation {
    /// Human-readable description of what is attempted.
    pub label: String,
    pub request: ApiRequest,
}

/// The model of an operation.
pub struct OperationView {
    pub label: Seq<char>,
    pub request: ApiRequestView,
}

impl View for Operation {
    type V = OperationView;

    open spec fn view(&self) -> OperationView {
        OperationView { label: self.label@, request: self.request@ }
    }
}

/// A single failed operation while applying a plan.
#[derive(Debug)]
pub struct Failure {
    /// Human-readable description of what was being attempted.
    pub operation: String,
    pub error: String,
}

/// The model of a failed operation.
pub struct FailureView {
    pub operation: Seq<char>,
    pub error: Seq<char>,
}

impl View for Failure {
    type V = FailureView;

    open spec fn view(&self) -> FailureView {
        FailureView { operation: self.operation@, error: self.error@ }
    }
}

// --- Models -------------------------------------------------------------

/// The models of some operations.
pub open spec fn operation_views(operations: Seq<Operation>) -> Seq<OperationView> {
    operations.map_values(|operation: Operation| operation@)
}

/// The models of some failures.
pub open spec fn failure_views(failures: Seq<Failure>) -> Seq<FailureView> {
    failures.map_values(|failure: Failure| failure@)
}

/// An operation, where there is something to send.
pub open spec fn attempted(
    wanted: bool,
    label: Seq<char>,
    request: ApiRequestView,
) -> Seq<OperationView> {
    if wanted {
        seq![OperationView { label: label, request: request }]
    } else {
        Seq::empty()
    }
}

/// The operations on the Actions settings.
pub open spec fn actions_operations(
    base: Seq<char>,
    owner: Seq<char>,
    repo: Seq<char>,
    plan: ActionsPlanView,
) -> Seq<OperationView> {
    let path = repo_path(owner, repo) + "/actions/permissions"@;
    attempted(
        plan.permissions is Some,
        "update actions permissions"@,
        call(base, Method::Put, path, Some(permissions_body(plan.permissions->0))),
    ) + attempted(
        plan.workflow is Some,
        "update workflow permissions"@,
        call(
            base,
            Method::Put,
            repo_path(owner, repo) + "/actions/permissions/workflow"@,
            Some(workflow_body(plan.workflow->0)),
        ),
    ) + attempted(
        plan.selected is Some,
        "update selected actions"@,
        call(
            base,
            Method::Put,
            repo_path(owner, repo) + "/actions/permissions/selected-actions"@,
            Some(selected_body(plan.selected->0)),
        ),
    )
}

/// The operations on one branch.
pub open spec fn branch_operations(
    base: Seq<char>,
    owner: Seq<char>,
    repo: Seq<char>,
    plan: BranchPlanView,
) -> Seq<OperationView> {
    attempted(
        plan.protection is Some,
        "update branch protection for `"@ + plan.branch + "`"@,
        call(
            base,
            Method::Put,
            branch_path(owner, repo, plan.branch) + "/protection"@,
            Some(protection_body(plan.protection->0)),
        ),
    ) + attempted(
        plan.required_signatures is Some,
        "update required signatures for `"@ + plan.branch + "`"@,
        call(
            base,
            if plan.required_signatures->0 {
                Method::Post
            } else {
                Method::Delete
            },
            branch_path(owner, repo, plan.branch) + "/protection/required_signatures"@,
            None,
        ),
    )
}

/// The operations on some branches, one branch after the other.
pub open spec fn all_branch_operations(
    base: Seq<char>,
    owner: Seq<char>,
    repo: Seq<char>,
    plans: Seq<BranchPlanView>,
) -> Seq<OperationView>
    decreases plans.len(),
{
    if plans.len() == 0 {
        Seq::empty()
    } else {
        all_branch_operations(base, owner, repo, plans.drop_last()) + branch_operations(
            base,
            owner,
            repo,
            plans.last(),
        )
    }
}

/// The operation on one ruleset.
pub open spec fn ruleset_operation(
    base: Seq<char>,
    owner: Seq<char>,
    repo: Seq<char>,
    plan: RulesetPlanView,
) -> OperationView {
    match plan.id {
        None => OperationView {
            label: "create ruleset `"@ + plan.name + "`"@,
            request: call(
                base,
                Method::Post,
                repo_path(owner, repo) + "/rulesets"@,
                Some(plan.body),
            ),
        },
        Some(id) => OperationView {
            label: "update ruleset `"@ + plan.name + "`"@,
            request: call(base, Method::Put, ruleset_path(owner, repo, id), Some(plan.body)),
        },
    }
}

/// Every operation that a plan asks for, in the order in which they are
/// attempted: settings, topics, Actions, branches, rulesets.
pub open spec fn planned_operations(base: Seq<char>, plan: RepoPlanView) -> Seq<OperationView> {
    attempted(
        plan.settings is Some && plan.settings->0.len() > 0,
        "update repository settings"@,
        call(
            base,
            Method::Patch,
            repo_path(plan.owner, plan.repo),
            Some(JsonView::Object(plan.settings->0)),
        ),
    ) + attempted(
        plan.topics is Some,
        "update topics"@,
        call(
            base,
            Method::Put,
            repo_path(plan.owner, plan.repo) + "/topics"@,
            Some(topics_body(plan.topics->0)),
        ),
    ) + (match plan.actions {
        Some(actions) => actions_operations(base, plan.owner, plan.repo, actions),
        None => Seq::empty(),
    }) + all_branch_operations(base, plan.owner, plan.repo, plan.branches)
        + plan.rulesets.map_values(
        |ruleset: RulesetPlanView| ruleset_operation(base, plan.owner, plan.repo, ruleset),
    )
}

/// The failures among the outcomes of some operations, in their order.
pub open spec fn failed(
    operations: Seq<OperationView>,
    outcomes: Seq<Result<(), String>>,
) -> Seq<FailureView>
    decreases operations.len(),
{
    if operations.len() == 0 {
        Seq::empty()
    } else {
        let before = failed(operations.drop_last(), outcomes);
        match outcomes[operations.len() - 1] {
            Ok(_) => before,
            Err(error) => before.push(
                FailureView { operation: operations.last().label, error: error@ },
            ),
        }
    }
}

// --- Operations ----------------------------------------------------------

/// Adds an operation at the end.
fn attempt(operations: &mut Vec<Operation>, label: String, request: ApiRequest)
    ensures
        operation_views(final(operations)@) == operation_views(old(operations)@) + seq![
            OperationView { label: label@, request: request@ },
        ],
{
    let ghost start = operation_views(operations@);
    let ghost one = OperationView { label: label@, request: request@ };
    operations.push(Operation { label: label, request: request });
    assert(operation_views(operations@) =~= start + seq![one]);
}

/// Adds the operations on the Actions settings.
fn attempt_actions(
    operations: &mut Vec<Operation>,
    api: &HttpApi,
    owner: &str,
    repo: &str,
    plan: &ActionsPlan,
)
    ensures
        operation_views(final(operations)@) == operation_views(old(operations)@)
            + actions_operations(api.base@, owner@, repo@, plan@),
{
    let ghost start = operation_views(operations@);
    if let Some(permissions) = plan.permissions {
        attempt(
            operations,
            "update actions permissions".to_owned(),
            api.set_actions_permissions(owner, repo, permissions),
        );
    }
    if let Some(workflow) = plan.workflow {
        attempt(
            operations,
            "update workflow permissions".to_owned(),
            api.set_workflow_permissions(owner, repo, workflow),
        );
    }
    if let Some(selected) = &plan.selected {
        attempt(
            operations,
            "update selected actions".to_owned(),
            api.set_selected_actions(owner, repo, selected),
        );
    }
    assert(operation_views(operations@) =~= start + actions_operations(
        api.base@,
        owner@,
        repo@,
        plan@,
    ));
}

/// Adds the operations on one branch.
fn attempt_branch(
    operations: &mut Vec<Operation>,
    api: &HttpApi,
    owner: &str,
    repo: &str,
    plan: &BranchPlan,
)
    ensures
        operation_views(final(operations)@) == operation_views(old(operations)@)
            + branch_operations(api.base@, owner@, repo@, plan@),
{
    let ghost start = operation_views(operations@);
    let branch = plan.branch.as_str();
    if let Some(protection) = &plan.protection {
        attempt(
            operations,
            "update branch protection for `".to_owned().concat(branch).concat("`"),
            api.set_branch_protection(owner, repo, branch, protection),
        );
    }
    if let Some(enabled) = plan.required_signatures {
        attempt(
            operations,
            "update required signatures for `".to_owned().concat(branch).concat("`"),
            api.set_required_signatures(owner, repo, branch, enabled),
        );
    }
    assert(operation_views(operations@) =~= start + branch_operations(
        api.base@,
        owner@,
        repo@,
        plan@,
    ));
}

/// Adds the operation on one ruleset.
fn attempt_ruleset(
    operations: &mut Vec<Operation>,
    api: &HttpApi,
    owner: &str,
    repo: &str,
    plan: &RulesetPlan,
)
    ensures
        operation_views(final(operations)@) == operation_views(old(operations)@) + seq![
            ruleset_operation(api.base@, owner@, repo@, plan@),
        ],
{
    let name = plan.name.as_str();
    match plan.id {
        None => attempt(
            operations,
            "create ruleset `".to_owned().concat(name).concat("`"),
            api.create_ruleset(owner, repo, &plan.body),
        ),
        Some(id) => attempt(
            operations,
            "update ruleset `".to_owned().concat(name).concat("`"),
            api.update_ruleset(owner, repo, id, &plan.body),
        ),
    }
}

/// Every operation that a plan asks for, in the order in which they are
/// attempted.
pub fn operations(api: &HttpApi, plan: &RepoPlan) -> (operations: Vec<Operation>)
    ensures
        operation_views(operations@) == planned_operations(api.base@, plan@),
{
    let owner = plan.owner.as_str();
    let repo = plan.repo.as_str();
    let ghost base = api.base@;
    let mut operations: Vec<Operation> = Vec::new();
    assert(operation_views(operations@) =~= Seq::empty());

    if let Some(patch) = &plan.settings {
        assert(object_view(*patch).len() == patch@.len());
        if !patch.is_empty() {
            attempt(
                &mut operations,
                "update repository settings".to_owned(),
                api.update_repo(owner, repo, patch),
            );
        }
    }
    let ghost patched = attempted(
        plan@.settings is Some && plan@.settings->0.len() > 0,
        "update repository settings"@,
        call(
            base,
            Method::Patch,
            repo_path(owner@, repo@),
            Some(JsonView::Object(plan@.settings->0)),
        ),
    );
    assert(operation_views(operations@) =~= patched);

    if let Some(topics) = &plan.topics {
        attempt(&mut operations, "update topics".to_owned(), api.set_topics(owner, repo, topics));
    }
    let ghost labelled = patched + attempted(
        plan@.topics is Some,
        "update topics"@,
        call(
            base,
            Method::Put,
            repo_path(owner@, repo@) + "/topics"@,
            Some(topics_body(plan@.topics->0)),
        ),
    );
    assert(operation_views(operations@) =~= labelled);

    if let Some(actions) = &plan.actions {
        attempt_actions(&mut operations, api, owner, repo, actions);
    }
    let ghost acted = labelled + match plan@.actions {
        Some(actions) => actions_operations(base, owner@, repo@, actions),
        None => Seq::empty(),
    };
    assert(operation_views(operations@) =~= acted);

    let ghost branches = branch_views(plan.branches@);
    let mut i: usize = 0;
    assert(acted + all_branch_operations(base, owner@, repo@, branches.take(0)) =~= acted);
    while i < plan.branches.len()
        invariant
            i <= plan.branches@.len(),
            branches == branch_views(plan.branches@),
            base == api.base@,
            operation_views(operations@) == acted + all_branch_operations(
                base,
                owner@,
                repo@,
                branches.take(i as int),
            ),
        decreases plan.branches@.len() - i,
    {
        attempt_branch(&mut operations, api, owner, repo, &plan.branches[i]);
        proof {
            let next = branches.take(i + 1);
            assert(next.drop_last() =~= branches.take(i as int));
            assert(next.last() == plan.branches@[i as int]@);
        }
        assert(operation_views(operations@) =~= acted + all_branch_operations(
            base,
            owner@,
            repo@,
            branches.take(i + 1),
        ));
        i = i + 1;
    }
    assert(branches.take(i as int) =~= branches);
    let ghost protected = acted + all_branch_operations(base, owner@, repo@, branches);

    let ghost rulesets = ruleset_views(plan.rulesets@).map_values(
        |ruleset: RulesetPlanView| ruleset_operation(base, owner@, repo@, ruleset),
    );
    let mut j: usize = 0;
    assert(protected + rulesets.take(0) =~= protected);
    while j < plan.rulesets.len()
        invariant
            j <= plan.rulesets@.len(),
            rulesets == ruleset_views(plan.rulesets@).map_values(
                |ruleset: RulesetPlanView| ruleset_operation(base, owner@, repo@, ruleset),
            ),
            base == api.base@,
            operation_views(operations@) == protected + rulesets.take(j as int),
        decreases plan.rulesets@.len() - j,
    {
        attempt_ruleset(&mut operations, api, owner, repo, &plan.rulesets[j]);
        assert(rulesets[j as int] == ruleset_operation(
            base,
            owner@,
            repo@,
            plan.rulesets@[j as int]@,
        ));
        assert(operation_views(operations@) =~= protected + rulesets.take(j + 1));
        j = j + 1;
    }
    assert(rulesets.take(j as int) =~= rulesets);
    assert(operation_views(operations@) =~= planned_operations(base, plan@));
    operations
}

/// Notes the failure of an operation, if it failed.
pub fn record(failures: &mut Vec<Failure>, operation: &str, result: &Result<(), String>)
    ensures
        failure_views(final(failures)@) == (match *result {
            Ok(_) => failure_views(old(failures)@),
            Err(error) => failure_views(old(failures)@).push(
                FailureView { operation: operation@, error: error@ },
            ),
        }),
{
    let ghost start = failure_views(failures@);
    if let Err(error) = result {
        let failure = Failure { operation: operation.to_owned(), error: error.clone() };
        failures.push(failure);
        assert(failure_views(failures@) =~= start.push(failure@));
    }
}

/// The failures of a plan that was applied.
///
/// Every operation is attempted even if an earlier one fails, so a single
/// rejected setting does not prevent the rest of the plan from being applied:
/// there is an outcome for each operation.
pub fn sync_repo(operations: &Vec<Operation>, outcomes: &Vec<Result<(), String>>) -> (failures: Vec<
    Failure,
>)
    requires
        outcomes@.len() == operations@.len(),
    ensures
        failure_views(failures@) == failed(operation_views(operations@), outcomes@),
{
    let mut failures: Vec<Failure> = Vec::new();
    let ghost views = operation_views(operations@);
    let mut i: usize = 0;
    assert(failure_views(failures@) =~= failed(views.take(0), outcomes@));
    while i < operations.len()
        invariant
            i <= operations@.len(),
            outcomes@.len() == operations@.len(),
            views == operation_views(operations@),
            failure_views(failures@) == failed(views.take(i as int), outcomes@),
        decreases operations@.len() - i,
    {
        proof {
            let next = views.take(i + 1);
            assert(next.drop_last() =~= views.take(i as int));
            assert(next.last() == operations@[i as int]@);
        }
        record(&mut failures, operations[i].label.as_str(), &outcomes[i]);
        i = i + 1;
    }
    assert(views.take(i as int) =~= views);
    failures
}

// --- Laws ------------------------------------------------------------------

/// Nothing but the requirement of signed commits is ever deleted: no request
/// deletes a repository, a ruleset or the protection of a branch.
pub proof fn law_only_signatures_are_deleted(base: Seq<char>, plan: RepoPlanView, index: int)
    requires
        0 <= index < planned_operations(base, plan).len(),
        planned_operations(base, plan)[index].request.method == Method::Delete,
    ensures
        exists|i: int|
            0 <= i < plan.branches.len() && (#[trigger] plan.branches[i]).required_signatures
                == Some(false) && planned_operations(base, plan)[index].request.path == branch_path(
                plan.owner,
                plan.repo,
                plan.branches[i].branch,
            ) + "/protection/required_signatures"@,
{
    let operations = all_branch_operations(base, plan.owner, plan.repo, plan.branches);
    let rulesets = plan.rulesets.map_values(
        |ruleset: RulesetPlanView| ruleset_operation(base, plan.owner, plan.repo, ruleset),
    );
    let before = planned_operations(base, plan).len() - operations.len() - rulesets.len();
    assert(forall|i: int| 0 <= i < rulesets.len() ==> (#[trigger] rulesets[i]).request.method
        != Method::Delete);
    if index >= before + operations.len() {
        assert(planned_operations(base, plan)[index] == rulesets[index - before
            - operations.len()]);
    } else if index >= before {
        assert(planned_operations(base, plan)[index] == operations[index - before]);
        lemma_deleting_branch(base, plan.owner, plan.repo, plan.branches, index - before);
    }
}

proof fn lemma_deleting_branch(
    base: Seq<char>,
    owner: Seq<char>,
    repo: Seq<char>,
    plans: Seq<BranchPlanView>,
    index: int,
)
    requires
        0 <= index < all_branch_operations(base, owner, repo, plans).len(),
        all_branch_operations(base, owner, repo, plans)[index].request.method == Method::Delete,
    ensures
        exists|i: int|
            0 <= i < plans.len() && (#[trigger] plans[i]).required_signatures == Some(false)
                && all_branch_operations(base, owner, repo, plans)[index].request.path
                == branch_path(owner, repo, plans[i].branch) + "/protection/required_signatures"@,
    decreases plans.len(),
{
    let rest = plans.drop_last();
    let before = all_branch_operations(base, owner, repo, rest);
    if index < before.len() {
        lemma_deleting_branch(base, owner, repo, rest, index);
        let i = choose|i: int|
            0 <= i < rest.len() && (#[trigger] rest[i]).required_signatures == Some(false)
                && before[index].request.path == branch_path(owner, repo, rest[i].branch)
                + "/protection/required_signatures"@;
        assert(plans[i] == rest[i]);
    } else {
        let last = branch_operations(base, owner, repo, plans.last());
        assert(all_branch_operations(base, owner, repo, plans)[index] == last[index
            - before.len()]);
        assert(plans[plans.len() - 1].required_signatures == Some(false));
    }
}

/// There are no failures exactly where every operation succeeded, and each
/// operation that failed is among them with its error.
pub proof fn law_every_failure_is_reported(
    operations: Seq<OperationView>,
    outcomes: Seq<Result<(), String>>,
)
    requires
        outcomes.len() == operations.len(),
    ensures
        failed(operations, outcomes).len() == 0 <==> forall|i: int|
            0 <= i < outcomes.len() ==> #[trigger] outcomes[i] is Ok,
        forall|i: int|
            0 <= i < outcomes.len() && (#[trigger] outcomes[i]) is Err ==> failed(
                operations,
                outcomes,
            ).contains(
                FailureView { operation: operations[i].label, error: outcomes[i]->Err_0@ },
            ),
{
    lemma_failures(operations, outcomes);
}

proof fn lemma_failures(operations: Seq<OperationView>, outcomes: Seq<Result<(), String>>)
    requires
        operations.len() <= outcomes.len(),
    ensures
        failed(operations, outcomes).len() == 0 <==> forall|i: int|
            0 <= i < operations.len() ==> #[trigger] outcomes[i] is Ok,
        forall|i: int|
            0 <= i < operations.len() && (#[trigger] outcomes[i]) is Err ==> failed(
                operations,
                outcomes,
            ).contains(
                FailureView { operation: operations[i].label, error: outcomes[i]->Err_0@ },
            ),
    decreases operations.len(),
{
    if operations.len() > 0 {
        let rest = operations.drop_last();
        let last = operations.len() - 1;
        lemma_failures(rest, outcomes);
        let before = failed(rest, outcomes);
        let all = failed(operations, outcomes);
        assert forall|i: int| 0 <= i < operations.len() && (#[trigger] outcomes[i]) is Err implies
            all.contains(
            FailureView { operation: operations[i].label, error: outcomes[i]->Err_0@ },
        ) by {
            let failure = FailureView {
                operation: operations[i].label,
                error: outcomes[i]->Err_0@,
            };
            if i < last {
                assert(rest[i] == operations[i]);
                assert(before.contains(failure));
                let k = choose|k: int| 0 <= k < before.len() && before[k] == failure;
                assert(all[k] == failure);
            } else {
                assert(all.last() == failure);
            }
        }
        assert(outcomes[last] is Ok || outcomes[last] is Err);
    }
}

} // verus!
