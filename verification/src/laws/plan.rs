//! Laws of the plan for a repository.

use vstd::prelude::*;

use crate::actions::{
    actions_changes, desired_allow_list, desired_permissions, desired_workflow, planned_actions,
    selected_to_send,
};
use crate::apply::{
    actions_operations, all_branch_operations, branch_operations, planned_operations,
    ruleset_operation,
};
use crate::branches::{
    branch_scope, check_changes, desired_protection, flag_changes, planned_branch,
    protection_changes, protection_of, review_changes, signatures_of, BranchPlanView,
};
use crate::config::{
    ActionsConfig, AllowedActions, BranchProtectionConfig, RepoConfig, RulesetConfig,
};
use crate::github::{
    ActionsPermissions, LiveProtection, RepoView, Ruleset, RulesetSummary, SelectedView,
    WorkflowPermissions,
};
use crate::laws::rulesets::{
    law_planned_rulesets_are_reported, law_rulesets_converge, takes, well_declared,
};
use crate::laws::settings::{law_sent_where_reported, law_settings_converge, patched};
use crate::plan::{
    branch_differences, branch_plans, branch_state, branch_warnings, declared_branches,
    declared_rulesets, live_for, missing_branch, planned_repo, ruleset_differences, ruleset_plans,
    seen_permissions, seen_repo, seen_selected, seen_summaries, seen_workflow, topics_difference,
};
use crate::reading::{found_repo, Observed};
use crate::rulesets::{planned_ruleset, RulesetPlanView};
use crate::settings::{sent_fields, settings};
use crate::text::texts;
use crate::validate::ruleset_name_of;

verus! {

// --- Parts of a plan --------------------------------------------------------

/// Topics converge: where the declared topics are set, in whatever order,
/// nothing is reported.
pub proof fn law_topics_converge(declared: Option<Vec<String>>, current: Seq<Seq<char>>)
    requires
        declared is Some ==> texts(declared->0@).to_set() == current.to_set(),
    ensures
        topics_difference(declared, current) is None,
{
}

/// The Actions settings converge: once GitHub took what is sent, nothing is
/// planned for them any more.
pub proof fn law_actions_converge(
    cfg: ActionsConfig,
    permissions: ActionsPermissions,
    workflow: WorkflowPermissions,
    selected: SelectedView,
    after: SelectedView,
)
    requires
        cfg.selected is Some && desired_permissions(cfg, permissions).allowed_actions
            == AllowedActions::Selected ==> after == desired_allow_list(cfg.selected->0, selected),
    ensures
        planned_actions(
            cfg,
            desired_permissions(cfg, permissions),
            desired_workflow(cfg, workflow),
            after,
        ) is None,
{
    let new_permissions = desired_permissions(cfg, permissions);
    let new_workflow = desired_workflow(cfg, workflow);
    assert(desired_permissions(cfg, new_permissions) == new_permissions);
    assert(desired_workflow(cfg, new_workflow) == new_workflow);
    if let Some(declared) = cfg.selected {
        if new_permissions.allowed_actions == AllowedActions::Selected {
            assert(desired_allow_list(declared, after) == after);
        }
    }
    assert(selected_to_send(cfg, new_permissions, after) is None);
    assert(actions_changes(cfg, new_permissions, new_workflow, after) =~= Seq::empty());
}

/// The protection of a branch after GitHub took what was planned for it.
pub open spec fn branch_taken(
    plan: BranchPlanView,
    live: Option<LiveProtection>,
    after: LiveProtection,
) -> bool {
    &&& after.protection@ == match plan.protection {
        Some(protection) => protection,
        None => protection_of(live),
    }
    &&& after.required_signatures == match plan.required_signatures {
        Some(signatures) => signatures,
        None => signatures_of(live),
    }
}

/// The protection of a branch converges: once GitHub took what is planned for
/// it, nothing is planned for the branch any more.
pub proof fn law_branches_converge(
    branch: Seq<char>,
    cfg: BranchProtectionConfig,
    live: Option<LiveProtection>,
    after: LiveProtection,
)
    requires
        planned_branch(branch, cfg, live) is Some,
        branch_taken(planned_branch(branch, cfg, live)->0, live, after),
    ensures
        planned_branch(branch, cfg, Some(after)) is None,
{
    let plan = planned_branch(branch, cfg, live)->0;
    let now = after.protection@;
    let scope = branch_scope(branch);
    if plan.protection is Some {
        assert(now == desired_protection(cfg, protection_of(live)));
        assert(flag_changes(scope, cfg, now) =~= Seq::empty());
        assert(check_changes(scope, cfg.required_status_checks, now.required_status_checks)
            =~= Seq::empty());
        assert(review_changes(
            scope,
            cfg.required_pull_request_reviews,
            now.required_pull_request_reviews,
        ) =~= Seq::empty());
        assert(protection_changes(scope, cfg, now) =~= Seq::empty());
    }
}

/// What was not declared of a branch stays as it is, who may push included.
pub proof fn law_protection_keeps_undeclared_settings(
    cfg: BranchProtectionConfig,
    live: Option<LiveProtection>,
)
    ensures
        ({
            let before = protection_of(live);
            let after = desired_protection(cfg, before);
            &&& after.restrictions == before.restrictions
            &&& cfg.required_status_checks is None ==> after.required_status_checks
                == before.required_status_checks
            &&& cfg.required_pull_request_reviews is None ==> after.required_pull_request_reviews
                == before.required_pull_request_reviews
            &&& cfg.enforce_admins is None ==> after.enforce_admins == before.enforce_admins
            &&& cfg.required_linear_history is None ==> after.required_linear_history
                == before.required_linear_history
            &&& cfg.allow_force_pushes is None ==> after.allow_force_pushes
                == before.allow_force_pushes
            &&& cfg.allow_deletions is None ==> after.allow_deletions == before.allow_deletions
            &&& cfg.block_creations is None ==> after.block_creations == before.block_creations
            &&& cfg.required_conversation_resolution is None
                ==> after.required_conversation_resolution
                == before.required_conversation_resolution
            &&& cfg.lock_branch is None ==> after.lock_branch == before.lock_branch
            &&& cfg.allow_fork_syncing is None ==> after.allow_fork_syncing
                == before.allow_fork_syncing
        }),
{
}

/// Settings that need a branch wait until it exists: a declared branch that is
/// missing is not planned for, and there is a warning for it. While the
/// repository does not exist this holds of every branch.
pub proof fn law_missing_branches_wait(
    entries: Seq<(Seq<char>, BranchProtectionConfig)>,
    seen: Observed,
)
    requires
        forall|i: int| 0 <= i < entries.len() ==> #[trigger] branch_state(seen, i) is None,
    ensures
        branch_plans(entries, seen).len() == 0,
        branch_warnings(entries, seen) == entries.map_values(
            |entry: (Seq<char>, BranchProtectionConfig)| missing_branch(entry.0),
        ),
    decreases entries.len(),
{
    if entries.len() > 0 {
        let rest = entries.drop_last();
        law_missing_branches_wait(rest, seen);
        assert(branch_state(seen, entries.len() - 1) is None);
    }
    assert(branch_warnings(entries, seen) =~= entries.map_values(
        |entry: (Seq<char>, BranchProtectionConfig)| missing_branch(entry.0),
    ));
}

// --- The whole plan -----------------------------------------------------------

/// The live ruleset that was found for a declared one.
pub open spec fn live_at(cfg: RepoConfig, seen: Observed, index: int) -> Option<Ruleset> {
    live_for(declared_rulesets(cfg).take(index + 1), seen_summaries(seen), seen.rulesets@)
}

/// Whether `after` is what is read once GitHub took every operation of the
/// plan that was made from `seen`.
pub open spec fn settled_after(cfg: RepoConfig, seen: Observed, after: Observed) -> bool {
    let branches = declared_branches(cfg);
    let rulesets = declared_rulesets(cfg);
    &&& found_repo(after)
    &&& exists|topics: Seq<Seq<char>>|
        {
            &&& cfg.topics is Some ==> topics.to_set() == texts(cfg.topics->0@).to_set()
            &&& seen_repo(after) == #[trigger] with_topics(
                patched(seen_repo(seen), sent_fields(settings(cfg, seen_repo(seen)))),
                topics,
            )
        }
    &&& cfg.actions is Some ==> {
        &&& seen_permissions(after) == desired_permissions(cfg.actions->0, seen_permissions(seen))
        &&& seen_workflow(after) == desired_workflow(cfg.actions->0, seen_workflow(seen))
        &&& cfg.actions->0.selected is Some && seen_permissions(after).allowed_actions
            == AllowedActions::Selected ==> seen_selected(cfg, after) == desired_allow_list(
            cfg.actions->0.selected->0,
            seen_selected(cfg, seen),
        )
    }
    &&& forall|i: int|
        0 <= i < branches.len() ==> match #[trigger] branch_state(seen, i) {
            Some(live) => branch_settled(branches[i].0, branches[i].1, live, branch_state(after, i)),
            None => branch_state(after, i) is None,
        }
    &&& forall|i: int|
        0 <= i < rulesets.len() ==> ruleset_settled(
            rulesets[i].0,
            rulesets[i].1,
            live_at(cfg, seen, i),
            #[trigger] live_at(cfg, after, i),
        )
}

/// A repository with other topics.
pub open spec fn with_topics(repo: RepoView, topics: Seq<Seq<char>>) -> RepoView {
    RepoView { topics: topics, ..repo }
}

/// Whether the protection of a branch is what was planned for it, or is as it
/// was where nothing was planned.
pub open spec fn branch_settled(
    branch: Seq<char>,
    cfg: BranchProtectionConfig,
    live: Option<LiveProtection>,
    after: Option<Option<LiveProtection>>,
) -> bool {
    match planned_branch(branch, cfg, live) {
        Some(plan) => after is Some && after->0 is Some && branch_taken(plan, live, after->0->0),
        None => after == Some(live),
    }
}

/// Whether a ruleset is what was planned for it.
pub open spec fn ruleset_settled(
    key: Seq<char>,
    cfg: RulesetConfig,
    before: Option<Ruleset>,
    after: Option<Ruleset>,
) -> bool {
    match after {
        Some(now) => {
            ||| before is Some && now == before->0 && planned_ruleset(
                key,
                ruleset_name_of(key, cfg),
                cfg,
                before,
            ) is None
            ||| well_declared(cfg) && takes(now, cfg, before)
        },
        None => false,
    }
}

proof fn lemma_no_branch_plans(
    entries: Seq<(Seq<char>, BranchProtectionConfig)>,
    seen: Observed,
    after: Observed,
)
    requires
        forall|i: int|
            0 <= i < entries.len() ==> match #[trigger] branch_state(seen, i) {
                Some(live) => branch_settled(entries[i].0, entries[i].1, live, branch_state(after, i)),
                None => branch_state(after, i) is None,
            },
    ensures
        branch_plans(entries, after).len() == 0,
    decreases entries.len(),
{
    if entries.len() > 0 {
        let rest = entries.drop_last();
        let last = entries.len() - 1;
        assert forall|i: int| 0 <= i < rest.len() implies match #[trigger] branch_state(seen, i) {
            Some(live) => branch_settled(rest[i].0, rest[i].1, live, branch_state(after, i)),
            None => branch_state(after, i) is None,
        } by {
            assert(rest[i] == entries[i]);
        }
        lemma_no_branch_plans(rest, seen, after);
        if let Some(live) = branch_state(seen, last) {
            let (branch, cfg) = entries.last();
            if planned_branch(branch, cfg, live) is Some {
                law_branches_converge(branch, cfg, live, branch_state(after, last)->0->0);
            }
        }
    }
}

proof fn lemma_no_ruleset_plans(cfg: RepoConfig, seen: Observed, after: Observed, n: int)
    requires
        0 <= n <= declared_rulesets(cfg).len(),
        forall|i: int|
            0 <= i < n ==> ruleset_settled(
                declared_rulesets(cfg)[i].0,
                declared_rulesets(cfg)[i].1,
                live_at(cfg, seen, i),
                #[trigger] live_at(cfg, after, i),
            ),
    ensures
        ruleset_plans(
            declared_rulesets(cfg).take(n),
            seen_summaries(after),
            after.rulesets@,
        ).len() == 0,
    decreases n,
{
    let entries = declared_rulesets(cfg).take(n);
    if n > 0 {
        lemma_no_ruleset_plans(cfg, seen, after, n - 1);
        assert(entries.drop_last() =~= declared_rulesets(cfg).take(n - 1));
        let (key, ruleset) = entries.last();
        assert(declared_rulesets(cfg)[n - 1] == (key, ruleset));
        let before = live_at(cfg, seen, n - 1);
        assert(ruleset_settled(key, ruleset, before, live_at(cfg, after, n - 1)));
        let now = live_at(cfg, after, n - 1)->0;
        let name = ruleset_name_of(key, ruleset);
        if planned_ruleset(key, name, ruleset, Some(now)) is Some {
            law_rulesets_converge(key, name, ruleset, before, now);
        }
    }
}

/// A run makes it so: once GitHub took every operation of a plan, the next
/// plan reports no difference and asks for no operation.
pub proof fn law_a_run_converges(
    owner: Seq<char>,
    key: Seq<char>,
    cfg: RepoConfig,
    seen: Observed,
    after: Observed,
)
    requires
        settled_after(cfg, seen, after),
    ensures
        planned_repo(owner, key, cfg, after).changes.len() == 0,
        forall|base: Seq<char>| #[trigger]
            planned_operations(base, planned_repo(owner, key, cfg, after)).len() == 0,
{
    let before = patched(seen_repo(seen), sent_fields(settings(cfg, seen_repo(seen))));
    let topics = choose|topics: Seq<Seq<char>>|
        {
            &&& cfg.topics is Some ==> topics.to_set() == texts(cfg.topics->0@).to_set()
            &&& seen_repo(after) == #[trigger] with_topics(before, topics)
        };
    law_settings_converge(cfg, seen_repo(seen));
    assert(settings(cfg, seen_repo(after)) =~= settings(cfg, before));
    law_topics_converge(cfg.topics, topics);
    if let Some(actions) = cfg.actions {
        law_actions_converge(
            actions,
            seen_permissions(seen),
            seen_workflow(seen),
            seen_selected(cfg, seen),
            seen_selected(cfg, after),
        );
    }
    lemma_no_branch_plans(declared_branches(cfg), seen, after);
    let rulesets = declared_rulesets(cfg);
    lemma_no_ruleset_plans(cfg, seen, after, rulesets.len() as int);
    assert(rulesets.take(rulesets.len() as int) =~= rulesets);
}

// --- A dry run shows what a real run does ---------------------------------------

proof fn lemma_actions_effective(
    cfg: ActionsConfig,
    permissions: ActionsPermissions,
    workflow: WorkflowPermissions,
    selected: SelectedView,
)
    ensures
        match planned_actions(cfg, permissions, workflow, selected) {
            Some(plan) => plan.changes.len() > 0 && (plan.permissions is Some
                || plan.workflow is Some || plan.selected is Some),
            None => true,
        },
{
    if desired_permissions(cfg, permissions) == permissions && desired_workflow(cfg, workflow)
        == workflow && selected_to_send(cfg, permissions, selected) is None {
        assert(actions_changes(cfg, permissions, workflow, selected) =~= Seq::empty());
    }
}

/// Whether a plan for a branch does something and says so.
spec fn effective(plan: BranchPlanView) -> bool {
    plan.changes.len() > 0 && (plan.protection is Some || plan.required_signatures is Some)
}

proof fn lemma_branches_effective(
    entries: Seq<(Seq<char>, BranchProtectionConfig)>,
    seen: Observed,
)
    ensures
        forall|i: int|
            0 <= i < branch_plans(entries, seen).len() ==> effective(
                #[trigger] branch_plans(entries, seen)[i],
            ),
    decreases entries.len(),
{
    if entries.len() > 0 {
        lemma_branches_effective(entries.drop_last(), seen);
        let before = branch_plans(entries.drop_last(), seen);
        if let Some(live) = branch_state(seen, entries.len() - 1) {
            if let Some(plan) = planned_branch(entries.last().0, entries.last().1, live) {
                assert(effective(plan));
            }
        }
        let plans = branch_plans(entries, seen);
        assert forall|i: int| 0 <= i < plans.len() implies effective(#[trigger] plans[i]) by {
            if i < before.len() {
                assert(plans[i] == before[i]);
            }
        }
    }
}

proof fn lemma_branch_counts(
    base: Seq<char>,
    owner: Seq<char>,
    repo: Seq<char>,
    plans: Seq<BranchPlanView>,
)
    requires
        forall|i: int| 0 <= i < plans.len() ==> effective(#[trigger] plans[i]),
    ensures
        branch_differences(plans).len() > 0 <==> plans.len() > 0,
        all_branch_operations(base, owner, repo, plans).len() > 0 <==> plans.len() > 0,
    decreases plans.len(),
{
    if plans.len() > 0 {
        let rest = plans.drop_last();
        assert forall|i: int| 0 <= i < rest.len() implies effective(#[trigger] rest[i]) by {
            assert(rest[i] == plans[i]);
        }
        lemma_branch_counts(base, owner, repo, rest);
        assert(effective(plans[plans.len() - 1]));
        assert(branch_operations(base, owner, repo, plans.last()).len() > 0);
    }
}

proof fn lemma_rulesets_reported(
    entries: Seq<(Seq<char>, RulesetConfig)>,
    summaries: Seq<RulesetSummary>,
    details: Seq<Ruleset>,
)
    ensures
        forall|i: int|
            0 <= i < ruleset_plans(entries, summaries, details).len() ==> (
            #[trigger] ruleset_plans(entries, summaries, details)[i]).changes.len() > 0,
    decreases entries.len(),
{
    if entries.len() > 0 {
        lemma_rulesets_reported(entries.drop_last(), summaries, details);
        let before = ruleset_plans(entries.drop_last(), summaries, details);
        let (key, cfg) = entries.last();
        law_planned_rulesets_are_reported(
            key,
            ruleset_name_of(key, cfg),
            cfg,
            live_for(entries, summaries, details),
        );
        let plans = ruleset_plans(entries, summaries, details);
        assert forall|i: int| 0 <= i < plans.len() implies (#[trigger] plans[i]).changes.len()
            > 0 by {
            if i < before.len() {
                assert(plans[i] == before[i]);
            }
        }
    }
}

proof fn lemma_ruleset_counts(plans: Seq<RulesetPlanView>)
    requires
        forall|i: int| 0 <= i < plans.len() ==> (#[trigger] plans[i]).changes.len() > 0,
    ensures
        ruleset_differences(plans).len() > 0 <==> plans.len() > 0,
    decreases plans.len(),
{
    if plans.len() > 0 {
        let rest = plans.drop_last();
        assert forall|i: int| 0 <= i < rest.len() implies (#[trigger] rest[i]).changes.len()
            > 0 by {
            assert(rest[i] == plans[i]);
        }
        lemma_ruleset_counts(rest);
        assert(plans[plans.len() - 1].changes.len() > 0);
    }
}

/// A repository that exists has differences exactly where there are operations
/// on it: a dry run shows a repository if and only if a real run changes it. A
/// repository that does not exist always has one, its creation.
pub proof fn law_differences_where_operations(
    base: Seq<char>,
    owner: Seq<char>,
    key: Seq<char>,
    cfg: RepoConfig,
    seen: Observed,
)
    ensures
        found_repo(seen) ==> (planned_repo(owner, key, cfg, seen).changes.len() > 0
            <==> planned_operations(base, planned_repo(owner, key, cfg, seen)).len() > 0),
        !found_repo(seen) ==> planned_repo(owner, key, cfg, seen).changes.len() > 0,
{
    let plan = planned_repo(owner, key, cfg, seen);
    law_sent_where_reported(cfg, seen_repo(seen));
    if let Some(actions) = cfg.actions {
        lemma_actions_effective(
            actions,
            seen_permissions(seen),
            seen_workflow(seen),
            seen_selected(cfg, seen),
        );
    }
    if let Some(actions) = plan.actions {
        assert(actions_operations(base, plan.owner, plan.repo, actions).len() > 0);
    }
    lemma_branches_effective(declared_branches(cfg), seen);
    lemma_branch_counts(base, plan.owner, plan.repo, plan.branches);
    lemma_rulesets_reported(declared_rulesets(cfg), seen_summaries(seen), seen.rulesets@);
    lemma_ruleset_counts(plan.rulesets);
    assert(plan.rulesets.map_values(
        |ruleset: RulesetPlanView| ruleset_operation(base, plan.owner, plan.repo, ruleset),
    ).len() == plan.rulesets.len());
}

/// An absent option means "leave it alone": a configuration that declares
/// nothing changes nothing of a repository that exists.
pub proof fn law_nothing_declared_changes_nothing(
    base: Seq<char>,
    owner: Seq<char>,
    key: Seq<char>,
    cfg: RepoConfig,
    seen: Observed,
)
    requires
        found_repo(seen),
        cfg.description is None,
        cfg.homepage is None,
        cfg.topics is None,
        cfg.visibility is None,
        cfg.features is None,
        cfg.is_template is None,
        cfg.is_archived is None,
        cfg.allow_forking is None,
        cfg.pull is None,
        cfg.actions is None,
        cfg.branch_protection is None,
        cfg.rulesets is None,
    ensures
        planned_repo(owner, key, cfg, seen).changes.len() == 0,
        planned_operations(base, planned_repo(owner, key, cfg, seen)).len() == 0,
{
    crate::laws::settings::lemma_nothing_declared(cfg, seen_repo(seen));
}

} // verus!
