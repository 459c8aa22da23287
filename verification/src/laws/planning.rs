//! Laws of the plan for a repository: each part is planned from what was
//! declared and what was read for it.

use vstd::prelude::*;

use crate::actions::planned_actions;
use crate::branches::{planned_branch, BranchPlanView};
use crate::change::ChangeView;
use crate::config::{
    AllowedActions, BranchProtectionConfig, Config, RepoConfig, RulesetConfig, WorkflowPermission,
};
use crate::github::{
    unknown_repo, ActionsPermissions, LiveProtection, RepoView, Ruleset, RulesetSummary,
    SelectedView, WorkflowPermissions,
};
use crate::laws::actions::{spells, spells_in_any_order};
use crate::laws::branches::lemma_same_texts;
use crate::laws::validation::called;
use crate::plan::{
    branch_differences, branch_plans, branch_warnings, first_ownerless, login_needed, no_owner,
    owner_of, planned_repo, planned_repos, ruleset_differences, ruleset_plans, topics_difference,
};
use crate::reading::{
    listed, listed_ids, observes, wanted_read, Answer, BranchReading, Observed, ReadView,
};
use crate::rulesets::{planned_ruleset, RulesetPlanView};
use crate::settings::{reported, sent_fields, settings};
use crate::text::{joined, texts};

verus! {

// --- Topics -------------------------------------------------------------------

/// Nothing is reported of the topics exactly where none are declared or the
/// live ones are the declared ones, in whatever order. Else what is reported
/// leads from the live topics to the declared ones.
pub proof fn law_topics_are_replaced(declared: Option<Vec<String>>, current: Seq<Seq<char>>)
    ensures
        topics_difference(declared, current) is None <==> declared is None || spells_in_any_order(
            current,
            declared->0@,
        ),
        match topics_difference(declared, current) {
            Some(change) => {
                &&& change.scope == ""@
                &&& change.field == "topics"@
                &&& change.from is None <==> current.len() == 0
                &&& change.from is Some ==> change.from->0 == joined(current, ", "@)
                &&& change.to == joined(
                    Seq::new(declared->0@.len(), |i: int| declared->0@[i]@),
                    ", "@,
                )
            },
            None => true,
        },
{
    if let Some(topics) = declared {
        lemma_same_texts(current, topics@);
        assert(texts(topics@) =~= Seq::new(topics@.len(), |i: int| topics@[i]@));
    }
}

/// Topics are sent exactly where they differ, and as they are declared.
pub proof fn law_declared_topics_are_sent(
    owner: Seq<char>,
    key: Seq<char>,
    cfg: RepoConfig,
    seen: Observed,
)
    ensures
        match planned_repo(owner, key, cfg, seen).topics {
            Some(topics) => {
                &&& cfg.topics is Some
                &&& spells(topics, cfg.topics->0@)
                &&& !spells_in_any_order(repo_now(seen).topics, cfg.topics->0@)
            },
            None => cfg.topics is None || spells_in_any_order(
                repo_now(seen).topics,
                cfg.topics->0@,
            ),
        },
{
    law_topics_are_replaced(cfg.topics, repo_now(seen).topics);
    lemma_repo_now(seen);
    if let Some(topics) = cfg.topics {
        assert(spells(texts(topics@), topics@));
    }
}

// --- What was read --------------------------------------------------------------

/// Whether the repository is there.
pub open spec fn is_there(seen: Observed) -> bool {
    seen.repository is Some && seen.repository->0 is Some
}

/// The repository as it was read, or one of which nothing is known.
pub open spec fn repo_now(seen: Observed) -> RepoView {
    if is_there(seen) {
        seen.repository->0->0@
    } else {
        unknown_repo()
    }
}

proof fn lemma_repo_now(seen: Observed)
    ensures
        repo_now(seen) == crate::plan::seen_repo(seen),
{
}

/// Of a repository that is not there nothing is known: it is not private, and
/// has no texts, no topics and no flags.
pub proof fn law_nothing_is_known_at_first()
    ensures
        ({
            let repo = unknown_repo();
            &&& !repo.private
            &&& repo.name.len() == 0
            &&& repo.topics.len() == 0
            &&& repo.description is None
            &&& repo.homepage is None
            &&& repo.has_issues is None
            &&& repo.has_wiki is None
            &&& repo.has_projects is None
            &&& repo.has_discussions is None
            &&& repo.allow_merge_commit is None
            &&& repo.allow_squash_merge is None
            &&& repo.allow_rebase_merge is None
            &&& repo.allow_auto_merge is None
            &&& repo.delete_branch_on_merge is None
            &&& repo.allow_update_branch is None
            &&& repo.merge_commit_title is None
            &&& repo.merge_commit_message is None
            &&& repo.squash_merge_commit_title is None
            &&& repo.squash_merge_commit_message is None
            &&& repo.web_commit_signoff_required is None
            &&& repo.allow_forking is None
            &&& repo.is_template is None
            &&& repo.archived is None
        }),
{
}

/// The Actions permissions as they were read; without a word from GitHub,
/// Actions are on and everything is allowed.
pub open spec fn permissions_now(seen: Observed) -> ActionsPermissions {
    if is_there(seen) && seen.permissions is Some && seen.permissions->0 is Some {
        seen.permissions->0->0
    } else {
        ActionsPermissions { enabled: true, allowed_actions: AllowedActions::All }
    }
}

/// The workflow permissions as they were read; without a word from GitHub,
/// workflows may only read.
pub open spec fn workflow_now(seen: Observed) -> WorkflowPermissions {
    if is_there(seen) && seen.workflow is Some && seen.workflow->0 is Some {
        seen.workflow->0->0
    } else {
        WorkflowPermissions {
            default_workflow_permissions: WorkflowPermission::Read,
            can_approve_pull_request_reviews: false,
        }
    }
}

/// The allow-list as it was read, where the policy is `selected` or becomes so;
/// else the actions of GitHub are allowed and no others.
pub open spec fn selected_now(cfg: RepoConfig, seen: Observed) -> SelectedView {
    let matters = permissions_now(seen).allowed_actions is Selected || (cfg.actions is Some
        && cfg.actions->0.policy is Some && cfg.actions->0.policy->0 is Selected);
    if is_there(seen) && cfg.actions is Some && matters && seen.selected is Some
        && seen.selected->0 is Some {
        seen.selected->0->0@
    } else {
        SelectedView {
            github_owned_allowed: true,
            verified_allowed: false,
            patterns_allowed: Seq::empty(),
        }
    }
}

// --- The parts of a plan ----------------------------------------------------------

/// A plan is for the repository of its key, by its declared name, with the
/// owner that it was made for.
pub proof fn law_plans_name_the_repository(
    owner: Seq<char>,
    key: Seq<char>,
    cfg: RepoConfig,
    seen: Observed,
)
    ensures
        ({
            let plan = planned_repo(owner, key, cfg, seen);
            &&& plan.owner == owner
            &&& plan.key == key
            &&& plan.repo == called(cfg.name, key)
            &&& plan.exists <==> is_there(seen)
        }),
{
}

/// A repository that is not there is created under its name, with the declared
/// texts, and private exactly where that is declared. One that is there is not
/// created.
pub proof fn law_missing_repositories_are_created(
    owner: Seq<char>,
    key: Seq<char>,
    cfg: RepoConfig,
    seen: Observed,
)
    ensures
        match planned_repo(owner, key, cfg, seen).create_spec {
            Some(creation) => {
                &&& !is_there(seen)
                &&& creation.name == called(cfg.name, key)
                &&& creation.private <==> cfg.visibility is Some && cfg.visibility->0 is Private
                &&& creation.description is Some <==> cfg.description is Some
                &&& cfg.description is Some ==> creation.description->0 == cfg.description->0@
                &&& creation.homepage is Some <==> cfg.homepage is Some
                &&& cfg.homepage is Some ==> creation.homepage->0 == cfg.homepage->0@
            },
            None => is_there(seen),
        },
{
}

/// The settings and the Actions settings are planned against what was read for
/// them.
pub proof fn law_settings_are_planned_from_what_was_read(
    owner: Seq<char>,
    key: Seq<char>,
    cfg: RepoConfig,
    seen: Observed,
)
    ensures
        ({
            let plan = planned_repo(owner, key, cfg, seen);
            let patch = sent_fields(settings(cfg, repo_now(seen)));
            &&& plan.settings is Some <==> patch.len() > 0
            &&& plan.settings is Some ==> plan.settings->0 == patch
            &&& cfg.actions is None ==> plan.actions is None
            &&& cfg.actions is Some ==> plan.actions == planned_actions(
                cfg.actions->0,
                permissions_now(seen),
                workflow_now(seen),
                selected_now(cfg, seen),
            )
        }),
{
    lemma_repo_now(seen);
}

/// What is known of the protection of a declared branch: nothing where the
/// branch is missing.
pub open spec fn branch_now(seen: Observed, index: int) -> Option<Option<LiveProtection>> {
    if !is_there(seen) || index >= seen.branches@.len() || seen.branches@[index] is Missing {
        None
    } else if seen.branches@[index] is Protected {
        Some(Some(seen.branches@[index]->Protected_0))
    } else {
        Some(None)
    }
}

/// One more declared branch adds the plan for it, made from its own protection,
/// or else the warning that it is missing, and changes nothing else.
pub proof fn law_each_branch_is_planned_for(
    entries: Seq<(Seq<char>, BranchProtectionConfig)>,
    branch: Seq<char>,
    cfg: BranchProtectionConfig,
    seen: Observed,
)
    ensures
        ({
            let more = entries.push((branch, cfg));
            let plans = branch_plans(entries, seen);
            let warnings = branch_warnings(entries, seen);
            match branch_now(seen, entries.len() as int) {
                Some(live) => {
                    &&& branch_warnings(more, seen) == warnings
                    &&& branch_plans(more, seen) == (match planned_branch(branch, cfg, live) {
                        Some(plan) => plans.push(plan),
                        None => plans,
                    })
                },
                None => {
                    &&& branch_plans(more, seen) == plans
                    &&& branch_warnings(more, seen) == warnings.push(
                        "branch `"@ + branch + "` does not exist; its protection is skipped"@,
                    )
                },
            }
        }),
        branch_plans(Seq::empty(), seen).len() == 0,
        branch_warnings(Seq::empty(), seen).len() == 0,
{
    assert(entries.push((branch, cfg)).drop_last() =~= entries);
}

/// Whether a live ruleset has the name.
pub open spec fn is_listed(summaries: Seq<RulesetSummary>, name: Seq<char>) -> bool {
    exists|k: int| 0 <= k < summaries.len() && (#[trigger] summaries[k]).name@ == name
}

/// The ID of a ruleset is that of the first live one with its name.
pub proof fn law_rulesets_are_found_by_name(summaries: Seq<RulesetSummary>, name: Seq<char>)
    ensures
        listed(summaries, name) is Some <==> is_listed(summaries, name),
        match listed(summaries, name) {
            Some(id) => exists|k: int|
                0 <= k < summaries.len() && (#[trigger] summaries[k]).name@ == name
                    && summaries[k].id == id && forall|j: int|
                    0 <= j < k ==> (#[trigger] summaries[j]).name@ != name,
            None => true,
        },
    decreases summaries.len(),
{
    if summaries.len() > 0 {
        let rest = summaries.drop_first();
        law_rulesets_are_found_by_name(rest, name);
        if summaries[0].name@ == name {
            assert(summaries[0].id == listed(summaries, name)->0);
        } else {
            if listed(rest, name) is Some {
                let k = choose|k: int|
                    0 <= k < rest.len() && (#[trigger] rest[k]).name@ == name && rest[k].id
                        == listed(rest, name)->0 && forall|j: int|
                        0 <= j < k ==> (#[trigger] rest[j]).name@ != name;
                assert(summaries[k + 1] == rest[k]);
                assert forall|j: int| 0 <= j < k + 1 implies (#[trigger] summaries[j]).name@
                    != name by {
                    if j > 0 {
                        assert(rest[j - 1].name@ != name);
                    }
                }
            }
            if is_listed(summaries, name) {
                let k = choose|k: int|
                    0 <= k < summaries.len() && (#[trigger] summaries[k]).name@ == name;
                assert(rest[k - 1].name@ == name);
            }
        }
    }
}

/// One more declared ruleset is read exactly where a live one has its name, and
/// then after all others.
pub proof fn law_each_live_ruleset_is_read(
    entries: Seq<(Seq<char>, RulesetConfig)>,
    key: Seq<char>,
    cfg: RulesetConfig,
    summaries: Seq<RulesetSummary>,
)
    ensures
        ({
            let ids = listed_ids(entries, summaries);
            let more = listed_ids(entries.push((key, cfg)), summaries);
            match listed(summaries, called(cfg.name, key)) {
                Some(id) => more == ids.push(id),
                None => more == ids,
            }
        }),
        listed_ids(Seq::empty(), summaries).len() == 0,
{
    assert(entries.push((key, cfg)).drop_last() =~= entries);
}

/// One more declared ruleset adds the plan for it, made from the live ruleset
/// of its name: the one that was read when the reading came to it.
pub proof fn law_each_ruleset_is_planned_for(
    entries: Seq<(Seq<char>, RulesetConfig)>,
    key: Seq<char>,
    cfg: RulesetConfig,
    summaries: Seq<RulesetSummary>,
    details: Seq<Ruleset>,
)
    ensures
        ({
            let name = called(cfg.name, key);
            let plans = ruleset_plans(entries, summaries, details);
            let more = ruleset_plans(entries.push((key, cfg)), summaries, details);
            let live = if is_listed(summaries, name) {
                Some(details[listed_ids(entries, summaries).len() as int])
            } else {
                None
            };
            match planned_ruleset(key, name, cfg, live) {
                Some(plan) => more == plans.push(plan),
                None => more == plans,
            }
        }),
        ruleset_plans(Seq::empty(), summaries, details).len() == 0,
{
    assert(entries.push((key, cfg)).drop_last() =~= entries);
    law_rulesets_are_found_by_name(summaries, called(cfg.name, key));
}

/// The branches and rulesets of a plan are those of what was declared and read.
pub proof fn law_lists_are_planned_from_what_was_read(
    owner: Seq<char>,
    key: Seq<char>,
    cfg: RepoConfig,
    seen: Observed,
)
    ensures
        ({
            let plan = planned_repo(owner, key, cfg, seen);
            let branches = if cfg.branch_protection is Some {
                cfg.branch_protection->0@
            } else {
                Seq::empty()
            };
            let rulesets = if cfg.rulesets is Some {
                cfg.rulesets->0@
            } else {
                Seq::empty()
            };
            let summaries = if is_there(seen) && seen.summaries is Some {
                seen.summaries->0@
            } else {
                Seq::empty()
            };
            &&& plan.branches == branch_plans(branches, seen)
            &&& plan.warnings == branch_warnings(branches, seen)
            &&& plan.rulesets == ruleset_plans(rulesets, summaries, seen.rulesets@)
        }),
{
}

/// The differences of a plan are those of its parts: the creation, the
/// settings, the topics, the Actions settings, the branches and the rulesets.
pub proof fn law_differences_are_those_of_the_parts(
    owner: Seq<char>,
    key: Seq<char>,
    cfg: RepoConfig,
    seen: Observed,
)
    ensures
        ({
            let plan = planned_repo(owner, key, cfg, seen);
            let created = if is_there(seen) {
                Seq::empty()
            } else {
                seq![
                    ChangeView {
                        scope: "repository"@,
                        field: "create"@,
                        from: None,
                        to: "create"@,
                    },
                ]
            };
            let topics = match topics_difference(cfg.topics, repo_now(seen).topics) {
                Some(change) => seq![change],
                None => Seq::empty(),
            };
            let actions = if plan.actions is Some {
                plan.actions->0.changes
            } else {
                Seq::empty()
            };
            plan.changes == created + reported(settings(cfg, repo_now(seen))) + topics + actions
                + branch_differences(plan.branches) + ruleset_differences(plan.rulesets)
        }),
{
    lemma_repo_now(seen);
}

/// The differences of a list of plans are those of each plan, one after the
/// other.
pub proof fn law_differences_of_lists(
    branches: Seq<BranchPlanView>,
    branch: BranchPlanView,
    rulesets: Seq<RulesetPlanView>,
    ruleset: RulesetPlanView,
)
    ensures
        branch_differences(branches.push(branch)) == branch_differences(branches) + branch.changes,
        ruleset_differences(rulesets.push(ruleset)) == ruleset_differences(rulesets)
            + ruleset.changes,
        branch_differences(Seq::empty()).len() == 0,
        ruleset_differences(Seq::empty()).len() == 0,
{
    assert(branches.push(branch).drop_last() =~= branches);
    assert(rulesets.push(ruleset).drop_last() =~= rulesets);
}

// --- Owners -----------------------------------------------------------------------

/// The owner of a repository is the declared one, and the authenticated user
/// where none is declared.
pub proof fn law_owners(cfg: RepoConfig, login: Option<Seq<char>>)
    ensures
        cfg.owner is Some ==> owner_of(cfg, login) == Some(cfg.owner->0@),
        cfg.owner is None ==> owner_of(cfg, login) == login,
{
}

/// The authenticated user has to be known exactly where some repository
/// declares no owner, and a repository without one is named.
pub proof fn law_when_the_user_is_needed(config: Config, key: Seq<char>)
    ensures
        !login_needed(config) <==> forall|i: int|
            0 <= i < config.repos@.len() ==> (#[trigger] config.repos@[i]).1.owner is Some,
        no_owner(key) == "no owner for repository `"@ + (key + "`"@),
{
    assert(no_owner(key) =~= "no owner for repository `"@ + (key + "`"@));
}

/// The first repository without an owner is one that declares none while no
/// user is known, and all before it have one.
pub proof fn law_first_without_an_owner(
    entries: Seq<(Seq<char>, RepoConfig)>,
    login: Option<Seq<char>>,
)
    ensures
        match first_ownerless(entries, login) {
            Some(key) => login is None && exists|i: int|
                0 <= i < entries.len() && (#[trigger] entries[i]).0 == key
                    && entries[i].1.owner is None && forall|j: int|
                    0 <= j < i ==> (#[trigger] entries[j]).1.owner is Some,
            None => login is Some || forall|i: int|
                0 <= i < entries.len() ==> (#[trigger] entries[i]).1.owner is Some,
        },
    decreases entries.len(),
{
    if entries.len() > 0 {
        let rest = entries.drop_last();
        let last = entries.len() - 1;
        law_first_without_an_owner(rest, login);
        if let Some(key) = first_ownerless(rest, login) {
            let i = choose|i: int|
                0 <= i < rest.len() && (#[trigger] rest[i]).0 == key && rest[i].1.owner is None
                    && forall|j: int| 0 <= j < i ==> (#[trigger] rest[j]).1.owner is Some;
            assert(entries[i] == rest[i]);
            assert forall|j: int| 0 <= j < i implies (#[trigger] entries[j]).1.owner is Some by {
                assert(rest[j] == entries[j]);
            }
        } else if login is None {
            assert forall|j: int| 0 <= j < last implies (#[trigger] entries[j]).1.owner is Some by {
                assert(rest[j] == entries[j]);
            }
            assert(entries[last] == entries.last());
        }
    }
}

/// The plans of a configuration are those of its repositories, each for its
/// owner and from what was read of it.
pub proof fn law_each_repository_is_planned_for(
    entries: Seq<(Seq<char>, RepoConfig)>,
    login: Option<Seq<char>>,
    seen: Seq<Observed>,
    index: int,
)
    requires
        0 <= index < entries.len(),
    ensures
        planned_repos(entries, login, seen).len() == entries.len(),
        planned_repos(entries, login, seen)[index] == planned_repo(
            if entries[index].1.owner is Some {
                entries[index].1.owner->0@
            } else {
                login->0
            },
            entries[index].0,
            entries[index].1,
            seen[index],
        ),
{
}

// --- Reading ------------------------------------------------------------------------

/// What is read next is what is missing: each read is asked for only where its
/// answer is not there yet, and for the branch or ruleset whose turn it is.
pub proof fn law_what_is_read_next(cfg: RepoConfig, seen: Observed)
    ensures
        match wanted_read(cfg, seen) {
            Some(ReadView::Repository) => seen.repository is None,
            Some(ReadView::ActionsPermissions) => cfg.actions is Some && seen.permissions is None,
            Some(ReadView::WorkflowPermissions) => cfg.actions is Some && seen.workflow is None,
            Some(ReadView::SelectedActions) => cfg.actions is Some && seen.selected is None && (
            permissions_now(seen).allowed_actions is Selected || cfg.actions->0.policy == Some(
                AllowedActions::Selected,
            )),
            Some(ReadView::BranchExists(branch)) => {
                &&& cfg.branch_protection is Some
                &&& seen.branches@.len() < cfg.branch_protection->0@.len()
                &&& branch == cfg.branch_protection->0@[seen.branches@.len() as int].0
            },
            Some(ReadView::BranchProtection(branch)) => {
                &&& cfg.branch_protection is Some
                &&& 0 < seen.branches@.len() <= cfg.branch_protection->0@.len()
                &&& seen.branches@.last() is Present
                &&& branch == cfg.branch_protection->0@[seen.branches@.len() - 1].0
            },
            Some(ReadView::Rulesets) => cfg.rulesets is Some && seen.summaries is None,
            Some(ReadView::Ruleset(id)) => {
                &&& cfg.rulesets is Some
                &&& seen.summaries is Some
                &&& seen.rulesets@.len() < listed_ids(cfg.rulesets->0@, seen.summaries->0@).len()
                &&& id == listed_ids(cfg.rulesets->0@, seen.summaries->0@)[seen.rulesets@.len() as int]
            },
            None => seen.repository is Some,
        },
        seen.repository is None ==> wanted_read(cfg, seen) is Some,
{
}

/// Reading is over only when all that the plan needs was read: of a repository
/// that is there, the Actions settings where any are declared, each declared
/// branch, and each live ruleset with a declared name.
pub proof fn law_reading_is_complete(cfg: RepoConfig, seen: Observed)
    requires
        wanted_read(cfg, seen) is None,
    ensures
        seen.repository is Some,
        is_there(seen) && cfg.actions is Some ==> {
            &&& seen.permissions is Some
            &&& seen.workflow is Some
            &&& permissions_now(seen).allowed_actions is Selected || cfg.actions->0.policy == Some(
                AllowedActions::Selected,
            ) ==> seen.selected is Some
        },
        is_there(seen) && cfg.branch_protection is Some ==> {
            &&& seen.branches@.len() >= cfg.branch_protection->0@.len()
            &&& 0 < seen.branches@.len() <= cfg.branch_protection->0@.len()
                ==> !(seen.branches@.last() is Present)
        },
        is_there(seen) && cfg.rulesets is Some ==> {
            &&& seen.summaries is Some
            &&& seen.rulesets@.len() >= listed_ids(
                cfg.rulesets->0@,
                seen.summaries->0@,
            ).len()
        },
{
}

/// An answer is kept as what it answers, and everything else that was read
/// stays.
pub proof fn law_answers_are_kept(before: Observed, answer: Answer, after: Observed)
    requires
        observes(before, answer, after),
    ensures
        if answer is Repository {
            after.repository == Some(answer->Repository_0)
        } else {
            after.repository == before.repository
        },
        if answer is ActionsPermissions {
            after.permissions == Some(answer->ActionsPermissions_0)
        } else {
            after.permissions == before.permissions
        },
        if answer is WorkflowPermissions {
            after.workflow == Some(answer->WorkflowPermissions_0)
        } else {
            after.workflow == before.workflow
        },
        if answer is SelectedActions {
            after.selected == Some(answer->SelectedActions_0)
        } else {
            after.selected == before.selected
        },
        if answer is Rulesets {
            after.summaries == Some(answer->Rulesets_0)
        } else {
            after.summaries == before.summaries
        },
        if answer is Ruleset {
            &&& after.rulesets@.len() == before.rulesets@.len() + 1
            &&& after.rulesets@.last() == answer->Ruleset_0
            &&& after.rulesets@.drop_last() == before.rulesets@
        } else {
            after.rulesets@ == before.rulesets@
        },
        match answer {
            Answer::BranchExists(exists) => {
                &&& after.branches@.len() == before.branches@.len() + 1
                &&& after.branches@.drop_last() == before.branches@
                &&& exists ==> after.branches@.last() is Present
                &&& !exists ==> after.branches@.last() is Missing
            },
            Answer::BranchProtection(live) => before.branches@.len() > 0 ==> {
                &&& after.branches@.len() == before.branches@.len()
                &&& after.branches@.drop_last() == before.branches@.drop_last()
                &&& live is None ==> after.branches@.last() is Unprotected
                &&& live is Some ==> after.branches@.last() == BranchReading::Protected(live->0)
            },
            _ => after.branches@ == before.branches@,
        },
{
    if answer is Ruleset {
        assert(after.rulesets@.drop_last() =~= before.rulesets@);
    }
    if answer is BranchExists {
        assert(after.branches@.drop_last() =~= before.branches@);
    }
    if answer is BranchProtection && before.branches@.len() > 0 {
        assert(after.branches@.drop_last() =~= before.branches@.drop_last());
    }
}

} // verus!
