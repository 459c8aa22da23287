//! The plan for a repository: what the configuration declares held against the
//! live state. A dry run shows the plan and a real run applies it.

use vstd::prelude::*;
use vstd::string::*;

use crate::actions::{plan_actions, planned_actions, ActionsPlanView};
use crate::branches::{plan_branch, planned_branch, BranchPlanView};
use crate::change::{add_change, add_changes, change_views, creation, ChangeView};
use crate::config::{
    AllowedActions, BranchProtectionConfig, Config, RepoConfig, RulesetConfig, Visibility,
};
use crate::github::{
    default_permissions, default_selected, default_workflow, unknown_repo, ActionsPermissions,
    CreateRepo, CreateRepoView, LiveProtection, Repo, RepoView, Ruleset, RulesetSummary,
    SelectedActions, SelectedView, WorkflowPermissions,
};
use crate::json::{object_view, Json, JsonView};
use crate::keymap::KeyMap;
use crate::reading::{
    find_ruleset, found_repo, listed, listed_ids, read_permissions, ruleset_name, wanted_read,
    wants_selected, BranchReading, Observed,
};
use crate::rulesets::{plan_ruleset, planned_ruleset, RulesetPlanView};
use crate::settings::{reported, sent_fields, settings, settings_patch};
use crate::text::{copy_list, join, joined, opt_text, same_set, texts};
use crate::validate::{name_of, ruleset_name_of};

pub use crate::actions::ActionsPlan;
pub use crate::branches::BranchPlan;
pub use crate::change::Change;
pub use crate::rulesets::RulesetPlan;

verus! {

/// Everything to reconcile for one repository.
#[derive(Debug, Clone)]
pub struct RepoPlan {
    /// Configuration attribute key (the resolved repository name may differ).
    pub key: String,
    pub owner: String,
    pub repo: String,
    pub exists: bool,
    pub create_spec: Option<CreateRepo>,
    pub settings: Option<KeyMap<Json>>,
    pub topics: Option<Vec<String>>,
    pub actions: Option<ActionsPlan>,
    pub branches: Vec<BranchPlan>,
    pub rulesets: Vec<RulesetPlan>,
    pub changes: Vec<Change>,
    /// What was declared and cannot be applied yet.
    pub warnings: Vec<String>,
}

/// The model of a plan for a repository.
pub struct RepoPlanView {
    pub key: Seq<char>,
    pub owner: Seq<char>,
    pub repo: Seq<char>,
    pub exists: bool,
    pub create_spec: Option<CreateRepoView>,
    pub settings: Option<Seq<(Seq<char>, JsonView)>>,
    pub topics: Option<Seq<Seq<char>>>,
    pub actions: Option<ActionsPlanView>,
    pub branches: Seq<BranchPlanView>,
    pub rulesets: Seq<RulesetPlanView>,
    pub changes: Seq<ChangeView>,
    pub warnings: Seq<Seq<char>>,
}

/// The models of some branch plans.
pub open spec fn branch_views(plans: Seq<BranchPlan>) -> Seq<BranchPlanView> {
    plans.map_values(|plan: BranchPlan| plan@)
}

/// The models of some ruleset plans.
pub open spec fn ruleset_views(plans: Seq<RulesetPlan>) -> Seq<RulesetPlanView> {
    plans.map_values(|plan: RulesetPlan| plan@)
}

impl View for RepoPlan {
    type V = RepoPlanView;

    open spec fn view(&self) -> RepoPlanView {
        RepoPlanView {
            key: self.key@,
            owner: self.owner@,
            repo: self.repo@,
            exists: self.exists,
            create_spec: match self.create_spec {
                Some(spec) => Some(spec@),
                None => None,
            },
            settings: match self.settings {
                Some(patch) => Some(object_view(patch)),
                None => None,
            },
            topics: match self.topics {
                Some(topics) => Some(texts(topics@)),
                None => None,
            },
            actions: match self.actions {
                Some(actions) => Some(actions@),
                None => None,
            },
            branches: branch_views(self.branches@),
            rulesets: ruleset_views(self.rulesets@),
            changes: change_views(self.changes@),
            warnings: texts(self.warnings@),
        }
    }
}

// --- Models -------------------------------------------------------------

/// The difference in the topics. Their order does not matter.
pub open spec fn topics_difference(
    declared: Option<Vec<String>>,
    current: Seq<Seq<char>>,
) -> Option<ChangeView> {
    match declared {
        None => None,
        Some(topics) => if texts(topics@).to_set() == current.to_set() {
            None
        } else {
            Some(
                ChangeView {
                    scope: ""@,
                    field: "topics"@,
                    from: if current.len() > 0 {
                        Some(joined(current, ", "@))
                    } else {
                        None
                    },
                    to: joined(texts(topics@), ", "@),
                },
            )
        },
    }
}

/// How a repository is created: private only where that was declared.
pub open spec fn creation_of(name: Seq<char>, cfg: RepoConfig) -> CreateRepoView {
    CreateRepoView {
        name: name,
        description: opt_text(cfg.description),
        homepage: opt_text(cfg.homepage),
        private: cfg.visibility == Some(Visibility::Private),
    }
}

/// The live settings of the repository; nothing is known of one that does not
/// exist.
pub open spec fn seen_repo(seen: Observed) -> RepoView {
    match seen.repository {
        Some(Some(repo)) => repo@,
        _ => unknown_repo(),
    }
}

/// The live Actions permissions.
pub open spec fn seen_permissions(seen: Observed) -> ActionsPermissions {
    if found_repo(seen) {
        read_permissions(seen.permissions)
    } else {
        default_permissions()
    }
}

/// The live workflow permissions.
pub open spec fn seen_workflow(seen: Observed) -> WorkflowPermissions {
    match seen.workflow {
        Some(Some(permissions)) => if found_repo(seen) {
            permissions
        } else {
            default_workflow()
        },
        _ => default_workflow(),
    }
}

/// The live allow-list, which is known only where it matters.
pub open spec fn seen_selected(cfg: RepoConfig, seen: Observed) -> SelectedView {
    match seen.selected {
        Some(Some(selected)) => if found_repo(seen) && cfg.actions is Some && wants_selected(
            cfg.actions->0,
            seen_permissions(seen),
        ) {
            selected@
        } else {
            default_selected()
        },
        _ => default_selected(),
    }
}

/// The plan for the Actions settings.
pub open spec fn actions_of(cfg: RepoConfig, seen: Observed) -> Option<ActionsPlanView> {
    match cfg.actions {
        Some(actions) => planned_actions(
            actions,
            seen_permissions(seen),
            seen_workflow(seen),
            seen_selected(cfg, seen),
        ),
        None => None,
    }
}

/// The protection of a declared branch, where the branch exists.
pub open spec fn branch_state(seen: Observed, index: int) -> Option<Option<LiveProtection>> {
    if found_repo(seen) && 0 <= index < seen.branches@.len() {
        match seen.branches@[index] {
            BranchReading::Missing => None,
            BranchReading::Present => Some(None),
            BranchReading::Unprotected => Some(None),
            BranchReading::Protected(live) => Some(Some(live)),
        }
    } else {
        None
    }
}

/// The plans for the declared branches that exist.
pub open spec fn branch_plans(
    entries: Seq<(Seq<char>, BranchProtectionConfig)>,
    seen: Observed,
) -> Seq<BranchPlanView>
    decreases entries.len(),
{
    if entries.len() == 0 {
        Seq::empty()
    } else {
        let before = branch_plans(entries.drop_last(), seen);
        match branch_state(seen, entries.len() - 1) {
            Some(live) => match planned_branch(entries.last().0, entries.last().1, live) {
                Some(plan) => before.push(plan),
                None => before,
            },
            None => before,
        }
    }
}

/// What is said of a declared branch that does not exist.
pub open spec fn missing_branch(branch: Seq<char>) -> Seq<char> {
    "branch `"@ + branch + "` does not exist; its protection is skipped"@
}

/// The warnings: one for each declared branch that does not exist.
pub open spec fn branch_warnings(
    entries: Seq<(Seq<char>, BranchProtectionConfig)>,
    seen: Observed,
) -> Seq<Seq<char>>
    decreases entries.len(),
{
    if entries.len() == 0 {
        Seq::empty()
    } else {
        let before = branch_warnings(entries.drop_last(), seen);
        match branch_state(seen, entries.len() - 1) {
            Some(_) => before,
            None => before.push(missing_branch(entries.last().0)),
        }
    }
}

/// The declared branches.
pub open spec fn declared_branches(cfg: RepoConfig) -> Seq<(Seq<char>, BranchProtectionConfig)> {
    match cfg.branch_protection {
        Some(map) => map@,
        None => Seq::empty(),
    }
}

/// The declared rulesets.
pub open spec fn declared_rulesets(cfg: RepoConfig) -> Seq<(Seq<char>, RulesetConfig)> {
    match cfg.rulesets {
        Some(map) => map@,
        None => Seq::empty(),
    }
}

/// The live rulesets, as they were listed. A repository that does not exist
/// has none.
pub open spec fn seen_summaries(seen: Observed) -> Seq<RulesetSummary> {
    match seen.summaries {
        Some(summaries) => if found_repo(seen) {
            summaries@
        } else {
            Seq::empty()
        },
        None => Seq::empty(),
    }
}

/// The live ruleset for the last of the given declarations.
pub open spec fn live_for(
    entries: Seq<(Seq<char>, RulesetConfig)>,
    summaries: Seq<RulesetSummary>,
    details: Seq<Ruleset>,
) -> Option<Ruleset> {
    match listed(summaries, ruleset_name_of(entries.last().0, entries.last().1)) {
        Some(_) => Some(details[listed_ids(entries.drop_last(), summaries).len() as int]),
        None => None,
    }
}

/// The plans for the declared rulesets that do not match yet.
pub open spec fn ruleset_plans(
    entries: Seq<(Seq<char>, RulesetConfig)>,
    summaries: Seq<RulesetSummary>,
    details: Seq<Ruleset>,
) -> Seq<RulesetPlanView>
    decreases entries.len(),
{
    if entries.len() == 0 {
        Seq::empty()
    } else {
        let before = ruleset_plans(entries.drop_last(), summaries, details);
        let (key, cfg) = entries.last();
        match planned_ruleset(
            key,
            ruleset_name_of(key, cfg),
            cfg,
            live_for(entries, summaries, details),
        ) {
            Some(plan) => before.push(plan),
            None => before,
        }
    }
}

/// The differences of some branch plans, one plan after the other.
pub open spec fn branch_differences(plans: Seq<BranchPlanView>) -> Seq<ChangeView>
    decreases plans.len(),
{
    if plans.len() == 0 {
        Seq::empty()
    } else {
        branch_differences(plans.drop_last()) + plans.last().changes
    }
}

/// The differences of some ruleset plans, one plan after the other.
pub open spec fn ruleset_differences(plans: Seq<RulesetPlanView>) -> Seq<ChangeView>
    decreases plans.len(),
{
    if plans.len() == 0 {
        Seq::empty()
    } else {
        ruleset_differences(plans.drop_last()) + plans.last().changes
    }
}

/// Every difference between what is declared and the live state, the creation
/// of the repository first.
pub open spec fn repo_differences(cfg: RepoConfig, seen: Observed) -> Seq<ChangeView> {
    (if found_repo(seen) {
        Seq::empty()
    } else {
        seq![creation("repository"@)]
    }) + reported(settings(cfg, seen_repo(seen))) + (match topics_difference(
        cfg.topics,
        seen_repo(seen).topics,
    ) {
        Some(change) => seq![change],
        None => Seq::empty(),
    }) + (match actions_of(cfg, seen) {
        Some(plan) => plan.changes,
        None => Seq::empty(),
    }) + branch_differences(branch_plans(declared_branches(cfg), seen)) + ruleset_differences(
        ruleset_plans(declared_rulesets(cfg), seen_summaries(seen), seen.rulesets@),
    )
}

/// The plan for a repository.
pub open spec fn planned_repo(
    owner: Seq<char>,
    key: Seq<char>,
    cfg: RepoConfig,
    seen: Observed,
) -> RepoPlanView {
    let patch = sent_fields(settings(cfg, seen_repo(seen)));
    RepoPlanView {
        key: key,
        owner: owner,
        repo: name_of(key, cfg),
        exists: found_repo(seen),
        create_spec: if found_repo(seen) {
            None
        } else {
            Some(creation_of(name_of(key, cfg), cfg))
        },
        settings: if patch.len() > 0 {
            Some(patch)
        } else {
            None
        },
        topics: if topics_difference(cfg.topics, seen_repo(seen).topics) is Some {
            Some(texts(cfg.topics->0@))
        } else {
            None
        },
        actions: actions_of(cfg, seen),
        branches: branch_plans(declared_branches(cfg), seen),
        rulesets: ruleset_plans(declared_rulesets(cfg), seen_summaries(seen), seen.rulesets@),
        changes: repo_differences(cfg, seen),
        warnings: branch_warnings(declared_branches(cfg), seen),
    }
}

/// The owner of a repository: the declared one, or else the authenticated
/// user.
pub open spec fn owner_of(cfg: RepoConfig, login: Option<Seq<char>>) -> Option<Seq<char>> {
    match cfg.owner {
        Some(owner) => Some(owner@),
        None => login,
    }
}

/// What is said of a repository without an owner.
pub open spec fn no_owner(key: Seq<char>) -> Seq<char> {
    "no owner for repository `"@ + key + "`"@
}

/// The key of the first repository without an owner.
pub open spec fn first_ownerless(
    entries: Seq<(Seq<char>, RepoConfig)>,
    login: Option<Seq<char>>,
) -> Option<Seq<char>>
    decreases entries.len(),
{
    if entries.len() == 0 {
        None
    } else if first_ownerless(entries.drop_last(), login) is Some {
        first_ownerless(entries.drop_last(), login)
    } else if owner_of(entries.last().1, login) is None {
        Some(entries.last().0)
    } else {
        None
    }
}

/// The plans for some repositories, in their order.
pub open spec fn planned_repos(
    entries: Seq<(Seq<char>, RepoConfig)>,
    login: Option<Seq<char>>,
    seen: Seq<Observed>,
) -> Seq<RepoPlanView> {
    Seq::new(
        entries.len(),
        |i: int|
            planned_repo(
                owner_of(entries[i].1, login)->0,
                entries[i].0,
                entries[i].1,
                seen[i],
            ),
    )
}

/// Whether some repository leaves its owner to the authenticated user.
pub open spec fn login_needed(config: Config) -> bool {
    exists|i: int| 0 <= i < config.repos@.len() && (#[trigger] config.repos@[i]).1.owner is None
}

/// The models of some plans.
pub open spec fn plan_views(plans: Seq<RepoPlan>) -> Seq<RepoPlanView> {
    plans.map_values(|plan: RepoPlan| plan@)
}

/// The text behind an optional reference.
pub open spec fn opt_str(text: Option<&str>) -> Option<Seq<char>> {
    match text {
        Some(t) => Some(t@),
        None => None,
    }
}

// --- Operations ----------------------------------------------------------

impl RepoPlan {
    /// Whether anything differs.
    pub fn has_changes(&self) -> (r: bool)
        ensures
            r == (self@.changes.len() > 0),
    {
        self.changes.len() > 0
    }
}

/// The GitHub repository name for a configuration entry: the explicit `name`,
/// or the configuration attribute key when it is absent.
pub fn repo_name<'a>(key: &'a str, cfg: &'a RepoConfig) -> (name: &'a str)
    ensures
        name@ == name_of(key@, *cfg),
{
    match &cfg.name {
        Some(name) => name.as_str(),
        None => key,
    }
}

/// The difference in the topics, if there is one.
pub fn topics_change(cfg: &RepoConfig, current: &Vec<String>) -> (change: Option<Change>)
    ensures
        match change {
            Some(c) => topics_difference(cfg.topics, texts(current@)) == Some(c@),
            None => topics_difference(cfg.topics, texts(current@)) is None,
        },
{
    let declared = match &cfg.topics {
        Some(topics) => topics,
        None => return None,
    };
    if same_set(declared, current) {
        return None;
    }
    let from = if current.len() > 0 {
        Some(join(current, ", "))
    } else {
        None
    };
    Some(Change::new("", "topics", from, join(declared, ", ")))
}

/// How a repository is created.
pub fn build_create_spec(name: &str, cfg: &RepoConfig) -> (spec_body: CreateRepo)
    ensures
        spec_body@ == creation_of(name@, *cfg),
{
    let private = match cfg.visibility {
        Some(visibility) => visibility == Visibility::Private,
        None => false,
    };
    CreateRepo {
        name: name.to_owned(),
        description: cfg.description.clone(),
        homepage: cfg.homepage.clone(),
        private: private,
    }
}

/// The live allow-list, or the default where none is known.
fn current_selected(
    cfg: &RepoConfig,
    seen: &Observed,
    exists: bool,
    permissions: ActionsPermissions,
) -> (selected: SelectedActions)
    requires
        exists == found_repo(*seen),
        permissions == seen_permissions(*seen),
    ensures
        selected@ == seen_selected(*cfg, *seen),
{
    let wanted = match &cfg.actions {
        Some(actions) => permissions.allowed_actions == AllowedActions::Selected || (
        match actions.policy {
            Some(policy) => policy == AllowedActions::Selected,
            None => false,
        }),
        None => false,
    };
    match &seen.selected {
        Some(Some(selected)) => if exists && wanted {
            SelectedActions {
                github_owned_allowed: selected.github_owned_allowed,
                verified_allowed: selected.verified_allowed,
                patterns_allowed: copy_list(&selected.patterns_allowed),
            }
        } else {
            SelectedActions::default()
        },
        _ => SelectedActions::default(),
    }
}

/// Plans the Actions settings from what was read.
fn plan_repo_actions(cfg: &RepoConfig, seen: &Observed, exists: bool) -> (plan: Option<ActionsPlan>)
    requires
        exists == found_repo(*seen),
    ensures
        match plan {
            Some(p) => actions_of(*cfg, *seen) == Some(p@),
            None => actions_of(*cfg, *seen) is None,
        },
{
    let actions = match &cfg.actions {
        Some(actions) => actions,
        None => return None,
    };
    let permissions = match seen.permissions {
        Some(Some(permissions)) => if exists {
            permissions
        } else {
            ActionsPermissions::default()
        },
        _ => ActionsPermissions::default(),
    };
    let workflow = match seen.workflow {
        Some(Some(permissions)) => if exists {
            permissions
        } else {
            WorkflowPermissions::default()
        },
        _ => WorkflowPermissions::default(),
    };
    let selected = current_selected(cfg, seen, exists, permissions);
    plan_actions(actions, permissions, workflow, selected)
}

/// What is said of a declared branch that does not exist.
fn missing_branch_warning(branch: &str) -> (warning: String)
    ensures
        warning@ == missing_branch(branch@),
{
    "branch `".to_owned().concat(branch).concat("` does not exist; its protection is skipped")
}

/// Plans the declared branches from what was read, and the warnings.
fn plan_branches(cfg: &RepoConfig, seen: &Observed, exists: bool) -> (r: (
    Vec<BranchPlan>,
    Vec<String>,
))
    requires
        exists == found_repo(*seen),
    ensures
        branch_views(r.0@) == branch_plans(declared_branches(*cfg), *seen),
        texts(r.1@) == branch_warnings(declared_branches(*cfg), *seen),
{
    let mut plans: Vec<BranchPlan> = Vec::new();
    let mut warnings: Vec<String> = Vec::new();
    let ghost entries = declared_branches(*cfg);
    assert(entries.take(0) =~= Seq::empty());
    assert(branch_views(plans@) =~= Seq::empty());
    assert(texts(warnings@) =~= Seq::empty());
    if let Some(map) = &cfg.branch_protection {
        let mut i: usize = 0;
        while i < map.entries.len()
            invariant
                exists == found_repo(*seen),
                entries == map@,
                i <= map.entries@.len(),
                branch_views(plans@) == branch_plans(entries.take(i as int), *seen),
                texts(warnings@) == branch_warnings(entries.take(i as int), *seen),
            decreases map.entries@.len() - i,
        {
            let entry = &map.entries[i];
            let ghost plans_before = plans@;
            let ghost warnings_before = warnings@;
            proof {
                let next = entries.take(i + 1);
                assert(next.drop_last() =~= entries.take(i as int));
                assert(next.last() == (entry.0@, entry.1));
            }
            let planned = if exists && i < seen.branches.len() {
                match &seen.branches[i] {
                    BranchReading::Missing => None,
                    BranchReading::Present => Some(
                        plan_branch(entry.0.as_str(), &entry.1, None),
                    ),
                    BranchReading::Unprotected => Some(
                        plan_branch(entry.0.as_str(), &entry.1, None),
                    ),
                    BranchReading::Protected(live) => Some(
                        plan_branch(entry.0.as_str(), &entry.1, Some(live)),
                    ),
                }
            } else {
                None
            };
            match planned {
                Some(Some(plan)) => {
                    plans.push(plan);
                    assert(branch_views(plans@) =~= branch_views(plans_before).push(plan@));
                },
                Some(None) => {},
                None => {
                    let warning = missing_branch_warning(entry.0.as_str());
                    warnings.push(warning);
                    assert(texts(warnings@) =~= texts(warnings_before).push(warning@));
                },
            }
            i = i + 1;
        }
        assert(entries.take(i as int) =~= entries);
    }
    (plans, warnings)
}

/// Plans the declared rulesets from what was read.
fn plan_rulesets(cfg: &RepoConfig, seen: &Observed, exists: bool) -> (plans: Vec<RulesetPlan>)
    requires
        exists == found_repo(*seen),
        wanted_read(*cfg, *seen) is None,
    ensures
        ruleset_views(plans@) == ruleset_plans(
            declared_rulesets(*cfg),
            seen_summaries(*seen),
            seen.rulesets@,
        ),
{
    let mut plans: Vec<RulesetPlan> = Vec::new();
    let ghost entries = declared_rulesets(*cfg);
    let ghost summaries = seen_summaries(*seen);
    assert(entries.take(0) =~= Seq::empty());
    assert(ruleset_views(plans@) =~= Seq::empty());
    if let Some(map) = &cfg.rulesets {
        let none: Vec<RulesetSummary> = Vec::new();
        let listing = match &seen.summaries {
            Some(list) => if exists {
                list
            } else {
                &none
            },
            None => &none,
        };
        assert(listing@ =~= summaries);
        proof {
            if !exists {
                lemma_none_listed(entries);
            }
            assert(listed_ids(entries, summaries).len() <= seen.rulesets@.len());
        }
        let mut i: usize = 0;
        let mut found: usize = 0;
        while i < map.entries.len()
            invariant
                entries == map@,
                listing@ == summaries,
                i <= map.entries@.len(),
                found == listed_ids(entries.take(i as int), summaries).len(),
                found <= i,
                listed_ids(entries, summaries).len() <= seen.rulesets@.len(),
                ruleset_views(plans@) == ruleset_plans(
                    entries.take(i as int),
                    summaries,
                    seen.rulesets@,
                ),
            decreases map.entries@.len() - i,
        {
            let entry = &map.entries[i];
            let ghost plans_before = plans@;
            proof {
                let next = entries.take(i + 1);
                assert(next.drop_last() =~= entries.take(i as int));
                assert(next.last() == (entry.0@, entry.1));
                lemma_listed_ids_grow(entries, summaries, i + 1);
            }
            let name = ruleset_name(entry.0.as_str(), &entry.1);
            let current = match find_ruleset(listing, name) {
                Some(_) => {
                    found = found + 1;
                    Some(&seen.rulesets[found - 1])
                },
                None => None,
            };
            if let Some(plan) = plan_ruleset(entry.0.as_str(), name, &entry.1, current) {
                plans.push(plan);
                assert(ruleset_views(plans@) =~= ruleset_views(plans_before).push(plan@));
            }
            i = i + 1;
        }
        assert(entries.take(i as int) =~= entries);
    }
    plans
}

/// Where no ruleset is listed, none has a declared name.
proof fn lemma_none_listed(entries: Seq<(Seq<char>, RulesetConfig)>)
    ensures
        listed_ids(entries, Seq::empty()).len() == 0,
    decreases entries.len(),
{
    if entries.len() > 0 {
        lemma_none_listed(entries.drop_last());
    }
}

/// More declarations name at least as many live rulesets.
proof fn lemma_listed_ids_grow(
    entries: Seq<(Seq<char>, RulesetConfig)>,
    summaries: Seq<RulesetSummary>,
    n: int,
)
    requires
        0 <= n <= entries.len(),
    ensures
        listed_ids(entries.take(n), summaries).len() <= listed_ids(entries, summaries).len(),
    decreases entries.len(),
{
    if n == entries.len() {
        assert(entries.take(n) =~= entries);
    } else {
        lemma_listed_ids_grow(entries.drop_last(), summaries, n);
        assert(entries.drop_last().take(n) =~= entries.take(n));
    }
}

/// Adds the differences of the branch plans.
fn add_branch_changes(changes: &mut Vec<Change>, plans: &Vec<BranchPlan>)
    ensures
        change_views(final(changes)@) == change_views(old(changes)@) + branch_differences(
            branch_views(plans@),
        ),
{
    let ghost start = change_views(changes@);
    let ghost views = branch_views(plans@);
    let mut i: usize = 0;
    assert(start =~= start + branch_differences(views.take(0)));
    while i < plans.len()
        invariant
            i <= plans@.len(),
            views == branch_views(plans@),
            change_views(changes@) == start + branch_differences(views.take(i as int)),
        decreases plans@.len() - i,
    {
        add_changes(changes, &plans[i].changes);
        proof {
            let next = views.take(i + 1);
            assert(next.drop_last() =~= views.take(i as int));
            assert(next.last() == plans@[i as int]@);
            assert(start + branch_differences(next) =~= start + branch_differences(
                views.take(i as int),
            ) + plans@[i as int]@.changes);
        }
        i = i + 1;
    }
    assert(views.take(i as int) =~= views);
}

/// Adds the differences of the ruleset plans.
fn add_ruleset_changes(changes: &mut Vec<Change>, plans: &Vec<RulesetPlan>)
    ensures
        change_views(final(changes)@) == change_views(old(changes)@) + ruleset_differences(
            ruleset_views(plans@),
        ),
{
    let ghost start = change_views(changes@);
    let ghost views = ruleset_views(plans@);
    let mut i: usize = 0;
    assert(start =~= start + ruleset_differences(views.take(0)));
    while i < plans.len()
        invariant
            i <= plans@.len(),
            views == ruleset_views(plans@),
            change_views(changes@) == start + ruleset_differences(views.take(i as int)),
        decreases plans@.len() - i,
    {
        add_changes(changes, &plans[i].changes);
        proof {
            let next = views.take(i + 1);
            assert(next.drop_last() =~= views.take(i as int));
            assert(next.last() == plans@[i as int]@);
            assert(start + ruleset_differences(next) =~= start + ruleset_differences(
                views.take(i as int),
            ) + plans@[i as int]@.changes);
        }
        i = i + 1;
    }
    assert(views.take(i as int) =~= views);
}

/// Builds a plan for a single repository from what was read of it.
///
/// `key` is the configuration attribute key; the GitHub repository name is
/// `cfg.name` when set, otherwise `key`.
pub fn plan_repo(owner: &str, key: &str, cfg: &RepoConfig, seen: &Observed) -> (plan: RepoPlan)
    requires
        wanted_read(*cfg, *seen) is None,
    ensures
        plan@ == planned_repo(owner@, key@, *cfg, *seen),
{
    let name = repo_name(key, cfg);
    let unknown = Repo::default();
    let (repo, exists) = match &seen.repository {
        Some(Some(repo)) => (repo, true),
        _ => (&unknown, false),
    };
    assert(repo@ == seen_repo(*seen));

    let mut changes: Vec<Change> = Vec::new();
    if !exists {
        add_change(
            &mut changes,
            Change::new("repository", "create", None, "create".to_owned()),
        );
    }
    let ghost created: Seq<ChangeView> = if exists {
        Seq::empty()
    } else {
        seq![creation("repository"@)]
    };
    assert(change_views(changes@) =~= created);

    let (patch, settings_changes) = settings_patch(cfg, repo);
    add_changes(&mut changes, &settings_changes);

    let ghost so_far = change_views(changes@);
    let ghost retitled: Seq<ChangeView> = match topics_difference(cfg.topics, repo@.topics) {
        Some(change) => seq![change],
        None => Seq::empty(),
    };
    let topics = match topics_change(cfg, &repo.topics) {
        Some(change) => {
            add_change(&mut changes, change);
            match &cfg.topics {
                Some(topics) => Some(copy_list(topics)),
                None => None,
            }
        },
        None => None,
    };
    assert(change_views(changes@) =~= so_far + retitled);

    let actions = plan_repo_actions(cfg, seen, exists);
    let ghost so_far = change_views(changes@);
    if let Some(plan) = &actions {
        add_changes(&mut changes, &plan.changes);
    }
    let ghost acted: Seq<ChangeView> = match actions_of(*cfg, *seen) {
        Some(plan) => plan.changes,
        None => Seq::empty(),
    };
    assert(change_views(changes@) =~= so_far + acted);

    let (branches, warnings) = plan_branches(cfg, seen, exists);
    add_branch_changes(&mut changes, &branches);
    let rulesets = plan_rulesets(cfg, seen, exists);
    add_ruleset_changes(&mut changes, &rulesets);
    assert(change_views(changes@) == repo_differences(*cfg, *seen));

    assert(object_view(patch).len() == patch@.len());
    RepoPlan {
        key: key.to_owned(),
        owner: owner.to_owned(),
        repo: name.to_owned(),
        exists: exists,
        create_spec: if exists {
            None
        } else {
            Some(build_create_spec(name, cfg))
        },
        settings: if patch.is_empty() {
            None
        } else {
            Some(patch)
        },
        topics: topics,
        actions: actions,
        branches: branches,
        rulesets: rulesets,
        changes: changes,
        warnings: warnings,
    }
}

/// Whether the authenticated user has to be known: only repositories without
/// an owner need it.
pub fn needs_login(config: &Config) -> (needed: bool)
    ensures
        needed == login_needed(*config),
{
    let mut i: usize = 0;
    while i < config.repos.entries.len()
        invariant
            i <= config.repos.entries@.len(),
            forall|j: int| 0 <= j < i ==> (#[trigger] config.repos@[j]).1.owner is Some,
        decreases config.repos.entries@.len() - i,
    {
        assert(config.repos@[i as int].1 == config.repos.entries@[i as int].1);
        if config.repos.entries[i].1.owner.is_none() {
            return true;
        }
        i = i + 1;
    }
    false
}

/// The owner of a repository, or why there is none.
pub fn resolve_owner(key: &str, cfg: &RepoConfig, login: Option<&str>) -> (owner: Result<
    String,
    String,
>)
    ensures
        match owner {
            Ok(o) => owner_of(*cfg, opt_str(login)) == Some(o@),
            Err(message) => owner_of(*cfg, opt_str(login)) is None && message@ == no_owner(key@),
        },
{
    match &cfg.owner {
        Some(owner) => Ok(owner.clone()),
        None => match login {
            Some(login) => Ok(login.to_owned()),
            None => Err("no owner for repository `".to_owned().concat(key).concat("`")),
        },
    }
}

/// Builds a plan for every repository in the configuration, from what was read
/// of each of them.
///
/// A repository's owner comes from its own `owner` field, falling back to the
/// authenticated user.
pub fn build_plan(config: &Config, login: Option<&str>, seen: &Vec<Observed>) -> (plans: Result<
    Vec<RepoPlan>,
    String,
>)
    requires
        seen@.len() == config.repos@.len(),
        forall|i: int|
            0 <= i < seen@.len() ==> wanted_read(config.repos@[i].1, #[trigger] seen@[i]) is None,
    ensures
        match plans {
            Ok(p) => first_ownerless(config.repos@, opt_str(login)) is None && plan_views(p@)
                == planned_repos(config.repos@, opt_str(login), seen@),
            Err(message) => first_ownerless(config.repos@, opt_str(login)) is Some && message@
                == no_owner(first_ownerless(config.repos@, opt_str(login))->0),
        },
{
    let mut plans: Vec<RepoPlan> = Vec::new();
    let ghost entries = config.repos@;
    let ghost user = opt_str(login);
    let mut i: usize = 0;
    assert(entries.take(0) =~= Seq::empty());
    while i < config.repos.entries.len()
        invariant
            entries == config.repos@,
            user == opt_str(login),
            seen@.len() == entries.len(),
            i <= entries.len(),
            forall|j: int|
                0 <= j < seen@.len() ==> wanted_read(entries[j].1, #[trigger] seen@[j]) is None,
            first_ownerless(entries.take(i as int), user) is None,
            plans@.len() == i,
            forall|j: int|
                0 <= j < i ==> (#[trigger] plans@[j])@ == planned_repos(entries, user, seen@)[j],
        decreases entries.len() - i,
    {
        let entry = &config.repos.entries[i];
        let key = entry.0.as_str();
        proof {
            let next = entries.take(i + 1);
            assert(next.drop_last() =~= entries.take(i as int));
            assert(next.last() == (entry.0@, entry.1));
        }
        match resolve_owner(key, &entry.1, login) {
            Ok(owner) => {
                assert(wanted_read(entries[i as int].1, seen@[i as int]) is None);
                plans.push(plan_repo(owner.as_str(), key, &entry.1, &seen[i]));
            },
            Err(message) => {
                proof {
                    lemma_first_ownerless(entries, user, i + 1);
                }
                return Err(message);
            },
        }
        i = i + 1;
    }
    assert(entries.take(i as int) =~= entries);
    assert(plan_views(plans@) =~= planned_repos(entries, user, seen@));
    Ok(plans)
}

/// The first repository without an owner stays the first when more follow.
proof fn lemma_first_ownerless(
    entries: Seq<(Seq<char>, RepoConfig)>,
    login: Option<Seq<char>>,
    n: int,
)
    requires
        0 <= n <= entries.len(),
        first_ownerless(entries.take(n), login) is Some,
    ensures
        first_ownerless(entries, login) == first_ownerless(entries.take(n), login),
    decreases entries.len(),
{
    if n == entries.len() {
        assert(entries.take(n) =~= entries);
    } else {
        assert(entries.drop_last().take(n) =~= entries.take(n));
        lemma_first_ownerless(entries.drop_last(), login, n);
    }
}

/// Once the authenticated user is known where it is needed, every repository
/// has an owner.
pub proof fn law_every_repository_has_an_owner(config: Config, login: Option<Seq<char>>)
    requires
        login is Some || !login_needed(config),
    ensures
        first_ownerless(config.repos@, login) is None,
{
    let entries = config.repos@;
    assert forall|i: int| 0 <= i < entries.len() implies owner_of(
        (#[trigger] entries[i]).1,
        login,
    ) is Some by {
        if login is None {
            assert(config.repos@[i].1.owner is Some);
        }
    }
    lemma_owned(entries, login);
}

/// Where each repository has an owner, none is the first without one.
proof fn lemma_owned(entries: Seq<(Seq<char>, RepoConfig)>, login: Option<Seq<char>>)
    requires
        forall|i: int|
            0 <= i < entries.len() ==> owner_of((#[trigger] entries[i]).1, login) is Some,
    ensures
        first_ownerless(entries, login) is None,
    decreases entries.len(),
{
    if entries.len() > 0 {
        let rest = entries.drop_last();
        assert forall|i: int| 0 <= i < rest.len() implies owner_of(
            (#[trigger] rest[i]).1,
            login,
        ) is Some by {
            assert(rest[i] == entries[i]);
        }
        lemma_owned(rest, login);
    }
}

} // verus!
