//! Which parts of the live state are read, and in which order.

use vstd::prelude::*;

use crate::config::{
    ActionsConfig, AllowedActions, BranchProtectionConfig, RepoConfig, RulesetConfig,
};
use crate::github::{
    default_permissions, ActionsPermissions, LiveProtection, Repo, Ruleset, RulesetSummary,
    SelectedActions, WorkflowPermissions,
};
use crate::keymap::KeyMap;
use crate::text::same;
use crate::validate::ruleset_name_of;

verus! {

/// A part of the live state of a repository.
#[derive(Debug)]
pub enum Read {
    Repository,
    ActionsPermissions,
    WorkflowPermissions,
    SelectedActions,
    BranchExists(String),
    BranchProtection(String),
    Rulesets,
    Ruleset(u64),
}

/// The model of a part of the live state.
pub enum ReadView {
    Repository,
    ActionsPermissions,
    WorkflowPermissions,
    SelectedActions,
    BranchExists(Seq<char>),
    BranchProtection(Seq<char>),
    Rulesets,
    Ruleset(u64),
}

impl View for Read {
    type V = ReadView;

    open spec fn view(&self) -> ReadView {
        match self {
            Read::Repository => ReadView::Repository,
            Read::ActionsPermissions => ReadView::ActionsPermissions,
            Read::WorkflowPermissions => ReadView::WorkflowPermissions,
            Read::SelectedActions => ReadView::SelectedActions,
            Read::BranchExists(branch) => ReadView::BranchExists(branch@),
            Read::BranchProtection(branch) => ReadView::BranchProtection(branch@),
            Read::Rulesets => ReadView::Rulesets,
            Read::Ruleset(id) => ReadView::Ruleset(*id),
        }
    }
}

/// What GitHub answered. `None` means that there is no such thing.
#[derive(Debug)]
pub enum Answer {
    Repository(Option<Repo>),
    ActionsPermissions(Option<ActionsPermissions>),
    WorkflowPermissions(Option<WorkflowPermissions>),
    SelectedActions(Option<SelectedActions>),
    BranchExists(bool),
    BranchProtection(Option<LiveProtection>),
    Rulesets(Vec<RulesetSummary>),
    Ruleset(Ruleset),
}

/// What is known of a declared branch.
#[derive(Debug)]
pub enum BranchReading {
    /// The branch does not exist.
    Missing,
    /// The branch exists; its protection was not read yet.
    Present,
    /// The branch exists and is not protected.
    Unprotected,
    /// The branch exists and is protected.
    Protected(LiveProtection),
}

/// The live state of a repository, as far as it was read.
#[derive(Debug)]
pub struct Observed {
    pub repository: Option<Option<Repo>>,
    pub permissions: Option<Option<ActionsPermissions>>,
    pub workflow: Option<Option<WorkflowPermissions>>,
    pub selected: Option<Option<SelectedActions>>,
    /// One reading for each declared branch, in the order of the branches.
    pub branches: Vec<BranchReading>,
    pub summaries: Option<Vec<RulesetSummary>>,
    /// The live rulesets with a declared name, in the order of declaration.
    pub rulesets: Vec<Ruleset>,
}

// --- Models -------------------------------------------------------------

/// Whether the repository was found.
pub open spec fn found_repo(seen: Observed) -> bool {
    seen.repository is Some && seen.repository->0 is Some
}

/// The Actions permissions that were read, or the default.
pub open spec fn read_permissions(answer: Option<Option<ActionsPermissions>>) -> ActionsPermissions {
    match answer {
        Some(Some(permissions)) => permissions,
        _ => default_permissions(),
    }
}

/// Whether the allow-list matters: the policy is `selected`, live or declared.
/// GitHub answers `409 Conflict` for the allow-list of any other policy.
pub open spec fn wants_selected(
    actions: ActionsConfig,
    permissions: ActionsPermissions,
) -> bool {
    permissions.allowed_actions == AllowedActions::Selected || actions.policy == Some(
        AllowedActions::Selected,
    )
}

/// The part of the Actions state to read next.
pub open spec fn actions_read(actions: Option<ActionsConfig>, seen: Observed) -> Option<ReadView> {
    if actions is None {
        None
    } else if seen.permissions is None {
        Some(ReadView::ActionsPermissions)
    } else if seen.workflow is None {
        Some(ReadView::WorkflowPermissions)
    } else if wants_selected(actions->0, read_permissions(seen.permissions)) && seen.selected is None {
        Some(ReadView::SelectedActions)
    } else {
        None
    }
}

/// The part of the branch state to read next: the protection of the last
/// branch that was found, or else whether the next declared branch exists.
pub open spec fn branches_read(
    branches: Option<KeyMap<BranchProtectionConfig>>,
    readings: Seq<BranchReading>,
) -> Option<ReadView> {
    match branches {
        None => None,
        Some(map) => if 0 < readings.len() <= map@.len() && readings.last() is Present {
            Some(ReadView::BranchProtection(map@[readings.len() - 1].0))
        } else if readings.len() < map@.len() {
            Some(ReadView::BranchExists(map@[readings.len() as int].0))
        } else {
            None
        },
    }
}

/// The ID of the first ruleset of the given name.
pub open spec fn listed(summaries: Seq<RulesetSummary>, name: Seq<char>) -> Option<u64>
    decreases summaries.len(),
{
    if summaries.len() == 0 {
        None
    } else if summaries[0].name@ == name {
        Some(summaries[0].id)
    } else {
        listed(summaries.drop_first(), name)
    }
}

/// The IDs of the live rulesets that have a declared name, in the order of
/// declaration.
pub open spec fn listed_ids(
    entries: Seq<(Seq<char>, RulesetConfig)>,
    summaries: Seq<RulesetSummary>,
) -> Seq<u64>
    decreases entries.len(),
{
    if entries.len() == 0 {
        Seq::empty()
    } else {
        let before = listed_ids(entries.drop_last(), summaries);
        match listed(summaries, ruleset_name_of(entries.last().0, entries.last().1)) {
            Some(id) => before.push(id),
            None => before,
        }
    }
}

/// The part of the ruleset state to read next: the list, then each ruleset
/// with a declared name.
pub open spec fn rulesets_read(
    rulesets: Option<KeyMap<RulesetConfig>>,
    seen: Observed,
) -> Option<ReadView> {
    match (rulesets, seen.summaries) {
        (None, _) => None,
        (Some(_), None) => Some(ReadView::Rulesets),
        (Some(map), Some(summaries)) => {
            let ids = listed_ids(map@, summaries@);
            if seen.rulesets@.len() < ids.len() {
                Some(ReadView::Ruleset(ids[seen.rulesets@.len() as int]))
            } else {
                None
            }
        },
    }
}

/// The part of the live state to read next. A repository that does not exist
/// has no further state, and only what was declared is read.
pub open spec fn wanted_read(cfg: RepoConfig, seen: Observed) -> Option<ReadView> {
    if seen.repository is None {
        Some(ReadView::Repository)
    } else if !found_repo(seen) {
        None
    } else if actions_read(cfg.actions, seen) is Some {
        actions_read(cfg.actions, seen)
    } else if branches_read(cfg.branch_protection, seen.branches@) is Some {
        branches_read(cfg.branch_protection, seen.branches@)
    } else {
        rulesets_read(cfg.rulesets, seen)
    }
}

/// The branch readings after the protection of the last branch was read.
pub open spec fn with_protection(
    readings: Seq<BranchReading>,
    answer: Option<LiveProtection>,
) -> Seq<BranchReading> {
    if readings.len() == 0 {
        readings
    } else {
        readings.drop_last().push(
            match answer {
                Some(live) => BranchReading::Protected(live),
                None => BranchReading::Unprotected,
            },
        )
    }
}

/// Whether `after` is `before` with one more answer.
pub open spec fn observes(before: Observed, answer: Answer, after: Observed) -> bool {
    &&& after.repository == match answer {
        Answer::Repository(repo) => Some(repo),
        _ => before.repository,
    }
    &&& after.permissions == match answer {
        Answer::ActionsPermissions(permissions) => Some(permissions),
        _ => before.permissions,
    }
    &&& after.workflow == match answer {
        Answer::WorkflowPermissions(permissions) => Some(permissions),
        _ => before.workflow,
    }
    &&& after.selected == match answer {
        Answer::SelectedActions(selected) => Some(selected),
        _ => before.selected,
    }
    &&& after.branches@ == match answer {
        Answer::BranchExists(true) => before.branches@.push(BranchReading::Present),
        Answer::BranchExists(false) => before.branches@.push(BranchReading::Missing),
        Answer::BranchProtection(live) => with_protection(before.branches@, live),
        _ => before.branches@,
    }
    &&& after.summaries == match answer {
        Answer::Rulesets(summaries) => Some(summaries),
        _ => before.summaries,
    }
    &&& after.rulesets@ == match answer {
        Answer::Ruleset(ruleset) => before.rulesets@.push(ruleset),
        _ => before.rulesets@,
    }
}

/// Whether an answer is of the kind that a read asks for.
pub open spec fn answers(read: ReadView, answer: Answer) -> bool {
    match read {
        ReadView::Repository => answer is Repository,
        ReadView::ActionsPermissions => answer is ActionsPermissions,
        ReadView::WorkflowPermissions => answer is WorkflowPermissions,
        ReadView::SelectedActions => answer is SelectedActions,
        ReadView::BranchExists(_) => answer is BranchExists,
        ReadView::BranchProtection(_) => answer is BranchProtection,
        ReadView::Rulesets => answer is Rulesets,
        ReadView::Ruleset(_) => answer is Ruleset,
    }
}

// --- Operations ----------------------------------------------------------

/// The ID of the first ruleset of the given name.
pub fn find_ruleset(summaries: &Vec<RulesetSummary>, name: &str) -> (id: Option<u64>)
    ensures
        id == listed(summaries@, name@),
{
    let mut i: usize = 0;
    assert(summaries@.skip(0) =~= summaries@);
    while i < summaries.len()
        invariant
            i <= summaries@.len(),
            listed(summaries@, name@) == listed(summaries@.skip(i as int), name@),
        decreases summaries@.len() - i,
    {
        assert(summaries@.skip(i as int)[0] == summaries@[i as int]);
        assert(summaries@.skip(i as int).drop_first() =~= summaries@.skip(i + 1));
        if same(summaries[i].name.as_str(), name) {
            return Some(summaries[i].id);
        }
        i = i + 1;
    }
    None
}

/// The GitHub name of a ruleset: the declared one, or else the key.
pub fn ruleset_name<'a>(key: &'a str, ruleset: &'a RulesetConfig) -> (name: &'a str)
    ensures
        name@ == ruleset_name_of(key@, *ruleset),
{
    match &ruleset.name {
        Some(name) => name.as_str(),
        None => key,
    }
}

/// The IDs of the live rulesets that have a declared name.
pub fn ruleset_ids(rulesets: &KeyMap<RulesetConfig>, summaries: &Vec<RulesetSummary>) -> (ids: Vec<
    u64,
>)
    ensures
        ids@ == listed_ids(rulesets@, summaries@),
{
    let mut ids: Vec<u64> = Vec::new();
    let mut i: usize = 0;
    assert(rulesets@.take(0) =~= Seq::empty());
    while i < rulesets.entries.len()
        invariant
            i <= rulesets.entries@.len(),
            ids@ == listed_ids(rulesets@.take(i as int), summaries@),
        decreases rulesets.entries@.len() - i,
    {
        let entry = &rulesets.entries[i];
        proof {
            let next = rulesets@.take(i + 1);
            assert(next.drop_last() =~= rulesets@.take(i as int));
            assert(next.last() == (entry.0@, entry.1));
        }
        if let Some(id) = find_ruleset(summaries, ruleset_name(entry.0.as_str(), &entry.1)) {
            ids.push(id);
        }
        i = i + 1;
    }
    assert(rulesets@.take(i as int) =~= rulesets@);
    ids
}

/// The model of an optional read.
pub open spec fn opt_read(read: Option<Read>) -> Option<ReadView> {
    match read {
        Some(r) => Some(r@),
        None => None,
    }
}

impl Observed {
    /// Nothing was read yet.
    pub fn new() -> (seen: Self)
        ensures
            seen.repository is None,
            seen.permissions is None,
            seen.workflow is None,
            seen.selected is None,
            seen.branches@.len() == 0,
            seen.summaries is None,
            seen.rulesets@.len() == 0,
    {
        Observed {
            repository: None,
            permissions: None,
            workflow: None,
            selected: None,
            branches: Vec::new(),
            summaries: None,
            rulesets: Vec::new(),
        }
    }

    /// The part of the Actions state to read next.
    fn next_actions(&self, actions: &Option<ActionsConfig>) -> (read: Option<Read>)
        ensures
            opt_read(read) == actions_read(*actions, *self),
    {
        let actions = match actions {
            Some(a) => a,
            None => return None,
        };
        let permissions = match self.permissions {
            None => return Some(Read::ActionsPermissions),
            Some(None) => ActionsPermissions::default(),
            Some(Some(permissions)) => permissions,
        };
        if self.workflow.is_none() {
            return Some(Read::WorkflowPermissions);
        }
        let declared = match actions.policy {
            Some(policy) => policy == AllowedActions::Selected,
            None => false,
        };
        let wanted = permissions.allowed_actions == AllowedActions::Selected || declared;
        if wanted && self.selected.is_none() {
            return Some(Read::SelectedActions);
        }
        None
    }

    /// The part of the branch state to read next.
    fn next_branch(&self, branches: &Option<KeyMap<BranchProtectionConfig>>) -> (read: Option<Read>)
        ensures
            opt_read(read) == branches_read(*branches, self.branches@),
    {
        let map = match branches {
            Some(m) => m,
            None => return None,
        };
        let n: usize = self.branches.len();
        if 0 < n && n <= map.entries.len() {
            if let BranchReading::Present = self.branches[n - 1] {
                return Some(Read::BranchProtection(map.entries[n - 1].0.clone()));
            }
        }
        if n < map.entries.len() {
            return Some(Read::BranchExists(map.entries[n].0.clone()));
        }
        None
    }

    /// The part of the ruleset state to read next.
    fn next_ruleset(&self, rulesets: &Option<KeyMap<RulesetConfig>>) -> (read: Option<Read>)
        ensures
            opt_read(read) == rulesets_read(*rulesets, *self),
    {
        let map = match rulesets {
            Some(m) => m,
            None => return None,
        };
        match &self.summaries {
            None => Some(Read::Rulesets),
            Some(summaries) => {
                let ids = ruleset_ids(map, summaries);
                if self.rulesets.len() < ids.len() {
                    Some(Read::Ruleset(ids[self.rulesets.len()]))
                } else {
                    None
                }
            },
        }
    }

    /// The part of the live state to read next, or `None` when all that the
    /// plan needs is known.
    pub fn next_read(&self, cfg: &RepoConfig) -> (read: Option<Read>)
        ensures
            opt_read(read) == wanted_read(*cfg, *self),
    {
        match &self.repository {
            None => return Some(Read::Repository),
            Some(None) => return None,
            Some(Some(_)) => {},
        }
        let actions = self.next_actions(&cfg.actions);
        if actions.is_some() {
            return actions;
        }
        let branch = self.next_branch(&cfg.branch_protection);
        if branch.is_some() {
            return branch;
        }
        self.next_ruleset(&cfg.rulesets)
    }

    /// Takes an answer in.
    pub fn observe(&mut self, answer: Answer)
        ensures
            observes(*old(self), answer, *final(self)),
    {
        match answer {
            Answer::Repository(repo) => {
                self.repository = Some(repo);
            },
            Answer::ActionsPermissions(permissions) => {
                self.permissions = Some(permissions);
            },
            Answer::WorkflowPermissions(permissions) => {
                self.workflow = Some(permissions);
            },
            Answer::SelectedActions(selected) => {
                self.selected = Some(selected);
            },
            Answer::BranchExists(exists) => {
                if exists {
                    self.branches.push(BranchReading::Present);
                } else {
                    self.branches.push(BranchReading::Missing);
                }
            },
            Answer::BranchProtection(live) => {
                if self.branches.len() > 0 {
                    let _ = self.branches.pop();
                    self.branches.push(
                        match live {
                            Some(l) => BranchReading::Protected(l),
                            None => BranchReading::Unprotected,
                        },
                    );
                }
            },
            Answer::Rulesets(summaries) => {
                self.summaries = Some(summaries);
            },
            Answer::Ruleset(ruleset) => {
                self.rulesets.push(ruleset);
            },
        }
    }
}

// --- Laws ------------------------------------------------------------------

/// How many reads are left at most.
pub open spec fn reads_left(cfg: RepoConfig, seen: Observed) -> int {
    let branches = match cfg.branch_protection {
        Some(map) => map@.len() as int,
        None => 0,
    };
    let rulesets = match cfg.rulesets {
        Some(map) => map@.len() as int,
        None => 0,
    };
    if seen.repository is None {
        5 + 2 * branches + rulesets
    } else {
        (if seen.permissions is None {
            1int
        } else {
            0
        }) + (if seen.workflow is None {
            1int
        } else {
            0
        }) + (if seen.selected is None {
            1int
        } else {
            0
        }) + (if seen.branches@.len() <= branches {
            2 * (branches - seen.branches@.len()) + (if seen.branches@.len() > 0
                && seen.branches@.last() is Present {
                1int
            } else {
                0
            })
        } else {
            0
        }) + match (cfg.rulesets, seen.summaries) {
            (Some(map), Some(summaries)) => if seen.rulesets@.len() <= listed_ids(
                map@,
                summaries@,
            ).len() {
                listed_ids(map@, summaries@).len() - seen.rulesets@.len()
            } else {
                0
            },
            (Some(map), None) => map@.len() as int + 1,
            (None, _) => 0,
        }
    }
}

/// At most as many rulesets are read as were declared.
proof fn lemma_listed_ids_bound(
    entries: Seq<(Seq<char>, RulesetConfig)>,
    summaries: Seq<RulesetSummary>,
)
    ensures
        listed_ids(entries, summaries).len() <= entries.len(),
    decreases entries.len(),
{
    if entries.len() > 0 {
        lemma_listed_ids_bound(entries.drop_last(), summaries);
    }
}

/// Reading comes to an end: whatever GitHub answers, each answer to the read
/// that is wanted leaves fewer reads to make.
pub proof fn law_reading_ends(cfg: RepoConfig, seen: Observed, answer: Answer, after: Observed)
    requires
        wanted_read(cfg, seen) is Some,
        answers(wanted_read(cfg, seen)->0, answer),
        observes(seen, answer, after),
    ensures
        0 <= reads_left(cfg, after) < reads_left(cfg, seen),
{
    if let Some(map) = cfg.rulesets {
        if let Some(summaries) = after.summaries {
            lemma_listed_ids_bound(map@, summaries@);
        }
        if let Some(summaries) = seen.summaries {
            lemma_listed_ids_bound(map@, summaries@);
        }
    }
}

/// Only what the configuration declares is read: no Actions state without
/// Actions settings, no branch and no ruleset without declared ones, and of a
/// repository that does not exist nothing but that.
pub proof fn law_reads_only_what_is_declared(cfg: RepoConfig, seen: Observed)
    ensures
        seen.repository == Some(None::<Repo>) ==> wanted_read(cfg, seen) is None,
        cfg.actions is None ==> match wanted_read(cfg, seen) {
            Some(read) => !(read is ActionsPermissions || read is WorkflowPermissions
                || read is SelectedActions),
            None => true,
        },
        match wanted_read(cfg, seen) {
            Some(ReadView::BranchExists(branch)) => cfg.branch_protection is Some
                && exists|i: int|
                0 <= i < cfg.branch_protection->0@.len() && (
                #[trigger] cfg.branch_protection->0@[i]).0 == branch,
            Some(ReadView::BranchProtection(branch)) => cfg.branch_protection is Some
                && exists|i: int|
                0 <= i < cfg.branch_protection->0@.len() && (
                #[trigger] cfg.branch_protection->0@[i]).0 == branch,
            Some(ReadView::Rulesets) => cfg.rulesets is Some,
            Some(ReadView::Ruleset(_)) => cfg.rulesets is Some,
            _ => true,
        },
{
}

} // verus!
