//! The GitHub REST API: the state that it keeps of a repository.

use vstd::prelude::*;

use crate::config::{AllowedActions, WorkflowPermission};
use crate::json::Json;
use crate::text::{opt_text, texts};

verus! {

/// The endpoint that is talked to unless another one is given.
pub const DEFAULT_BASE_URL: &'static str = "https://api.github.com";

/// A repository as returned by `GET /repos/{owner}/{repo}`.
#[derive(Debug, Clone)]
pub struct Repo {
    pub name: String,
    pub private: bool,
    pub description: Option<String>,
    pub homepage: Option<String>,
    pub topics: Vec<String>,
    pub has_issues: Option<bool>,
    pub has_wiki: Option<bool>,
    pub has_projects: Option<bool>,
    pub has_discussions: Option<bool>,
    pub allow_merge_commit: Option<bool>,
    pub allow_squash_merge: Option<bool>,
    pub allow_rebase_merge: Option<bool>,
    pub allow_auto_merge: Option<bool>,
    pub delete_branch_on_merge: Option<bool>,
    pub allow_update_branch: Option<bool>,
    pub merge_commit_title: Option<String>,
    pub merge_commit_message: Option<String>,
    pub squash_merge_commit_title: Option<String>,
    pub squash_merge_commit_message: Option<String>,
    pub web_commit_signoff_required: Option<bool>,
    pub allow_forking: Option<bool>,
    pub is_template: Option<bool>,
    pub archived: Option<bool>,
}

/// The model of a repository.
pub struct RepoView {
    pub name: Seq<char>,
    pub private: bool,
    pub description: Option<Seq<char>>,
    pub homepage: Option<Seq<char>>,
    pub topics: Seq<Seq<char>>,
    pub has_issues: Option<bool>,
    pub has_wiki: Option<bool>,
    pub has_projects: Option<bool>,
    pub has_discussions: Option<bool>,
    pub allow_merge_commit: Option<bool>,
    pub allow_squash_merge: Option<bool>,
    pub allow_rebase_merge: Option<bool>,
    pub allow_auto_merge: Option<bool>,
    pub delete_branch_on_merge: Option<bool>,
    pub allow_update_branch: Option<bool>,
    pub merge_commit_title: Option<Seq<char>>,
    pub merge_commit_message: Option<Seq<char>>,
    pub squash_merge_commit_title: Option<Seq<char>>,
    pub squash_merge_commit_message: Option<Seq<char>>,
    pub web_commit_signoff_required: Option<bool>,
    pub allow_forking: Option<bool>,
    pub is_template: Option<bool>,
    pub archived: Option<bool>,
}

impl View for Repo {
    type V = RepoView;

    open spec fn view(&self) -> RepoView {
        RepoView {
            name: self.name@,
            private: self.private,
            description: opt_text(self.description),
            homepage: opt_text(self.homepage),
            topics: texts(self.topics@),
            has_issues: self.has_issues,
            has_wiki: self.has_wiki,
            has_projects: self.has_projects,
            has_discussions: self.has_discussions,
            allow_merge_commit: self.allow_merge_commit,
            allow_squash_merge: self.allow_squash_merge,
            allow_rebase_merge: self.allow_rebase_merge,
            allow_auto_merge: self.allow_auto_merge,
            delete_branch_on_merge: self.delete_branch_on_merge,
            allow_update_branch: self.allow_update_branch,
            merge_commit_title: opt_text(self.merge_commit_title),
            merge_commit_message: opt_text(self.merge_commit_message),
            squash_merge_commit_title: opt_text(self.squash_merge_commit_title),
            squash_merge_commit_message: opt_text(self.squash_merge_commit_message),
            web_commit_signoff_required: self.web_commit_signoff_required,
            allow_forking: self.allow_forking,
            is_template: self.is_template,
            archived: self.archived,
        }
    }
}

/// A repository of which nothing is known: no text, no list, no flag.
pub open spec fn unknown_repo() -> RepoView {
    RepoView {
        name: Seq::empty(),
        private: false,
        description: None,
        homepage: None,
        topics: Seq::empty(),
        has_issues: None,
        has_wiki: None,
        has_projects: None,
        has_discussions: None,
        allow_merge_commit: None,
        allow_squash_merge: None,
        allow_rebase_merge: None,
        allow_auto_merge: None,
        delete_branch_on_merge: None,
        allow_update_branch: None,
        merge_commit_title: None,
        merge_commit_message: None,
        squash_merge_commit_title: None,
        squash_merge_commit_message: None,
        web_commit_signoff_required: None,
        allow_forking: None,
        is_template: None,
        archived: None,
    }
}

impl Default for Repo {
    fn default() -> (repo: Self)
        ensures
            repo@ == unknown_repo(),
    {
        let repo = Repo {
            name: String::new(),
            private: false,
            description: None,
            homepage: None,
            topics: Vec::new(),
            has_issues: None,
            has_wiki: None,
            has_projects: None,
            has_discussions: None,
            allow_merge_commit: None,
            allow_squash_merge: None,
            allow_rebase_merge: None,
            allow_auto_merge: None,
            delete_branch_on_merge: None,
            allow_update_branch: None,
            merge_commit_title: None,
            merge_commit_message: None,
            squash_merge_commit_title: None,
            squash_merge_commit_message: None,
            web_commit_signoff_required: None,
            allow_forking: None,
            is_template: None,
            archived: None,
        };
        assert(repo@.topics =~= Seq::empty());
        repo
    }
}

/// A repository ruleset summary from `GET /repos/{owner}/{repo}/rulesets`.
#[derive(Debug, Clone)]
pub struct RulesetSummary {
    pub id: u64,
    pub name: String,
}

/// A repository ruleset from `GET /repos/{owner}/{repo}/rulesets/{id}`.
///
/// Only the fields that are managed are decoded; everything else stays JSON,
/// so that the exact API representation is preserved.
#[derive(Debug, Clone)]
pub struct Ruleset {
    pub id: u64,
    pub name: String,
    pub target: Option<String>,
    pub enforcement: String,
    pub bypass_actors: Option<Vec<Json>>,
    pub conditions: Option<Json>,
    pub rules: Option<Vec<Json>>,
}

/// Body for `POST /user/repos`.
///
/// Repositories are always created empty, so there are no template or
/// auto-init fields.
#[derive(Debug, Clone)]
pub struct CreateRepo {
    pub name: String,
    pub description: Option<String>,
    pub homepage: Option<String>,
    pub private: bool,
}

/// The model of the body for `POST /user/repos`.
pub struct CreateRepoView {
    pub name: Seq<char>,
    pub description: Option<Seq<char>>,
    pub homepage: Option<Seq<char>>,
    pub private: bool,
}

impl View for CreateRepo {
    type V = CreateRepoView;

    open spec fn view(&self) -> CreateRepoView {
        CreateRepoView {
            name: self.name@,
            description: opt_text(self.description),
            homepage: opt_text(self.homepage),
            private: self.private,
        }
    }
}

/// Canonical actions permissions (`enabled` + allow-list policy).
#[derive(Debug, Clone, Copy, PartialEq, Eq, Structural)]
pub struct ActionsPermissions {
    pub enabled: bool,
    pub allowed_actions: AllowedActions,
}

/// The actions permissions of a repository for which GitHub names none.
pub open spec fn default_permissions() -> ActionsPermissions {
    ActionsPermissions { enabled: true, allowed_actions: AllowedActions::All }
}

impl Default for ActionsPermissions {
    fn default() -> (permissions: Self)
        ensures
            permissions == default_permissions(),
    {
        ActionsPermissions { enabled: true, allowed_actions: AllowedActions::All }
    }
}

/// What workflows may do by default.
#[derive(Debug, Clone, Copy, PartialEq, Eq, Structural)]
pub struct WorkflowPermissions {
    pub default_workflow_permissions: WorkflowPermission,
    pub can_approve_pull_request_reviews: bool,
}

/// The workflow permissions of a repository for which GitHub names none.
pub open spec fn default_workflow() -> WorkflowPermissions {
    WorkflowPermissions {
        default_workflow_permissions: WorkflowPermission::Read,
        can_approve_pull_request_reviews: false,
    }
}

impl Default for WorkflowPermissions {
    fn default() -> (permissions: Self)
        ensures
            permissions == default_workflow(),
    {
        WorkflowPermissions {
            default_workflow_permissions: WorkflowPermission::Read,
            can_approve_pull_request_reviews: false,
        }
    }
}

/// The allow-list of actions.
#[derive(Debug, Clone, PartialEq, Eq)]
pub struct SelectedActions {
    pub github_owned_allowed: bool,
    pub verified_allowed: bool,
    pub patterns_allowed: Vec<String>,
}

/// The model of an allow-list.
pub struct SelectedView {
    pub github_owned_allowed: bool,
    pub verified_allowed: bool,
    pub patterns_allowed: Seq<Seq<char>>,
}

impl View for SelectedActions {
    type V = SelectedView;

    open spec fn view(&self) -> SelectedView {
        SelectedView {
            github_owned_allowed: self.github_owned_allowed,
            verified_allowed: self.verified_allowed,
            patterns_allowed: texts(self.patterns_allowed@),
        }
    }
}

/// The allow-list of a repository for which GitHub names none.
pub open spec fn default_selected() -> SelectedView {
    SelectedView {
        github_owned_allowed: true,
        verified_allowed: false,
        patterns_allowed: Seq::empty(),
    }
}

impl Default for SelectedActions {
    fn default() -> (selected: Self)
        ensures
            selected@ == default_selected(),
    {
        let selected = SelectedActions {
            github_owned_allowed: true,
            verified_allowed: false,
            patterns_allowed: Vec::new(),
        };
        assert(selected@.patterns_allowed =~= Seq::empty());
        selected
    }
}

/// The status checks that a protected branch requires.
#[derive(Debug, Clone)]
pub struct StatusChecks {
    pub strict: bool,
    pub contexts: Vec<String>,
}

/// The pull request reviews that a protected branch requires.
#[derive(Debug, Clone, Copy, PartialEq, Eq, Structural)]
pub struct PullRequestReviews {
    pub dismiss_stale_reviews: bool,
    pub require_code_owner_reviews: bool,
    pub required_approving_review_count: u32,
    pub require_last_push_approval: bool,
}

/// Who may push to a protected branch: logins of users, and the short names
/// of teams and apps.
#[derive(Debug, Clone)]
pub struct PushRestrictions {
    pub users: Vec<String>,
    pub teams: Vec<String>,
    pub apps: Vec<String>,
}

/// Branch protection as `PUT /repos/{owner}/{repo}/branches/{branch}/protection`
/// takes it: always the full object.
#[derive(Debug, Clone)]
pub struct BranchProtection {
    pub required_status_checks: Option<StatusChecks>,
    pub enforce_admins: bool,
    pub required_pull_request_reviews: Option<PullRequestReviews>,
    pub restrictions: Option<PushRestrictions>,
    pub required_linear_history: bool,
    pub allow_force_pushes: bool,
    pub allow_deletions: bool,
    pub block_creations: bool,
    pub required_conversation_resolution: bool,
    pub lock_branch: bool,
    pub allow_fork_syncing: bool,
}

/// The model of required status checks.
pub struct StatusChecksView {
    pub strict: bool,
    pub contexts: Seq<Seq<char>>,
}

/// The model of push restrictions.
pub struct PushRestrictionsView {
    pub users: Seq<Seq<char>>,
    pub teams: Seq<Seq<char>>,
    pub apps: Seq<Seq<char>>,
}

/// The model of branch protection.
pub struct BranchProtectionView {
    pub required_status_checks: Option<StatusChecksView>,
    pub enforce_admins: bool,
    pub required_pull_request_reviews: Option<PullRequestReviews>,
    pub restrictions: Option<PushRestrictionsView>,
    pub required_linear_history: bool,
    pub allow_force_pushes: bool,
    pub allow_deletions: bool,
    pub block_creations: bool,
    pub required_conversation_resolution: bool,
    pub lock_branch: bool,
    pub allow_fork_syncing: bool,
}

impl View for StatusChecks {
    type V = StatusChecksView;

    open spec fn view(&self) -> StatusChecksView {
        StatusChecksView { strict: self.strict, contexts: texts(self.contexts@) }
    }
}

impl View for PushRestrictions {
    type V = PushRestrictionsView;

    open spec fn view(&self) -> PushRestrictionsView {
        PushRestrictionsView {
            users: texts(self.users@),
            teams: texts(self.teams@),
            apps: texts(self.apps@),
        }
    }
}

impl View for BranchProtection {
    type V = BranchProtectionView;

    open spec fn view(&self) -> BranchProtectionView {
        BranchProtectionView {
            required_status_checks: match self.required_status_checks {
                Some(checks) => Some(checks@),
                None => None,
            },
            enforce_admins: self.enforce_admins,
            required_pull_request_reviews: self.required_pull_request_reviews,
            restrictions: match self.restrictions {
                Some(restrictions) => Some(restrictions@),
                None => None,
            },
            required_linear_history: self.required_linear_history,
            allow_force_pushes: self.allow_force_pushes,
            allow_deletions: self.allow_deletions,
            block_creations: self.block_creations,
            required_conversation_resolution: self.required_conversation_resolution,
            lock_branch: self.lock_branch,
            allow_fork_syncing: self.allow_fork_syncing,
        }
    }
}

/// The protection of a branch that has none: nothing is required, and nothing
/// is allowed beyond the usual.
pub open spec fn no_protection() -> BranchProtectionView {
    BranchProtectionView {
        required_status_checks: None,
        enforce_admins: false,
        required_pull_request_reviews: None,
        restrictions: None,
        required_linear_history: false,
        allow_force_pushes: false,
        allow_deletions: false,
        block_creations: false,
        required_conversation_resolution: false,
        lock_branch: false,
        allow_fork_syncing: false,
    }
}

impl Default for BranchProtection {
    fn default() -> (protection: Self)
        ensures
            protection@ == no_protection(),
    {
        BranchProtection {
            required_status_checks: None,
            enforce_admins: false,
            required_pull_request_reviews: None,
            restrictions: None,
            required_linear_history: false,
            allow_force_pushes: false,
            allow_deletions: false,
            block_creations: false,
            required_conversation_resolution: false,
            lock_branch: false,
            allow_fork_syncing: false,
        }
    }
}

/// The protection of a branch as GitHub answers it.
#[derive(Debug, Clone)]
pub struct LiveProtection {
    pub protection: BranchProtection,
    pub required_signatures: bool,
}

} // verus!
