//! Repository configuration: what a flake's `githubRepositories` output
//! declares.
//!
//! Every setting is optional: a missing field means "leave it alone". This is
//! what makes the library a reconciler rather than a full-state overwriter.

use vstd::prelude::*;

use crate::json::Json;
use crate::keymap::KeyMap;

verus! {

/// Repository configuration from a flake's `githubRepositories` output.
#[derive(Debug, Clone)]
pub struct Config {
    /// Repositories keyed by their `githubRepositories` attribute key.
    pub repos: KeyMap<RepoConfig>,
}

/// Settings for a single repository.
#[derive(Debug, Clone, Default)]
pub struct RepoConfig {
    /// Repository name on GitHub. Defaults to the configuration attribute key.
    pub name: Option<String>,
    /// Login of the account that owns the repository. Falls back to the
    /// authenticated user.
    pub owner: Option<String>,
    pub description: Option<String>,
    pub homepage: Option<String>,
    pub topics: Option<Vec<String>>,
    pub visibility: Option<Visibility>,
    pub features: Option<FeaturesConfig>,
    pub is_template: Option<bool>,
    pub is_archived: Option<bool>,
    /// Allow the repository to be forked. Public repositories only.
    pub allow_forking: Option<bool>,
    pub pull: Option<PullRequestConfig>,
    pub actions: Option<ActionsConfig>,
    /// Branch protection, keyed by branch name.
    pub branch_protection: Option<KeyMap<BranchProtectionConfig>>,
    /// Rulesets, keyed by configuration attribute key.
    pub rulesets: Option<KeyMap<RulesetConfig>>,
}

/// Feature switches, each following the Nix `<feature>.enable` convention.
#[derive(Debug, Clone, Default)]
pub struct FeaturesConfig {
    pub wiki: Option<Toggle>,
    pub issues: Option<Toggle>,
    pub projects: Option<Toggle>,
    pub discussions: Option<Toggle>,
}

/// A simple feature switch, mirroring the Nix `<feature>.enable` convention.
#[derive(Debug, Clone, Default, PartialEq, Eq)]
pub struct Toggle {
    pub enable: Option<bool>,
}

/// Visibility of a repository.
#[derive(Debug, Clone, Copy, PartialEq, Eq, Structural)]
pub enum Visibility {
    Public,
    Private,
    Internal,
}

/// Pull request and merge behaviour.
#[derive(Debug, Clone, Default)]
pub struct PullRequestConfig {
    /// Allow merge commits, and how they are titled and messaged.
    pub merge: Option<MergeConfig>,
    /// Allow squash merges, and how they are titled and messaged.
    pub squash: Option<SquashConfig>,
    /// Allow rebase merges.
    pub rebase: Option<Toggle>,
    /// Allow auto-merge.
    pub auto_merge: Option<bool>,
    /// Delete the head branch after merging.
    pub delete_branch_on_merge: Option<bool>,
    /// Allow updating pull request branches.
    pub update_branch: Option<bool>,
    /// Require contributors to sign off on web-based commits.
    pub web_commit_signoff_required: Option<bool>,
}

/// Merge commit options.
#[derive(Debug, Clone, Default)]
pub struct MergeConfig {
    /// Allow merge commits.
    pub enable: Option<bool>,
    /// Title used for merge commits.
    pub commit_title: Option<MergeCommitTitle>,
    /// Message used for merge commits.
    pub commit_message: Option<MergeCommitMessage>,
}

/// Squash merge options.
#[derive(Debug, Clone, Default)]
pub struct SquashConfig {
    /// Allow squash merges.
    pub enable: Option<bool>,
    /// Title used for squash commits.
    pub commit_title: Option<SquashCommitTitle>,
    /// Message used for squash commits.
    pub commit_message: Option<SquashCommitMessage>,
}

/// Title used for merge commits (`merge_commit_title`).
#[derive(Debug, Clone, Copy, PartialEq, Eq, Structural)]
pub enum MergeCommitTitle {
    PrTitle,
    MergeMessage,
}

impl MergeCommitTitle {
    /// The value GitHub expects in the REST API.
    pub open spec fn api_text(self) -> Seq<char> {
        match self {
            MergeCommitTitle::PrTitle => "PR_TITLE"@,
            MergeCommitTitle::MergeMessage => "MERGE_MESSAGE"@,
        }
    }

    /// The value GitHub expects in the REST API.
    pub fn api_str(self) -> (text: &'static str)
        ensures
            text@ == self.api_text(),
    {
        match self {
            MergeCommitTitle::PrTitle => "PR_TITLE",
            MergeCommitTitle::MergeMessage => "MERGE_MESSAGE",
        }
    }
}

/// Message used for merge commits (`merge_commit_message`).
#[derive(Debug, Clone, Copy, PartialEq, Eq, Structural)]
pub enum MergeCommitMessage {
    PrBody,
    PrTitle,
    Blank,
}

impl MergeCommitMessage {
    /// The value GitHub expects in the REST API.
    pub open spec fn api_text(self) -> Seq<char> {
        match self {
            MergeCommitMessage::PrBody => "PR_BODY"@,
            MergeCommitMessage::PrTitle => "PR_TITLE"@,
            MergeCommitMessage::Blank => "BLANK"@,
        }
    }

    /// The value GitHub expects in the REST API.
    pub fn api_str(self) -> (text: &'static str)
        ensures
            text@ == self.api_text(),
    {
        match self {
            MergeCommitMessage::PrBody => "PR_BODY",
            MergeCommitMessage::PrTitle => "PR_TITLE",
            MergeCommitMessage::Blank => "BLANK",
        }
    }
}

/// Title used for squash commits (`squash_merge_commit_title`).
#[derive(Debug, Clone, Copy, PartialEq, Eq, Structural)]
pub enum SquashCommitTitle {
    PrTitle,
    CommitOrPrTitle,
}

impl SquashCommitTitle {
    /// The value GitHub expects in the REST API.
    pub open spec fn api_text(self) -> Seq<char> {
        match self {
            SquashCommitTitle::PrTitle => "PR_TITLE"@,
            SquashCommitTitle::CommitOrPrTitle => "COMMIT_OR_PR_TITLE"@,
        }
    }

    /// The value GitHub expects in the REST API.
    pub fn api_str(self) -> (text: &'static str)
        ensures
            text@ == self.api_text(),
    {
        match self {
            SquashCommitTitle::PrTitle => "PR_TITLE",
            SquashCommitTitle::CommitOrPrTitle => "COMMIT_OR_PR_TITLE",
        }
    }
}

/// Message used for squash commits (`squash_merge_commit_message`).
#[derive(Debug, Clone, Copy, PartialEq, Eq, Structural)]
pub enum SquashCommitMessage {
    PrBody,
    CommitMessages,
    Blank,
}

impl SquashCommitMessage {
    /// The value GitHub expects in the REST API.
    pub open spec fn api_text(self) -> Seq<char> {
        match self {
            SquashCommitMessage::PrBody => "PR_BODY"@,
            SquashCommitMessage::CommitMessages => "COMMIT_MESSAGES"@,
            SquashCommitMessage::Blank => "BLANK"@,
        }
    }

    /// The value GitHub expects in the REST API.
    pub fn api_str(self) -> (text: &'static str)
        ensures
            text@ == self.api_text(),
    {
        match self {
            SquashCommitMessage::PrBody => "PR_BODY",
            SquashCommitMessage::CommitMessages => "COMMIT_MESSAGES",
            SquashCommitMessage::Blank => "BLANK",
        }
    }
}

/// GitHub Actions permissions for a repository.
#[derive(Debug, Clone, Default)]
pub struct ActionsConfig {
    /// Whether Actions are enabled at all.
    pub enable: Option<bool>,
    /// Which actions may run. `selected` requires `selected`.
    pub policy: Option<AllowedActions>,
    /// Allow-list configuration, only meaningful when `policy = "selected"`.
    pub selected: Option<SelectedActionsConfig>,
    /// Default permissions granted to `GITHUB_TOKEN` in workflows.
    pub default_token_permissions: Option<WorkflowPermission>,
    /// Whether Actions may create or approve pull request reviews.
    pub allow_pr_approval: Option<bool>,
}

/// Which actions are allowed to run.
#[derive(Debug, Clone, Copy, PartialEq, Eq, Structural)]
pub enum AllowedActions {
    All,
    LocalOnly,
    Selected,
}

/// Allow-list when `policy = "selected"`.
#[derive(Debug, Clone, Default)]
pub struct SelectedActionsConfig {
    /// Allow actions authored by GitHub.
    pub github_owned: Option<bool>,
    /// Allow actions from verified creators.
    pub verified: Option<bool>,
    /// Allow actions matching these patterns, e.g. `actions/*`.
    pub patterns: Option<Vec<String>>,
}

/// Default permissions granted to `GITHUB_TOKEN`.
#[derive(Debug, Clone, Copy, PartialEq, Eq, Structural)]
pub enum WorkflowPermission {
    Read,
    Write,
}

/// Classic branch protection for one branch.
#[derive(Debug, Clone, Default)]
pub struct BranchProtectionConfig {
    /// Require a linear commit history (no merge commits).
    pub required_linear_history: Option<bool>,
    /// Apply the rules to administrators too.
    pub enforce_admins: Option<bool>,
    /// Allow force pushes to the branch.
    pub allow_force_pushes: Option<bool>,
    /// Allow the branch to be deleted.
    pub allow_deletions: Option<bool>,
    /// Block branch creation matching the pattern.
    pub block_creations: Option<bool>,
    /// Require all conversations to be resolved before merging.
    pub required_conversation_resolution: Option<bool>,
    /// Lock the branch as read-only.
    pub lock_branch: Option<bool>,
    /// Allow fork syncing.
    pub allow_fork_syncing: Option<bool>,
    /// Require signed commits. Applied through a separate API endpoint.
    pub required_signatures: Option<bool>,
    /// Require status checks to pass before merging.
    pub required_status_checks: Option<RequiredStatusChecks>,
    /// Require reviews from pull requests before merging.
    pub required_pull_request_reviews: Option<RequiredPullRequestReviews>,
}

/// Required status checks.
#[derive(Debug, Clone, Default)]
pub struct RequiredStatusChecks {
    /// Require the branch to be up to date before merging.
    pub strict: Option<bool>,
    /// Status check names/contexts that must pass.
    pub contexts: Option<Vec<String>>,
}

/// Required pull request reviews.
#[derive(Debug, Clone, Default)]
pub struct RequiredPullRequestReviews {
    /// Dismiss approvals when new commits are pushed.
    pub dismiss_stale_reviews: Option<bool>,
    /// Require review from a code owner.
    pub require_code_owner_reviews: Option<bool>,
    /// Number of approving reviews required.
    pub required_approving_review_count: Option<u32>,
    /// Require approval of the most recent reviewable push.
    pub require_last_push_approval: Option<bool>,
}

/// A repository ruleset.
///
/// A declared ruleset is authoritative for the fields it sets: `rules` and
/// `bypass_actors` replace the live lists when declared, while undeclared
/// top-level fields and rulesets are left alone on GitHub.
#[derive(Debug, Clone, Default)]
pub struct RulesetConfig {
    /// Ruleset name on GitHub. Defaults to the configuration attribute key.
    pub name: Option<String>,
    /// What the ruleset targets.
    pub target: Option<RulesetTarget>,
    /// How strictly the ruleset is enforced.
    pub enforcement: Option<Enforcement>,
    /// Ref name conditions selecting the branches or tags to protect.
    pub conditions: Option<RulesetConditions>,
    /// Actors allowed to bypass the rules.
    pub bypass_actors: Option<Vec<BypassActor>>,
    /// Rules in the ruleset, mirroring `repository-rule` in the GitHub API.
    pub rules: Option<Vec<Rule>>,
}

/// Target of a ruleset.
#[derive(Debug, Clone, Copy, PartialEq, Eq, Structural)]
pub enum RulesetTarget {
    Branch,
    Tag,
    Push,
}

impl RulesetTarget {
    /// The value GitHub expects in the REST API.
    pub open spec fn api_text(self) -> Seq<char> {
        match self {
            RulesetTarget::Branch => "branch"@,
            RulesetTarget::Tag => "tag"@,
            RulesetTarget::Push => "push"@,
        }
    }

    /// The value GitHub expects in the REST API.
    pub fn api_str(self) -> (text: &'static str)
        ensures
            text@ == self.api_text(),
    {
        match self {
            RulesetTarget::Branch => "branch",
            RulesetTarget::Tag => "tag",
            RulesetTarget::Push => "push",
        }
    }
}

/// Enforcement level of a ruleset.
#[derive(Debug, Clone, Copy, PartialEq, Eq, Structural)]
pub enum Enforcement {
    Disabled,
    Active,
    Evaluate,
}

impl Enforcement {
    /// The value GitHub expects in the REST API.
    pub open spec fn api_text(self) -> Seq<char> {
        match self {
            Enforcement::Disabled => "disabled"@,
            Enforcement::Active => "active"@,
            Enforcement::Evaluate => "evaluate"@,
        }
    }

    /// The value GitHub expects in the REST API.
    pub fn api_str(self) -> (text: &'static str)
        ensures
            text@ == self.api_text(),
    {
        match self {
            Enforcement::Disabled => "disabled",
            Enforcement::Active => "active",
            Enforcement::Evaluate => "evaluate",
        }
    }
}

/// Ref name conditions for a ruleset.
#[derive(Debug, Clone, Default)]
pub struct RulesetConditions {
    pub ref_name: Option<RefNameCondition>,
}

/// Include/exclude patterns for ref names.
#[derive(Debug, Clone, Default)]
pub struct RefNameCondition {
    /// Refs to include. `~DEFAULT_BRANCH` and `~ALL` are accepted by GitHub.
    pub included: Option<Vec<String>>,
    /// Refs to exclude.
    pub excluded: Option<Vec<String>>,
}

/// An actor allowed to bypass a ruleset.
#[derive(Debug, Clone)]
pub struct BypassActor {
    /// Actor ID. Required for every type except `organization_admin` and
    /// `deploy_key`.
    pub actor_id: Option<u64>,
    pub actor_type: BypassActorType,
    /// When the actor may bypass. Defaults to `always`.
    pub bypass_mode: Option<BypassMode>,
}

/// Type of a ruleset bypass actor.
#[derive(Debug, Clone, Copy, PartialEq, Eq, Structural)]
pub enum BypassActorType {
    Integration,
    OrganizationAdmin,
    RepositoryRole,
    Team,
    DeployKey,
    User,
}

impl BypassActorType {
    /// The value GitHub expects in the REST API.
    pub open spec fn api_text(self) -> Seq<char> {
        match self {
            BypassActorType::Integration => "Integration"@,
            BypassActorType::OrganizationAdmin => "OrganizationAdmin"@,
            BypassActorType::RepositoryRole => "RepositoryRole"@,
            BypassActorType::Team => "Team"@,
            BypassActorType::DeployKey => "DeployKey"@,
            BypassActorType::User => "User"@,
        }
    }

    /// The value GitHub expects in the REST API.
    pub fn api_str(self) -> (text: &'static str)
        ensures
            text@ == self.api_text(),
    {
        match self {
            BypassActorType::Integration => "Integration",
            BypassActorType::OrganizationAdmin => "OrganizationAdmin",
            BypassActorType::RepositoryRole => "RepositoryRole",
            BypassActorType::Team => "Team",
            BypassActorType::DeployKey => "DeployKey",
            BypassActorType::User => "User",
        }
    }

    /// Whether an actor of this type is told apart by an ID.
    pub open spec fn identified(self) -> bool {
        self != BypassActorType::OrganizationAdmin && self != BypassActorType::DeployKey
    }

    /// Whether GitHub requires an `actor_id` for this actor type.
    pub fn needs_actor_id(self) -> (needed: bool)
        ensures
            needed == self.identified(),
    {
        !matches!(self, BypassActorType::OrganizationAdmin | BypassActorType::DeployKey)
    }
}

/// When a bypass actor may bypass a ruleset.
#[derive(Debug, Clone, Copy, PartialEq, Eq, Structural)]
pub enum BypassMode {
    Always,
    PullRequest,
    Exempt,
}

impl BypassMode {
    /// The value GitHub expects in the REST API.
    pub open spec fn api_text(self) -> Seq<char> {
        match self {
            BypassMode::Always => "always"@,
            BypassMode::PullRequest => "pull_request"@,
            BypassMode::Exempt => "exempt"@,
        }
    }

    /// The value GitHub expects in the REST API.
    pub fn api_str(self) -> (text: &'static str)
        ensures
            text@ == self.api_text(),
    {
        match self {
            BypassMode::Always => "always",
            BypassMode::PullRequest => "pull_request",
            BypassMode::Exempt => "exempt",
        }
    }
}

/// A single ruleset rule, mirroring `repository-rule` in the GitHub API.
#[derive(Debug, Clone)]
pub struct Rule {
    /// The `type` of the rule.
    pub rule_type: String,
    /// Rule parameters, passed through to GitHub unchanged.
    pub parameters: Option<KeyMap<Json>>,
}

} // verus!
