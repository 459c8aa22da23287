//! The rules a configuration has to keep before anything is planned from it.

use vstd::prelude::*;
use vstd::string::*;

use crate::config::{
    ActionsConfig, AllowedActions, BranchProtectionConfig, BypassActor, Config, PullRequestConfig,
    RepoConfig, Rule, RulesetConfig, Visibility,
};
use crate::keymap::KeyMap;
use crate::settings::toggled;
use crate::text::{blank, characters, decimal, is_blank, number_text, position, same, texts};

verus! {

/// What is wrong with a configuration.
#[derive(Debug, Clone, Copy, PartialEq, Eq, Structural)]
pub enum Problem {
    NoRepositories,
    EmptyName,
    OwnerInName,
    EmptyOwner,
    InternalVisibility,
    InvalidTopic,
    NoMergeMethod,
    AutoMergeWithoutMethod,
    EmptyBranchName,
    MissingAllowList,
    EmptyRulesetName,
    MissingActorId,
    UnknownRuleType,
    MissingParameters,
}

/// Why a configuration is rejected.
#[derive(Debug)]
pub struct ConfigError {
    pub problem: Problem,
    pub message: String,
}

/// The model of a rejection.
pub struct ConfigErrorView {
    pub problem: Problem,
    pub message: Seq<char>,
}

impl View for ConfigError {
    type V = ConfigErrorView;

    open spec fn view(&self) -> ConfigErrorView {
        ConfigErrorView { problem: self.problem, message: self.message@ }
    }
}

// --- Models -------------------------------------------------------------

/// The rejection for which a check gave a reason.
pub open spec fn rejection(outcome: Result<(), ConfigError>) -> Option<ConfigErrorView> {
    match outcome {
        Ok(()) => None,
        Err(error) => Some(error@),
    }
}

/// The first rejection among the outcomes of several checks.
pub open spec fn first_rejection(outcomes: Seq<Option<ConfigErrorView>>) -> Option<ConfigErrorView>
    decreases outcomes.len(),
{
    if outcomes.len() == 0 {
        None
    } else if outcomes[0] is Some {
        outcomes[0]
    } else {
        first_rejection(outcomes.drop_first())
    }
}

/// The first rejection of two checks.
pub open spec fn otherwise(
    first: Option<ConfigErrorView>,
    second: Option<ConfigErrorView>,
) -> Option<ConfigErrorView> {
    if first is Some {
        first
    } else {
        second
    }
}

/// A rejection, where the condition for it holds.
pub open spec fn rejected_if(condition: bool, problem: Problem, message: Seq<char>) -> Option<
    ConfigErrorView,
> {
    if condition {
        Some(ConfigErrorView { problem: problem, message: message })
    } else {
        None
    }
}

/// A message about a repository.
pub open spec fn about_repo(name: Seq<char>, text: Seq<char>) -> Seq<char> {
    "repository `"@ + name + "`: "@ + text
}

/// A message about a ruleset of a repository.
pub open spec fn about_ruleset(name: Seq<char>, key: Seq<char>, text: Seq<char>) -> Seq<char> {
    about_repo(name, "ruleset `"@ + key + text)
}

/// The GitHub name of a repository: the declared one, or else the key.
pub open spec fn name_of(key: Seq<char>, repo: RepoConfig) -> Seq<char> {
    match repo.name {
        Some(name) => name@,
        None => key,
    }
}

/// The GitHub name of a ruleset: the declared one, or else the key.
pub open spec fn ruleset_name_of(key: Seq<char>, ruleset: RulesetConfig) -> Seq<char> {
    match ruleset.name {
        Some(name) => name@,
        None => key,
    }
}

/// The characters that a topic may hold.
pub open spec fn topic_character(c: char) -> bool {
    ||| 'a' <= c <= 'z'
    ||| 'A' <= c <= 'Z'
    ||| '0' <= c <= '9'
    ||| c == '-'
    ||| c == '_'
    ||| c == '.'
}

/// A topic is 1-50 characters of `[A-Za-z0-9._-]`.
pub open spec fn valid_topic(topic: Seq<char>) -> bool {
    &&& 1 <= topic.len() <= 50
    &&& forall|i: int| 0 <= i < topic.len() ==> topic_character(#[trigger] topic[i])
}

pub open spec fn topic_rejection(name: Seq<char>, topic: Seq<char>) -> Option<ConfigErrorView> {
    rejected_if(
        !valid_topic(topic),
        Problem::InvalidTopic,
        about_repo(
            name,
            "invalid topic `"@ + topic + "` (topics are 1-50 characters of [A-Za-z0-9._-])"@,
        ),
    )
}

/// The first topic that is not valid.
pub open spec fn topics_rejection(name: Seq<char>, topics: Option<Vec<String>>) -> Option<
    ConfigErrorView,
> {
    match topics {
        Some(list) => first_rejection(
            texts(list@).map_values(|topic: Seq<char>| topic_rejection(name, topic)),
        ),
        None => None,
    }
}

/// Whether merge commits are declared, and how.
pub open spec fn merge_method(pull: PullRequestConfig) -> Option<bool> {
    match pull.merge {
        Some(merge) => merge.enable,
        None => None,
    }
}

/// Whether squash merges are declared, and how.
pub open spec fn squash_method(pull: PullRequestConfig) -> Option<bool> {
    match pull.squash {
        Some(squash) => squash.enable,
        None => None,
    }
}

/// The merge methods must not all be declared off, and auto-merge needs merge
/// commits or squash merges to be declared on.
pub open spec fn pull_rejection(name: Seq<char>, pull: PullRequestConfig) -> Option<
    ConfigErrorView,
> {
    otherwise(
        rejected_if(
            merge_method(pull) == Some(false) && squash_method(pull) == Some(false) && toggled(
                pull.rebase,
            ) == Some(false),
            Problem::NoMergeMethod,
            about_repo(
                name,
                "at least one of `pull.merge.enable`, `pull.squash.enable`, or `pull.rebase.enable` must be true"@,
            ),
        ),
        rejected_if(
            pull.auto_merge == Some(true) && merge_method(pull) != Some(true) && squash_method(
                pull,
            ) != Some(true),
            Problem::AutoMergeWithoutMethod,
            about_repo(
                name,
                "`pull.auto_merge = true` requires `pull.merge.enable` or `pull.squash.enable` to be true"@,
            ),
        ),
    )
}

pub open spec fn branch_rejection(name: Seq<char>, branch: Seq<char>) -> Option<ConfigErrorView> {
    rejected_if(
        blank(branch),
        Problem::EmptyBranchName,
        about_repo(name, "branch names cannot be empty"@),
    )
}

/// The first branch without a name.
pub open spec fn branches_rejection(
    name: Seq<char>,
    branches: Option<KeyMap<BranchProtectionConfig>>,
) -> Option<ConfigErrorView> {
    match branches {
        Some(map) => first_rejection(
            map@.map_values(
                |entry: (Seq<char>, BranchProtectionConfig)| branch_rejection(name, entry.0),
            ),
        ),
        None => None,
    }
}

/// The policy `selected` needs an allow-list.
pub open spec fn actions_rejection(name: Seq<char>, actions: Option<ActionsConfig>) -> Option<
    ConfigErrorView,
> {
    rejected_if(
        actions is Some && actions->0.policy == Some(AllowedActions::Selected)
            && actions->0.selected is None,
        Problem::MissingAllowList,
        about_repo(name, "`actions.policy = \"selected\"` also requires `actions.selected`"@),
    )
}

/// Whether GitHub has rules of the type. Rules are passed on as they are, so
/// that this only guards against typing errors.
pub open spec fn known_rule_type(rule_type: Seq<char>) -> bool {
    ||| rule_type == "creation"@
    ||| rule_type == "update"@
    ||| rule_type == "deletion"@
    ||| rule_type == "required_linear_history"@
    ||| rule_type == "merge_queue"@
    ||| rule_type == "required_deployments"@
    ||| rule_type == "required_signatures"@
    ||| rule_type == "pull_request"@
    ||| rule_type == "required_status_checks"@
    ||| rule_type == "non_fast_forward"@
    ||| rule_type == "commit_message_pattern"@
    ||| rule_type == "commit_author_email_pattern"@
    ||| rule_type == "committer_email_pattern"@
    ||| rule_type == "branch_name_pattern"@
    ||| rule_type == "tag_name_pattern"@
    ||| rule_type == "workflows"@
    ||| rule_type == "code_scanning"@
    ||| rule_type == "code_quality"@
    ||| rule_type == "code_coverage"@
    ||| rule_type == "copilot_code_review"@
    ||| rule_type == "license_compliance_scanning"@
    ||| rule_type == "file_path_restriction"@
    ||| rule_type == "max_file_path_length"@
    ||| rule_type == "file_extension_restriction"@
    ||| rule_type == "max_file_size"@
}

/// Whether rules of the type have parameters that GitHub insists on.
pub open spec fn parameterized(rule_type: Seq<char>) -> bool {
    ||| rule_type == "update"@
    ||| rule_type == "merge_queue"@
    ||| rule_type == "required_deployments"@
    ||| rule_type == "pull_request"@
    ||| rule_type == "required_status_checks"@
    ||| rule_type == "commit_message_pattern"@
    ||| rule_type == "commit_author_email_pattern"@
    ||| rule_type == "committer_email_pattern"@
    ||| rule_type == "branch_name_pattern"@
    ||| rule_type == "tag_name_pattern"@
    ||| rule_type == "workflows"@
    ||| rule_type == "code_scanning"@
    ||| rule_type == "code_quality"@
    ||| rule_type == "file_path_restriction"@
    ||| rule_type == "max_file_path_length"@
    ||| rule_type == "file_extension_restriction"@
    ||| rule_type == "max_file_size"@
}

/// An actor that is told apart by an ID needs one.
pub open spec fn actor_rejection(
    name: Seq<char>,
    key: Seq<char>,
    index: int,
    actor: BypassActor,
) -> Option<ConfigErrorView> {
    rejected_if(
        actor.actor_type.identified() && actor.actor_id is None,
        Problem::MissingActorId,
        about_ruleset(
            name,
            key,
            "` bypass actor #"@ + decimal(index as nat) + " of type `"@
                + actor.actor_type.api_text() + "` requires `actor_id`"@,
        ),
    )
}

/// The first actor without an ID that it needs.
pub open spec fn actors_rejection(
    name: Seq<char>,
    key: Seq<char>,
    actors: Option<Vec<BypassActor>>,
) -> Option<ConfigErrorView> {
    match actors {
        Some(list) => first_rejection(
            list@.map(|index: int, actor: BypassActor| actor_rejection(name, key, index, actor)),
        ),
        None => None,
    }
}

/// A rule has a type that GitHub knows, and parameters where it needs them.
pub open spec fn rule_rejection(name: Seq<char>, key: Seq<char>, rule: Rule) -> Option<
    ConfigErrorView,
> {
    otherwise(
        rejected_if(
            !known_rule_type(rule.rule_type@),
            Problem::UnknownRuleType,
            about_ruleset(name, key, "` has unknown rule type `"@ + rule.rule_type@ + "`"@),
        ),
        rejected_if(
            parameterized(rule.rule_type@) && (rule.parameters is None
                || rule.parameters->0@.len() == 0),
            Problem::MissingParameters,
            about_ruleset(name, key, "` rule `"@ + rule.rule_type@ + "` requires `parameters`"@),
        ),
    )
}

/// The first rule that is rejected.
pub open spec fn rules_rejection(
    name: Seq<char>,
    key: Seq<char>,
    rules: Option<Vec<Rule>>,
) -> Option<ConfigErrorView> {
    match rules {
        Some(list) => first_rejection(
            list@.map_values(|rule: Rule| rule_rejection(name, key, rule)),
        ),
        None => None,
    }
}

/// A ruleset has a name, and its actors and rules are in order.
pub open spec fn ruleset_rejection(
    name: Seq<char>,
    key: Seq<char>,
    ruleset: RulesetConfig,
) -> Option<ConfigErrorView> {
    otherwise(
        rejected_if(
            blank(ruleset_name_of(key, ruleset)),
            Problem::EmptyRulesetName,
            about_repo(name, "ruleset names cannot be empty"@),
        ),
        otherwise(
            actors_rejection(name, key, ruleset.bypass_actors),
            rules_rejection(name, key, ruleset.rules),
        ),
    )
}

/// The first ruleset that is rejected.
pub open spec fn rulesets_rejection(
    name: Seq<char>,
    rulesets: Option<KeyMap<RulesetConfig>>,
) -> Option<ConfigErrorView> {
    match rulesets {
        Some(map) => first_rejection(
            map@.map_values(
                |entry: (Seq<char>, RulesetConfig)| ruleset_rejection(name, entry.0, entry.1),
            ),
        ),
        None => None,
    }
}

/// A repository has a short name, an owner that is not empty where one is
/// declared, and a visibility that a personal account can give.
pub open spec fn identity_rejection(name: Seq<char>, repo: RepoConfig) -> Option<ConfigErrorView> {
    otherwise(
        rejected_if(blank(name), Problem::EmptyName, "repository name cannot be empty"@),
        otherwise(
            rejected_if(
                name.contains('/'),
                Problem::OwnerInName,
                about_repo(name, "use the short name, not `owner/name`"@),
            ),
            otherwise(
                rejected_if(
                    repo.owner is Some && blank(repo.owner->0@),
                    Problem::EmptyOwner,
                    about_repo(name, "`owner` cannot be empty"@),
                ),
                rejected_if(
                    repo.visibility == Some(Visibility::Internal),
                    Problem::InternalVisibility,
                    about_repo(
                        name,
                        "`internal` visibility is only available to enterprise organizations, not personal accounts"@,
                    ),
                ),
            ),
        ),
    )
}

/// Why the configuration of a repository is rejected: the first rule that it
/// breaks.
pub open spec fn repo_rejection(key: Seq<char>, repo: RepoConfig) -> Option<ConfigErrorView> {
    let name = name_of(key, repo);
    otherwise(
        identity_rejection(name, repo),
        otherwise(
            topics_rejection(name, repo.topics),
            otherwise(
                match repo.pull {
                    Some(pull) => pull_rejection(name, pull),
                    None => None,
                },
                otherwise(
                    branches_rejection(name, repo.branch_protection),
                    otherwise(
                        actions_rejection(name, repo.actions),
                        rulesets_rejection(name, repo.rulesets),
                    ),
                ),
            ),
        ),
    )
}

/// Why a configuration is rejected: it declares no repository, or else the
/// first of its repositories that is rejected.
pub open spec fn config_rejection(config: Config) -> Option<ConfigErrorView> {
    if config.repos@.len() == 0 {
        Some(
            ConfigErrorView {
                problem: Problem::NoRepositories,
                message: "configuration declares no repositories"@,
            },
        )
    } else {
        first_rejection(
            config.repos@.map_values(|entry: (Seq<char>, RepoConfig)| repo_rejection(
                entry.0,
                entry.1,
            )),
        )
    }
}

// --- Operations ----------------------------------------------------------

/// Checks that gave no rejection can be passed over.
proof fn lemma_skip_rejections(outcomes: Seq<Option<ConfigErrorView>>, n: int)
    requires
        0 <= n <= outcomes.len(),
        forall|i: int| 0 <= i < n ==> #[trigger] outcomes[i] is None,
    ensures
        first_rejection(outcomes) == first_rejection(outcomes.skip(n)),
        n < outcomes.len() && outcomes[n] is Some ==> first_rejection(outcomes) == outcomes[n],
        n == outcomes.len() ==> first_rejection(outcomes) is None,
    decreases n,
{
    if n == 0 {
        assert(outcomes.skip(0) =~= outcomes);
    } else {
        let rest = outcomes.drop_first();
        assert forall|i: int| 0 <= i < n - 1 implies #[trigger] rest[i] is None by {
            assert(rest[i] == outcomes[i + 1]);
        }
        lemma_skip_rejections(rest, n - 1);
        assert(outcomes[0] is None);
        assert(rest.skip(n - 1) =~= outcomes.skip(n));
    }
}

/// A rejection of the given kind.
fn reject(problem: Problem, message: String) -> (outcome: Result<(), ConfigError>)
    ensures
        rejection(outcome) == Some(ConfigErrorView { problem: problem, message: message@ }),
        outcome is Err,
{
    Err(ConfigError { problem: problem, message: message })
}

/// A message about a repository.
fn repo_message(name: &str, text: &str) -> (message: String)
    ensures
        message@ == about_repo(name@, text@),
{
    "repository `".to_owned().concat(name).concat("`: ").concat(text)
}

/// A message about a ruleset of a repository.
fn ruleset_message(name: &str, key: &str, text: &str) -> (message: String)
    ensures
        message@ == about_ruleset(name@, key@, text@),
{
    repo_message(name, "ruleset `".to_owned().concat(key).concat(text).as_str())
}

/// Whether a topic is valid.
fn topic_is_valid(topic: &str) -> (valid: bool)
    ensures
        valid == valid_topic(topic@),
{
    let chars = characters(topic);
    if chars.len() == 0 || chars.len() > 50 {
        return false;
    }
    let mut i: usize = 0;
    while i < chars.len()
        invariant
            i <= chars@.len(),
            chars@ == topic@,
            forall|j: int| 0 <= j < i ==> topic_character(#[trigger] topic@[j]),
        decreases chars@.len() - i,
    {
        let c = chars[i];
        let allowed = ('a' <= c && c <= 'z') || ('A' <= c && c <= 'Z') || ('0' <= c && c <= '9')
            || c == '-' || c == '_' || c == '.';
        if !allowed {
            assert(!topic_character(topic@[i as int]));
            return false;
        }
        i = i + 1;
    }
    true
}

/// Checks the topics of a repository.
fn validate_topics(name: &str, topics: &Option<Vec<String>>) -> (outcome: Result<(), ConfigError>)
    ensures
        rejection(outcome) == topics_rejection(name@, *topics),
{
    if let Some(list) = topics {
        let ghost outcomes = texts(list@).map_values(
            |topic: Seq<char>| topic_rejection(name@, topic),
        );
        let mut i: usize = 0;
        while i < list.len()
            invariant
                i <= list@.len(),
                first_rejection(outcomes) == topics_rejection(name@, *topics),
                outcomes == texts(list@).map_values(
                    |topic: Seq<char>| topic_rejection(name@, topic),
                ),
                forall|j: int| 0 <= j < i ==> #[trigger] outcomes[j] is None,
            decreases list@.len() - i,
        {
            let topic = list[i].as_str();
            assert(outcomes[i as int] == topic_rejection(name@, topic@));
            if !topic_is_valid(topic) {
                proof {
                    lemma_skip_rejections(outcomes, i as int);
                }
                let text = "invalid topic `".to_owned().concat(topic).concat(
                    "` (topics are 1-50 characters of [A-Za-z0-9._-])",
                );
                return reject(Problem::InvalidTopic, repo_message(name, text.as_str()));
            }
            i = i + 1;
        }
        proof {
            lemma_skip_rejections(outcomes, i as int);
        }
    }
    Ok(())
}

/// The declared merge methods: merge commits, squash merges and rebase merges.
pub fn merge_methods(pull: &PullRequestConfig) -> (methods: [Option<bool>; 3])
    ensures
        methods@ == seq![merge_method(*pull), squash_method(*pull), toggled(pull.rebase)],
{
    [
        match &pull.merge {
            Some(method) => method.enable,
            None => None,
        },
        match &pull.squash {
            Some(method) => method.enable,
            None => None,
        },
        match &pull.rebase {
            Some(method) => method.enable,
            None => None,
        },
    ]
}

/// Whether a flag is declared as `value`.
fn is_flag(flag: Option<bool>, value: bool) -> (r: bool)
    ensures
        r == (flag == Some(value)),
{
    match flag {
        Some(f) => f == value,
        None => false,
    }
}

/// Checks the pull request settings of a repository.
fn validate_pull(name: &str, pull: &PullRequestConfig) -> (outcome: Result<(), ConfigError>)
    ensures
        rejection(outcome) == pull_rejection(name@, *pull),
{
    let methods = merge_methods(pull);
    assert(methods@[0] == merge_method(*pull) && methods@[1] == squash_method(*pull) && methods@[2]
        == toggled(pull.rebase));
    // GitHub requires at least one merge method. Only reject an explicit
    // "all disabled"; undeclared methods are left as they are.
    if is_flag(methods[0], false) && is_flag(methods[1], false) && is_flag(methods[2], false) {
        return reject(
            Problem::NoMergeMethod,
            repo_message(
                name,
                "at least one of `pull.merge.enable`, `pull.squash.enable`, or `pull.rebase.enable` must be true",
            ),
        );
    }
    if is_flag(pull.auto_merge, true) && !is_flag(methods[0], true) && !is_flag(methods[1], true) {
        return reject(
            Problem::AutoMergeWithoutMethod,
            repo_message(
                name,
                "`pull.auto_merge = true` requires `pull.merge.enable` or `pull.squash.enable` to be true",
            ),
        );
    }
    Ok(())
}

/// Checks the names of the protected branches of a repository.
fn validate_branches(
    name: &str,
    branches: &Option<KeyMap<BranchProtectionConfig>>,
) -> (outcome: Result<(), ConfigError>)
    ensures
        rejection(outcome) == branches_rejection(name@, *branches),
{
    if let Some(map) = branches {
        let ghost outcomes = map@.map_values(
            |entry: (Seq<char>, BranchProtectionConfig)| branch_rejection(name@, entry.0),
        );
        let mut i: usize = 0;
        while i < map.entries.len()
            invariant
                i <= map.entries@.len(),
                first_rejection(outcomes) == branches_rejection(name@, *branches),
                outcomes == map@.map_values(
                    |entry: (Seq<char>, BranchProtectionConfig)| branch_rejection(name@, entry.0),
                ),
                forall|j: int| 0 <= j < i ==> #[trigger] outcomes[j] is None,
            decreases map.entries@.len() - i,
        {
            let branch = map.entries[i].0.as_str();
            assert(outcomes[i as int] == branch_rejection(name@, branch@));
            if is_blank(branch) {
                proof {
                    lemma_skip_rejections(outcomes, i as int);
                }
                return reject(
                    Problem::EmptyBranchName,
                    repo_message(name, "branch names cannot be empty"),
                );
            }
            i = i + 1;
        }
        proof {
            lemma_skip_rejections(outcomes, i as int);
        }
    }
    Ok(())
}

/// Whether GitHub has rules of the type.
pub fn is_rule_type(rule_type: &str) -> (known: bool)
    ensures
        known == known_rule_type(rule_type@),
{
    same(rule_type, "creation") || same(rule_type, "update") || same(rule_type, "deletion") || same(
        rule_type,
        "required_linear_history",
    ) || same(rule_type, "merge_queue") || same(rule_type, "required_deployments") || same(
        rule_type,
        "required_signatures",
    ) || same(rule_type, "pull_request") || same(rule_type, "required_status_checks") || same(
        rule_type,
        "non_fast_forward",
    ) || same(rule_type, "commit_message_pattern") || same(rule_type, "commit_author_email_pattern")
        || same(rule_type, "committer_email_pattern") || same(rule_type, "branch_name_pattern")
        || same(rule_type, "tag_name_pattern") || same(rule_type, "workflows") || same(
        rule_type,
        "code_scanning",
    ) || same(rule_type, "code_quality") || same(rule_type, "code_coverage") || same(
        rule_type,
        "copilot_code_review",
    ) || same(rule_type, "license_compliance_scanning") || same(rule_type, "file_path_restriction")
        || same(rule_type, "max_file_path_length") || same(rule_type, "file_extension_restriction")
        || same(rule_type, "max_file_size")
}

/// Whether rules of the type have parameters that GitHub insists on.
pub fn rule_requires_parameters(rule_type: &str) -> (required: bool)
    ensures
        required == parameterized(rule_type@),
{
    same(rule_type, "update") || same(rule_type, "merge_queue") || same(
        rule_type,
        "required_deployments",
    ) || same(rule_type, "pull_request") || same(rule_type, "required_status_checks") || same(
        rule_type,
        "commit_message_pattern",
    ) || same(rule_type, "commit_author_email_pattern") || same(
        rule_type,
        "committer_email_pattern",
    ) || same(rule_type, "branch_name_pattern") || same(rule_type, "tag_name_pattern") || same(
        rule_type,
        "workflows",
    ) || same(rule_type, "code_scanning") || same(rule_type, "code_quality") || same(
        rule_type,
        "file_path_restriction",
    ) || same(rule_type, "max_file_path_length") || same(rule_type, "file_extension_restriction")
        || same(rule_type, "max_file_size")
}

/// Checks the bypass actors of a ruleset.
fn validate_actors(name: &str, key: &str, actors: &Option<Vec<BypassActor>>) -> (outcome: Result<
    (),
    ConfigError,
>)
    ensures
        rejection(outcome) == actors_rejection(name@, key@, *actors),
{
    if let Some(list) = actors {
        let ghost outcomes = list@.map(
            |index: int, actor: BypassActor| actor_rejection(name@, key@, index, actor),
        );
        let mut i: usize = 0;
        while i < list.len()
            invariant
                i <= list@.len(),
                first_rejection(outcomes) == actors_rejection(name@, key@, *actors),
                outcomes == list@.map(
                    |index: int, actor: BypassActor| actor_rejection(name@, key@, index, actor),
                ),
                forall|j: int| 0 <= j < i ==> #[trigger] outcomes[j] is None,
            decreases list@.len() - i,
        {
            let actor = &list[i];
            assert(outcomes[i as int] == actor_rejection(name@, key@, i as int, *actor));
            if actor.actor_type.needs_actor_id() && actor.actor_id.is_none() {
                proof {
                    lemma_skip_rejections(outcomes, i as int);
                }
                let text = "` bypass actor #".to_owned().concat(
                    number_text(i as u64).as_str(),
                ).concat(" of type `").concat(actor.actor_type.api_str()).concat(
                    "` requires `actor_id`",
                );
                return reject(
                    Problem::MissingActorId,
                    ruleset_message(name, key, text.as_str()),
                );
            }
            i = i + 1;
        }
        proof {
            lemma_skip_rejections(outcomes, i as int);
        }
    }
    Ok(())
}

/// Checks a rule of a ruleset.
fn validate_rule(name: &str, key: &str, rule: &Rule) -> (outcome: Result<(), ConfigError>)
    ensures
        rejection(outcome) == rule_rejection(name@, key@, *rule),
{
    let rule_type = rule.rule_type.as_str();
    if !is_rule_type(rule_type) {
        let text = "` has unknown rule type `".to_owned().concat(rule_type).concat("`");
        return reject(Problem::UnknownRuleType, ruleset_message(name, key, text.as_str()));
    }
    let bare = match &rule.parameters {
        Some(parameters) => parameters.is_empty(),
        None => true,
    };
    if rule_requires_parameters(rule_type) && bare {
        let text = "` rule `".to_owned().concat(rule_type).concat("` requires `parameters`");
        return reject(Problem::MissingParameters, ruleset_message(name, key, text.as_str()));
    }
    Ok(())
}

/// Checks the rules of a ruleset.
fn validate_rules(name: &str, key: &str, rules: &Option<Vec<Rule>>) -> (outcome: Result<
    (),
    ConfigError,
>)
    ensures
        rejection(outcome) == rules_rejection(name@, key@, *rules),
{
    if let Some(list) = rules {
        let ghost outcomes = list@.map_values(|rule: Rule| rule_rejection(name@, key@, rule));
        let mut i: usize = 0;
        while i < list.len()
            invariant
                i <= list@.len(),
                first_rejection(outcomes) == rules_rejection(name@, key@, *rules),
                outcomes == list@.map_values(|rule: Rule| rule_rejection(name@, key@, rule)),
                forall|j: int| 0 <= j < i ==> #[trigger] outcomes[j] is None,
            decreases list@.len() - i,
        {
            let outcome = validate_rule(name, key, &list[i]);
            assert(outcomes[i as int] == rule_rejection(name@, key@, list@[i as int]));
            if outcome.is_err() {
                proof {
                    lemma_skip_rejections(outcomes, i as int);
                }
                return outcome;
            }
            i = i + 1;
        }
        proof {
            lemma_skip_rejections(outcomes, i as int);
        }
    }
    Ok(())
}

/// Checks a ruleset of a repository.
fn validate_ruleset(name: &str, key: &str, ruleset: &RulesetConfig) -> (outcome: Result<
    (),
    ConfigError,
>)
    ensures
        rejection(outcome) == ruleset_rejection(name@, key@, *ruleset),
{
    let nameless = match &ruleset.name {
        Some(ruleset_name) => is_blank(ruleset_name.as_str()),
        None => is_blank(key),
    };
    if nameless {
        return reject(
            Problem::EmptyRulesetName,
            repo_message(name, "ruleset names cannot be empty"),
        );
    }
    let outcome = validate_actors(name, key, &ruleset.bypass_actors);
    if outcome.is_err() {
        return outcome;
    }
    validate_rules(name, key, &ruleset.rules)
}

/// Checks the rulesets of a repository.
fn validate_rulesets(name: &str, rulesets: &Option<KeyMap<RulesetConfig>>) -> (outcome: Result<
    (),
    ConfigError,
>)
    ensures
        rejection(outcome) == rulesets_rejection(name@, *rulesets),
{
    if let Some(map) = rulesets {
        let ghost outcomes = map@.map_values(
            |entry: (Seq<char>, RulesetConfig)| ruleset_rejection(name@, entry.0, entry.1),
        );
        let mut i: usize = 0;
        while i < map.entries.len()
            invariant
                i <= map.entries@.len(),
                first_rejection(outcomes) == rulesets_rejection(name@, *rulesets),
                outcomes == map@.map_values(
                    |entry: (Seq<char>, RulesetConfig)| ruleset_rejection(name@, entry.0, entry.1),
                ),
                forall|j: int| 0 <= j < i ==> #[trigger] outcomes[j] is None,
            decreases map.entries@.len() - i,
        {
            let entry = &map.entries[i];
            assert(outcomes[i as int] == ruleset_rejection(name@, entry.0@, entry.1));
            let outcome = validate_ruleset(name, entry.0.as_str(), &entry.1);
            if outcome.is_err() {
                proof {
                    lemma_skip_rejections(outcomes, i as int);
                }
                return outcome;
            }
            i = i + 1;
        }
        proof {
            lemma_skip_rejections(outcomes, i as int);
        }
    }
    Ok(())
}

/// Checks the name, the owner and the visibility of a repository.
fn validate_identity(name: &str, repo: &RepoConfig) -> (outcome: Result<(), ConfigError>)
    ensures
        rejection(outcome) == identity_rejection(name@, *repo),
{
    if is_blank(name) {
        return reject(Problem::EmptyName, "repository name cannot be empty".to_owned());
    }
    let chars = characters(name);
    if position(&chars, '/') < chars.len() {
        return reject(
            Problem::OwnerInName,
            repo_message(name, "use the short name, not `owner/name`"),
        );
    }
    if let Some(owner) = &repo.owner {
        if is_blank(owner.as_str()) {
            return reject(Problem::EmptyOwner, repo_message(name, "`owner` cannot be empty"));
        }
    }
    if repo.visibility.is_some() && repo.visibility.unwrap() == Visibility::Internal {
        return reject(
            Problem::InternalVisibility,
            repo_message(
                name,
                "`internal` visibility is only available to enterprise organizations, not personal accounts",
            ),
        );
    }
    Ok(())
}

/// Checks what is declared for one repository under the attribute key `key`.
pub fn validate_repo(key: &str, repo: &RepoConfig) -> (outcome: Result<(), ConfigError>)
    ensures
        rejection(outcome) == repo_rejection(key@, *repo),
{
    let name = match &repo.name {
        Some(name) => name.as_str(),
        None => key,
    };
    let identity = validate_identity(name, repo);
    if identity.is_err() {
        return identity;
    }
    let topics = validate_topics(name, &repo.topics);
    if topics.is_err() {
        return topics;
    }
    if let Some(pull) = &repo.pull {
        let methods = validate_pull(name, pull);
        if methods.is_err() {
            return methods;
        }
    }
    let branches = validate_branches(name, &repo.branch_protection);
    if branches.is_err() {
        return branches;
    }
    if let Some(actions) = &repo.actions {
        if actions.policy.is_some() && actions.policy.unwrap() == AllowedActions::Selected
            && actions.selected.is_none() {
            return reject(
                Problem::MissingAllowList,
                repo_message(
                    name,
                    "`actions.policy = \"selected\"` also requires `actions.selected`",
                ),
            );
        }
    }
    validate_rulesets(name, &repo.rulesets)
}

impl Config {
    /// Checks the configuration. The first rule that is broken, in the order
    /// in which the repositories are kept, is the one that is reported.
    pub fn validate(&self) -> (outcome: Result<(), ConfigError>)
        ensures
            rejection(outcome) == config_rejection(*self),
    {
        if self.repos.is_empty() {
            return reject(
                Problem::NoRepositories,
                "configuration declares no repositories".to_owned(),
            );
        }
        let ghost outcomes = self.repos@.map_values(
            |entry: (Seq<char>, RepoConfig)| repo_rejection(entry.0, entry.1),
        );
        let mut i: usize = 0;
        while i < self.repos.entries.len()
            invariant
                i <= self.repos.entries@.len(),
                outcomes == self.repos@.map_values(
                    |entry: (Seq<char>, RepoConfig)| repo_rejection(entry.0, entry.1),
                ),
                forall|j: int| 0 <= j < i ==> #[trigger] outcomes[j] is None,
            decreases self.repos.entries@.len() - i,
        {
            let entry = &self.repos.entries[i];
            assert(outcomes[i as int] == repo_rejection(entry.0@, entry.1));
            let outcome = validate_repo(entry.0.as_str(), &entry.1);
            if outcome.is_err() {
                proof {
                    lemma_skip_rejections(outcomes, i as int);
                }
                return outcome;
            }
            i = i + 1;
        }
        proof {
            lemma_skip_rejections(outcomes, i as int);
        }
        Ok(())
    }
}

} // verus!
