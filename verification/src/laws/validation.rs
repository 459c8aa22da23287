//! Laws of checking a configuration: what is accepted, and what a rejection
//! says.

use vstd::prelude::*;

use crate::config::{
    ActionsConfig, BranchProtectionConfig, BypassActor, Config, PullRequestConfig, RepoConfig, Rule,
    RulesetConfig,
};
use crate::laws::run::lemma_none_rejected;
use crate::text::{blank, decimal, texts, white_space};
use crate::validate::{
    actor_rejection, branch_rejection, config_rejection, first_rejection, known_rule_type,
    parameterized, repo_rejection, rule_rejection, ruleset_rejection, topic_character,
    topic_rejection, ConfigErrorView, Problem,
};

verus! {

// --- What is asked of a configuration -------------------------------------------

/// Whether a text holds something but white space.
pub open spec fn says_something(text: Seq<char>) -> bool {
    exists|i: int| 0 <= i < text.len() && !white_space(#[trigger] text[i])
}

/// What goes by a declared name, or else by its key.
pub open spec fn called(declared: Option<String>, key: Seq<char>) -> Seq<char> {
    if declared is Some {
        declared->0@
    } else {
        key
    }
}

/// Whether a character is a letter or digit of ASCII, or one of `-`, `_`, `.`.
pub open spec fn fits_a_topic(c: char) -> bool {
    let code = c as int;
    ||| 48 <= code <= 57
    ||| 65 <= code <= 90
    ||| 97 <= code <= 122
    ||| code == 45
    ||| code == 46
    ||| code == 95
}

/// Whether a topic has from one to fifty characters that fit.
pub open spec fn is_topic(topic: Seq<char>) -> bool {
    &&& 0 < topic.len() < 51
    &&& !exists|i: int| 0 <= i < topic.len() && !fits_a_topic(#[trigger] topic[i])
}

/// Whether merge commits are declared on (or off).
pub open spec fn merges(pull: PullRequestConfig, on: bool) -> bool {
    pull.merge is Some && pull.merge->0.enable == Some(on)
}

/// Whether squash merges are declared on (or off).
pub open spec fn squashes(pull: PullRequestConfig, on: bool) -> bool {
    pull.squash is Some && pull.squash->0.enable == Some(on)
}

/// Whether rebase merges are declared off.
pub open spec fn rebases_not(pull: PullRequestConfig) -> bool {
    pull.rebase is Some && pull.rebase->0.enable == Some(false)
}

/// Whether the policy `selected` is declared without an allow-list.
pub open spec fn lacks_allow_list(actions: Option<ActionsConfig>) -> bool {
    &&& actions is Some
    &&& actions->0.policy is Some
    &&& actions->0.policy->0 is Selected
    &&& actions->0.selected is None
}

/// The types of rules that the rulesets API takes.
pub open spec fn rule_types() -> Seq<Seq<char>> {
    seq![
        "creation"@,
        "update"@,
        "deletion"@,
        "required_linear_history"@,
        "merge_queue"@,
        "required_deployments"@,
        "required_signatures"@,
        "pull_request"@,
        "required_status_checks"@,
        "non_fast_forward"@,
        "commit_message_pattern"@,
        "commit_author_email_pattern"@,
        "committer_email_pattern"@,
        "branch_name_pattern"@,
        "tag_name_pattern"@,
        "workflows"@,
        "code_scanning"@,
        "code_quality"@,
        "code_coverage"@,
        "copilot_code_review"@,
        "license_compliance_scanning"@,
        "file_path_restriction"@,
        "max_file_path_length"@,
        "file_extension_restriction"@,
        "max_file_size"@,
    ]
}

/// The types of rules that say nothing without parameters.
pub open spec fn types_with_parameters() -> Seq<Seq<char>> {
    seq![
        "update"@,
        "merge_queue"@,
        "required_deployments"@,
        "pull_request"@,
        "required_status_checks"@,
        "commit_message_pattern"@,
        "commit_author_email_pattern"@,
        "committer_email_pattern"@,
        "branch_name_pattern"@,
        "tag_name_pattern"@,
        "workflows"@,
        "code_scanning"@,
        "code_quality"@,
        "file_path_restriction"@,
        "max_file_path_length"@,
        "file_extension_restriction"@,
        "max_file_size"@,
    ]
}

/// Whether a rule lacks parameters that its type needs.
pub open spec fn lacks_parameters(rule: Rule) -> bool {
    &&& types_with_parameters().contains(rule.rule_type@)
    &&& rule.parameters is None || rule.parameters->0.entries@.len() == 0
}

/// Whether an actor lacks an ID that its type needs: there is only one
/// organization administrator and one deploy key, and many of any other type.
pub open spec fn lacks_id(actor: BypassActor) -> bool {
    &&& actor.actor_id is None
    &&& actor.actor_type is Integration || actor.actor_type is RepositoryRole
        || actor.actor_type is Team || actor.actor_type is User
}

/// Whether a ruleset is accepted.
pub open spec fn is_fine_ruleset(key: Seq<char>, ruleset: RulesetConfig) -> bool {
    &&& says_something(called(ruleset.name, key))
    &&& ruleset.bypass_actors is Some ==> forall|i: int|
        0 <= i < ruleset.bypass_actors->0@.len() ==> !lacks_id(
            #[trigger] ruleset.bypass_actors->0@[i],
        )
    &&& ruleset.rules is Some ==> forall|i: int|
        0 <= i < ruleset.rules->0@.len() ==> rule_types().contains(
            (#[trigger] ruleset.rules->0@[i]).rule_type@,
        ) && !lacks_parameters(ruleset.rules->0@[i])
}

/// Whether the configuration of a repository is accepted.
pub open spec fn is_fine_repo(key: Seq<char>, repo: RepoConfig) -> bool {
    let name = called(repo.name, key);
    &&& says_something(name)
    &&& !name.contains('/')
    &&& repo.owner is Some ==> says_something(repo.owner->0@)
    &&& !(repo.visibility is Some && repo.visibility->0 is Internal)
    &&& repo.topics is Some ==> forall|i: int|
        0 <= i < repo.topics->0@.len() ==> is_topic((#[trigger] repo.topics->0@[i])@)
    &&& repo.pull is Some ==> is_fine_pull(repo.pull->0)
    &&& repo.branch_protection is Some ==> forall|i: int|
        0 <= i < repo.branch_protection->0@.len() ==> says_something(
            (#[trigger] repo.branch_protection->0@[i]).0,
        )
    &&& !lacks_allow_list(repo.actions)
    &&& repo.rulesets is Some ==> forall|i: int|
        0 <= i < repo.rulesets->0@.len() ==> is_fine_ruleset(
            (#[trigger] repo.rulesets->0@[i]).0,
            repo.rulesets->0@[i].1,
        )
}

/// Whether the pull request settings are accepted: some merge method is left,
/// and auto-merge has merge commits or squash merges to go by.
pub open spec fn is_fine_pull(pull: PullRequestConfig) -> bool {
    &&& !(merges(pull, false) && squashes(pull, false) && rebases_not(pull))
    &&& pull.auto_merge == Some(true) ==> merges(pull, true) || squashes(pull, true)
}

// --- Laws ------------------------------------------------------------------

/// A rule is accepted exactly where its type is one that the API takes and it
/// has the parameters that its type needs. A rejection says which of the two
/// is not so, and names the type.
pub proof fn law_rules_are_accepted_by_type(name: Seq<char>, key: Seq<char>, rule: Rule)
    ensures
        rule_rejection(name, key, rule) is None <==> rule_types().contains(rule.rule_type@)
            && !lacks_parameters(rule),
        match rule_rejection(name, key, rule) {
            Some(error) => if rule_types().contains(rule.rule_type@) {
                &&& error.problem is MissingParameters
                &&& error.message == "repository `"@ + name + "`: "@ + ("ruleset `"@ + key + (
                "` rule `"@ + rule.rule_type@ + "` requires `parameters`"@))
            } else {
                &&& error.problem is UnknownRuleType
                &&& error.message == "repository `"@ + name + "`: "@ + ("ruleset `"@ + key + (
                "` has unknown rule type `"@ + rule.rule_type@ + "`"@))
            },
            None => true,
        },
{
    lemma_rule_types(rule.rule_type@);
    assert(rule.parameters is Some ==> rule.parameters->0@.len()
        == rule.parameters->0.entries@.len());
}

proof fn lemma_rule_types(rule_type: Seq<char>)
    ensures
        known_rule_type(rule_type) <==> rule_types().contains(rule_type),
        parameterized(rule_type) <==> types_with_parameters().contains(rule_type),
{
    let known = rule_types();
    if known.contains(rule_type) {
        let i = choose|i: int| 0 <= i < known.len() && known[i] == rule_type;
        assert(known_rule_type(known[i]));
    }
    if known_rule_type(rule_type) {
        assert(known[0] == "creation"@ && known[1] == "update"@ && known[2] == "deletion"@);
        assert(known[3] == "required_linear_history"@ && known[4] == "merge_queue"@);
        assert(known[5] == "required_deployments"@ && known[6] == "required_signatures"@);
        assert(known[7] == "pull_request"@ && known[8] == "required_status_checks"@);
        assert(known[9] == "non_fast_forward"@ && known[10] == "commit_message_pattern"@);
        assert(known[11] == "commit_author_email_pattern"@);
        assert(known[12] == "committer_email_pattern"@ && known[13] == "branch_name_pattern"@);
        assert(known[14] == "tag_name_pattern"@ && known[15] == "workflows"@);
        assert(known[16] == "code_scanning"@ && known[17] == "code_quality"@);
        assert(known[18] == "code_coverage"@ && known[19] == "copilot_code_review"@);
        assert(known[20] == "license_compliance_scanning"@);
        assert(known[21] == "file_path_restriction"@ && known[22] == "max_file_path_length"@);
        assert(known[23] == "file_extension_restriction"@ && known[24] == "max_file_size"@);
    }
    let needy = types_with_parameters();
    if needy.contains(rule_type) {
        let i = choose|i: int| 0 <= i < needy.len() && needy[i] == rule_type;
        assert(parameterized(needy[i]));
    }
    if parameterized(rule_type) {
        assert(needy[0] == "update"@ && needy[1] == "merge_queue"@);
        assert(needy[2] == "required_deployments"@ && needy[3] == "pull_request"@);
        assert(needy[4] == "required_status_checks"@ && needy[5] == "commit_message_pattern"@);
        assert(needy[6] == "commit_author_email_pattern"@);
        assert(needy[7] == "committer_email_pattern"@ && needy[8] == "branch_name_pattern"@);
        assert(needy[9] == "tag_name_pattern"@ && needy[10] == "workflows"@);
        assert(needy[11] == "code_scanning"@ && needy[12] == "code_quality"@);
        assert(needy[13] == "file_path_restriction"@ && needy[14] == "max_file_path_length"@);
        assert(needy[15] == "file_extension_restriction"@ && needy[16] == "max_file_size"@);
    }
}

/// An actor is accepted unless it lacks an ID that its type needs.
pub proof fn law_actors_are_accepted_by_id(
    name: Seq<char>,
    key: Seq<char>,
    index: int,
    actor: BypassActor,
)
    ensures
        match actor_rejection(name, key, index, actor) {
            Some(error) => lacks_id(actor) && error.problem is MissingActorId && error.message
                == "repository `"@ + name + "`: "@ + ("ruleset `"@ + key + ("` bypass actor #"@
                + decimal(index as nat) + " of type `"@ + actor.actor_type.api_text()
                + "` requires `actor_id`"@)),
            None => !lacks_id(actor),
        },
{
}

/// A topic is accepted exactly where it has from one to fifty characters of
/// ASCII letters, digits, `-`, `_` and `.`.
pub proof fn law_topics_are_accepted_by_characters(name: Seq<char>, topic: Seq<char>)
    ensures
        match topic_rejection(name, topic) {
            Some(error) => !is_topic(topic) && error.problem is InvalidTopic && error.message
                == "repository `"@ + name + "`: "@ + ("invalid topic `"@ + topic
                + "` (topics are 1-50 characters of [A-Za-z0-9._-])"@),
            None => is_topic(topic),
        },
{
    assert forall|i: int| 0 <= i < topic.len() implies topic_character(
        #[trigger] topic[i],
    ) == fits_a_topic(topic[i]) by {}
}

proof fn lemma_blank(text: Seq<char>)
    ensures
        blank(text) <==> !says_something(text),
{
}

/// A ruleset is accepted exactly where it has a name, its actors have the IDs
/// that they need, and its rules are accepted. A rejection says what is wrong.
pub proof fn law_rulesets_are_accepted(name: Seq<char>, key: Seq<char>, ruleset: RulesetConfig)
    ensures
        match ruleset_rejection(name, key, ruleset) {
            Some(error) => !is_fine_ruleset(key, ruleset) && (if !says_something(
                called(ruleset.name, key),
            ) {
                error.problem is EmptyRulesetName
            } else {
                error.problem is MissingActorId || error.problem is UnknownRuleType
                    || error.problem is MissingParameters
            }),
            None => is_fine_ruleset(key, ruleset),
        },
{
    lemma_blank(called(ruleset.name, key));
    if let Some(actors) = ruleset.bypass_actors {
        let outcomes = actors@.map(
            |index: int, actor: BypassActor| actor_rejection(name, key, index, actor),
        );
        lemma_none_rejected(outcomes);
        lemma_first_is_one(outcomes);
        assert forall|i: int| 0 <= i < actors@.len() implies (#[trigger] outcomes[i] is None
            <==> !lacks_id(actors@[i])) by {
            law_actors_are_accepted_by_id(name, key, i, actors@[i]);
        }
        assert(forall|i: int| 0 <= i < actors@.len() ==> lacks_id(#[trigger] actors@[i])
            == outcomes[i] is Some);
    }
    if let Some(rules) = ruleset.rules {
        let outcomes = rules@.map_values(|rule: Rule| rule_rejection(name, key, rule));
        lemma_none_rejected(outcomes);
        lemma_first_is_one(outcomes);
        assert forall|i: int| 0 <= i < rules@.len() implies (#[trigger] outcomes[i] is None
            <==> rule_types().contains(rules@[i].rule_type@) && !lacks_parameters(rules@[i])) by {
            law_rules_are_accepted_by_type(name, key, rules@[i]);
        }
        assert(forall|i: int| 0 <= i < rules@.len() ==> (rule_types().contains(
            (#[trigger] rules@[i]).rule_type@,
        ) && !lacks_parameters(rules@[i])) == outcomes[i] is None);
    }
}

/// The first rejection is that of one of the checks.
proof fn lemma_first_is_one(outcomes: Seq<Option<ConfigErrorView>>)
    ensures
        first_rejection(outcomes) is Some ==> exists|i: int|
            0 <= i < outcomes.len() && #[trigger] outcomes[i] == first_rejection(outcomes),
    decreases outcomes.len(),
{
    if outcomes.len() > 0 {
        let rest = outcomes.drop_first();
        lemma_first_is_one(rest);
        if outcomes[0] is None && first_rejection(rest) is Some {
            let i = choose|i: int|
                0 <= i < rest.len() && #[trigger] rest[i] == first_rejection(rest);
            assert(outcomes[i + 1] == first_rejection(outcomes));
        }
    }
}

/// A repository is accepted exactly where its configuration breaks no rule.
pub proof fn law_repositories_are_accepted(key: Seq<char>, repo: RepoConfig)
    ensures
        repo_rejection(key, repo) is None <==> is_fine_repo(key, repo),
{
    let name = called(repo.name, key);
    lemma_blank(name);
    if let Some(owner) = repo.owner {
        lemma_blank(owner@);
    }
    if let Some(topics) = repo.topics {
        let outcomes = texts(topics@).map_values(|topic: Seq<char>| topic_rejection(name, topic));
        lemma_none_rejected(outcomes);
        assert forall|i: int| 0 <= i < topics@.len() implies (#[trigger] outcomes[i] is None
            <==> is_topic(topics@[i]@)) by {
            assert(texts(topics@)[i] == topics@[i]@);
            law_topics_are_accepted_by_characters(name, topics@[i]@);
        }
        assert(forall|i: int| 0 <= i < topics@.len() ==> is_topic((#[trigger] topics@[i])@)
            == outcomes[i] is None);
    }
    if let Some(map) = repo.branch_protection {
        let outcomes = map@.map_values(
            |entry: (Seq<char>, BranchProtectionConfig)|
                branch_rejection(name, entry.0),
        );
        lemma_none_rejected(outcomes);
        assert forall|i: int| 0 <= i < map@.len() implies (#[trigger] outcomes[i] is None
            <==> says_something(map@[i].0)) by {
            lemma_blank(map@[i].0);
        }
        assert(forall|i: int| 0 <= i < map@.len() ==> says_something((#[trigger] map@[i]).0)
            == outcomes[i] is None);
    }
    if let Some(map) = repo.rulesets {
        let outcomes = map@.map_values(
            |entry: (Seq<char>, RulesetConfig)| ruleset_rejection(name, entry.0, entry.1),
        );
        lemma_none_rejected(outcomes);
        assert forall|i: int| 0 <= i < map@.len() implies (#[trigger] outcomes[i] is None
            <==> is_fine_ruleset(map@[i].0, map@[i].1)) by {
            law_rulesets_are_accepted(name, map@[i].0, map@[i].1);
        }
        assert(forall|i: int| 0 <= i < map@.len() ==> is_fine_ruleset(
            (#[trigger] map@[i]).0,
            map@[i].1,
        ) == outcomes[i] is None);
    }
}

/// What a rejection says of a repository is so, and it is the first thing that
/// is wrong: the name, the owner, the visibility, the topics, the pull request
/// settings, the branches, the Actions settings, the rulesets.
pub proof fn law_rejections_name_the_first_problem(key: Seq<char>, repo: RepoConfig)
    requires
        repo_rejection(key, repo) is Some,
    ensures
        ({
            let name = called(repo.name, key);
            let problem = repo_rejection(key, repo)->0.problem;
            let bad_owner = repo.owner is Some && !says_something(repo.owner->0@);
            let internal = repo.visibility is Some && repo.visibility->0 is Internal;
            let bad_topic = repo.topics is Some && exists|i: int|
                0 <= i < repo.topics->0@.len() && !is_topic((#[trigger] repo.topics->0@[i])@);
            let no_method = repo.pull is Some && merges(repo.pull->0, false) && squashes(
                repo.pull->0,
                false,
            ) && rebases_not(repo.pull->0);
            let bad_pull = repo.pull is Some && !is_fine_pull(repo.pull->0);
            let bad_branch = repo.branch_protection is Some && exists|i: int|
                0 <= i < repo.branch_protection->0@.len() && !says_something(
                    (#[trigger] repo.branch_protection->0@[i]).0,
                );
            if !says_something(name) {
                problem is EmptyName
            } else if name.contains('/') {
                problem is OwnerInName
            } else if bad_owner {
                problem is EmptyOwner
            } else if internal {
                problem is InternalVisibility
            } else if bad_topic {
                problem is InvalidTopic
            } else if no_method {
                problem is NoMergeMethod
            } else if bad_pull {
                problem is AutoMergeWithoutMethod
            } else if bad_branch {
                problem is EmptyBranchName
            } else if lacks_allow_list(repo.actions) {
                problem is MissingAllowList
            } else {
                problem is EmptyRulesetName || problem is MissingActorId || problem
                    is UnknownRuleType || problem is MissingParameters
            }
        }),
{
    let name = called(repo.name, key);
    lemma_blank(name);
    if let Some(owner) = repo.owner {
        lemma_blank(owner@);
    }
    if let Some(topics) = repo.topics {
        let outcomes = texts(topics@).map_values(|topic: Seq<char>| topic_rejection(name, topic));
        lemma_none_rejected(outcomes);
        lemma_first_is_one(outcomes);
        assert forall|i: int| 0 <= i < topics@.len() implies (#[trigger] outcomes[i] is None
            <==> is_topic(topics@[i]@)) by {
            assert(texts(topics@)[i] == topics@[i]@);
            law_topics_are_accepted_by_characters(name, topics@[i]@);
        }
        assert(forall|i: int| 0 <= i < topics@.len() ==> is_topic((#[trigger] topics@[i])@)
            == outcomes[i] is None);
    }
    if let Some(map) = repo.branch_protection {
        let outcomes = map@.map_values(
            |entry: (Seq<char>, BranchProtectionConfig)|
                branch_rejection(name, entry.0),
        );
        lemma_none_rejected(outcomes);
        lemma_first_is_one(outcomes);
        assert forall|i: int| 0 <= i < map@.len() implies (#[trigger] outcomes[i] is None
            <==> says_something(map@[i].0)) by {
            lemma_blank(map@[i].0);
        }
        assert(forall|i: int| 0 <= i < map@.len() ==> says_something((#[trigger] map@[i]).0)
            == outcomes[i] is None);
    }
    if let Some(map) = repo.rulesets {
        let outcomes = map@.map_values(
            |entry: (Seq<char>, RulesetConfig)| ruleset_rejection(name, entry.0, entry.1),
        );
        lemma_first_is_one(outcomes);
        assert forall|i: int| 0 <= i < map@.len() && (#[trigger] outcomes[i])
            is Some implies outcomes[i]->0.problem is EmptyRulesetName
            || outcomes[i]->0.problem is MissingActorId || outcomes[i]->0.problem
            is UnknownRuleType || outcomes[i]->0.problem is MissingParameters by {
            law_rulesets_are_accepted(name, map@[i].0, map@[i].1);
        }
    }
}

/// A configuration without repositories is rejected as such, and any other for
/// the first of its repositories that is.
pub proof fn law_configurations_are_rejected_for_the_first(config: Config)
    requires
        config_rejection(config) is Some,
    ensures
        ({
            let entries = config.repos@;
            let error = config_rejection(config)->0;
            if entries.len() == 0 {
                error.problem is NoRepositories && error.message
                    == "configuration declares no repositories"@
            } else {
                exists|i: int|
                    0 <= i < entries.len() && repo_rejection(
                        (#[trigger] entries[i]).0,
                        entries[i].1,
                    ) == Some(error) && forall|j: int|
                        0 <= j < i ==> is_fine_repo((#[trigger] entries[j]).0, entries[j].1)
            }
        }),
{
    let entries = config.repos@;
    if entries.len() > 0 {
        let outcomes = entries.map_values(
            |entry: (Seq<char>, RepoConfig)| repo_rejection(entry.0, entry.1),
        );
        let i = lemma_first_place(outcomes);
        assert(repo_rejection(entries[i].0, entries[i].1) == outcomes[i]);
        assert forall|j: int| 0 <= j < i implies is_fine_repo(
            (#[trigger] entries[j]).0,
            entries[j].1,
        ) by {
            assert(outcomes[j] is None);
            law_repositories_are_accepted(entries[j].0, entries[j].1);
        }
    }
}

/// The place of the first rejection.
proof fn lemma_first_place(outcomes: Seq<Option<ConfigErrorView>>) -> (place: int)
    requires
        first_rejection(outcomes) is Some,
    ensures
        0 <= place < outcomes.len(),
        outcomes[place] == first_rejection(outcomes),
        forall|j: int| 0 <= j < place ==> #[trigger] outcomes[j] is None,
    decreases outcomes.len(),
{
    if outcomes[0] is Some {
        0
    } else {
        let rest = outcomes.drop_first();
        let place = lemma_first_place(rest);
        assert forall|j: int| 0 <= j < place + 1 implies #[trigger] outcomes[j] is None by {
            if j > 0 {
                assert(rest[j - 1] == outcomes[j]);
            }
        }
        place + 1
    }
}

/// What is wrong with a repository is said in words that name it.
pub proof fn law_rejections_explain_themselves(key: Seq<char>, repo: RepoConfig)
    requires
        repo_rejection(key, repo) is Some,
    ensures
        ({
            let about = "repository `"@ + called(repo.name, key) + "`: "@;
            let error = repo_rejection(key, repo)->0;
            match error.problem {
                Problem::EmptyName => error.message == "repository name cannot be empty"@,
                Problem::OwnerInName => error.message == about
                    + "use the short name, not `owner/name`"@,
                Problem::EmptyOwner => error.message == about + "`owner` cannot be empty"@,
                Problem::InternalVisibility => error.message == about
                    + "`internal` visibility is only available to enterprise organizations, not personal accounts"@,
                Problem::NoMergeMethod => error.message == about
                    + "at least one of `pull.merge.enable`, `pull.squash.enable`, or `pull.rebase.enable` must be true"@,
                Problem::AutoMergeWithoutMethod => error.message == about
                    + "`pull.auto_merge = true` requires `pull.merge.enable` or `pull.squash.enable` to be true"@,
                Problem::EmptyBranchName => error.message == about
                    + "branch names cannot be empty"@,
                Problem::MissingAllowList => error.message == about
                    + "`actions.policy = \"selected\"` also requires `actions.selected`"@,
                Problem::EmptyRulesetName => error.message == about
                    + "ruleset names cannot be empty"@,
                Problem::NoRepositories => false,
                _ => true,
            }
        }),
{
    let name = called(repo.name, key);
    if let Some(topics) = repo.topics {
        let outcomes = texts(topics@).map_values(|topic: Seq<char>| topic_rejection(name, topic));
        lemma_first_is_one(outcomes);
    }
    if let Some(map) = repo.branch_protection {
        let outcomes = map@.map_values(
            |entry: (Seq<char>, BranchProtectionConfig)| branch_rejection(name, entry.0),
        );
        lemma_first_is_one(outcomes);
    }
    if let Some(map) = repo.rulesets {
        let outcomes = map@.map_values(
            |entry: (Seq<char>, RulesetConfig)| ruleset_rejection(name, entry.0, entry.1),
        );
        lemma_first_is_one(outcomes);
        assert forall|i: int| 0 <= i < map@.len() && (#[trigger] outcomes[i])
            is Some implies match outcomes[i]->0.problem {
            Problem::EmptyRulesetName => outcomes[i]->0.message == "repository `"@ + name + "`: "@
                + "ruleset names cannot be empty"@,
            Problem::MissingActorId => true,
            Problem::UnknownRuleType => true,
            Problem::MissingParameters => true,
            _ => false,
        } by {
            law_rulesets_are_accepted(name, map@[i].0, map@[i].1);
        }
    }
}

} // verus!
