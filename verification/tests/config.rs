//! Checking a configuration.

use nixit::config::{
    ActionsConfig, AllowedActions, BranchProtectionConfig, BypassActor, BypassActorType, Config,
    MergeConfig, PullRequestConfig, RepoConfig, Rule, RulesetConfig, SelectedActionsConfig,
    SquashConfig, Toggle, Visibility,
};
use nixit::flake::{evaluation_failure, is_local, split_flake_ref};
use nixit::json::Json;
use nixit::keymap::KeyMap;
use nixit::validate::{
    is_rule_type, merge_methods, rule_requires_parameters, validate_repo, ConfigError, Problem,
};

fn config(key: &str, repo: RepoConfig) -> Config {
    let mut repos = KeyMap::new();
    repos.insert(key.to_string(), repo);
    Config { repos }
}

fn rejected(key: &str, repo: RepoConfig) -> ConfigError {
    config(key, repo).validate().unwrap_err()
}

fn with_ruleset(ruleset: RulesetConfig) -> RepoConfig {
    let mut rulesets = KeyMap::new();
    rulesets.insert("main".to_string(), ruleset);
    RepoConfig { rulesets: Some(rulesets), ..Default::default() }
}

fn with_rule(rule_type: &str, parameters: Option<KeyMap<Json>>) -> RepoConfig {
    with_ruleset(RulesetConfig {
        rules: Some(vec![Rule { rule_type: rule_type.to_string(), parameters }]),
        ..Default::default()
    })
}

#[test]
fn rejects_internal_visibility_for_personal_repos() {
    let error = rejected(
        "x",
        RepoConfig { visibility: Some(Visibility::Internal), ..Default::default() },
    );
    assert!(error.message.contains("internal"), "{}", error.message);
    assert_eq!(error.problem, Problem::InternalVisibility);
}

#[test]
fn rejects_selected_policy_without_allowlist() {
    let error = rejected(
        "x",
        RepoConfig {
            actions: Some(ActionsConfig {
                policy: Some(AllowedActions::Selected),
                ..Default::default()
            }),
            ..Default::default()
        },
    );
    assert!(error.message.contains("actions.selected"), "{}", error.message);
    assert_eq!(error.problem, Problem::MissingAllowList);
    assert_eq!(
        error.message,
        "repository `x`: `actions.policy = \"selected\"` also requires `actions.selected`"
    );
}

fn off() -> PullRequestConfig {
    PullRequestConfig {
        merge: Some(MergeConfig { enable: Some(false), ..Default::default() }),
        squash: Some(SquashConfig { enable: Some(false), ..Default::default() }),
        ..Default::default()
    }
}

#[test]
fn rejects_disabling_every_merge_method() {
    let pull = PullRequestConfig { rebase: Some(Toggle { enable: Some(false) }), ..off() };
    let error = rejected("x", RepoConfig { pull: Some(pull), ..Default::default() });
    assert!(error.message.contains("at least one"), "{}", error.message);
    assert_eq!(error.problem, Problem::NoMergeMethod);
}

#[test]
fn rejects_auto_merge_without_a_merge_method() {
    let pull = PullRequestConfig { auto_merge: Some(true), ..off() };
    let error = rejected("x", RepoConfig { pull: Some(pull), ..Default::default() });
    assert!(error.message.contains("pull.auto_merge"), "{}", error.message);
    assert_eq!(error.problem, Problem::AutoMergeWithoutMethod);
}

#[test]
fn rejects_invalid_topics() {
    let error = rejected(
        "x",
        RepoConfig { topics: Some(vec!["has space".into()]), ..Default::default() },
    );
    assert!(error.message.contains("invalid topic"), "{}", error.message);
    assert_eq!(error.problem, Problem::InvalidTopic);
    assert_eq!(
        error.message,
        "repository `x`: invalid topic `has space` (topics are 1-50 characters of [A-Za-z0-9._-])"
    );
}

#[test]
fn rejects_unknown_ruleset_rule_types() {
    let error = rejected("x", with_rule("mystery", None));
    assert!(error.message.contains("unknown rule type"), "{}", error.message);
    assert_eq!(error.problem, Problem::UnknownRuleType);
    assert_eq!(
        error.message,
        "repository `x`: ruleset `main` has unknown rule type `mystery`"
    );
}

#[test]
fn rejects_bypass_actors_without_an_id() {
    for actor_type in [
        BypassActorType::Integration,
        BypassActorType::RepositoryRole,
        BypassActorType::Team,
        BypassActorType::User,
    ] {
        let error = rejected(
            "x",
            with_ruleset(RulesetConfig {
                bypass_actors: Some(vec![BypassActor {
                    actor_id: None,
                    actor_type,
                    bypass_mode: None,
                }]),
                ..Default::default()
            }),
        );
        assert!(error.message.contains("requires `actor_id`"), "{}", error.message);
        assert_eq!(error.problem, Problem::MissingActorId);
    }
}

#[test]
fn rejects_rules_missing_parameters() {
    let error = rejected("x", with_rule("pull_request", None));
    assert!(error.message.contains("requires `parameters`"), "{}", error.message);
    assert_eq!(error.problem, Problem::MissingParameters);
}

#[test]
fn rejects_owner_slash_names() {
    let error = rejected("me/repo", RepoConfig::default());
    assert!(error.message.contains("short name"), "{}", error.message);
    assert_eq!(error.problem, Problem::OwnerInName);
}

#[test]
fn rejects_a_configuration_without_repositories() {
    let error = Config { repos: KeyMap::new() }.validate().unwrap_err();
    assert_eq!(error.problem, Problem::NoRepositories);
    assert_eq!(error.message, "configuration declares no repositories");
}

#[test]
fn rejects_empty_names_and_owners() {
    let error = rejected(" \t\u{2003}", RepoConfig::default());
    assert_eq!(error.problem, Problem::EmptyName);
    assert_eq!(error.message, "repository name cannot be empty");

    let error = rejected("x", RepoConfig { owner: Some(" ".into()), ..Default::default() });
    assert_eq!(error.problem, Problem::EmptyOwner);
    assert_eq!(error.message, "repository `x`: `owner` cannot be empty");

    let mut branches = KeyMap::new();
    branches.insert("".to_string(), BranchProtectionConfig::default());
    let error = rejected(
        "x",
        RepoConfig { branch_protection: Some(branches), ..Default::default() },
    );
    assert_eq!(error.problem, Problem::EmptyBranchName);
    assert_eq!(error.message, "repository `x`: branch names cannot be empty");

    let error = rejected(
        "x",
        with_ruleset(RulesetConfig { name: Some("".into()), ..Default::default() }),
    );
    assert_eq!(error.problem, Problem::EmptyRulesetName);
    assert_eq!(error.message, "repository `x`: ruleset names cannot be empty");
}

#[test]
fn the_declared_name_is_the_one_that_is_checked() {
    let repo = RepoConfig { name: Some("repo".into()), ..Default::default() };
    assert!(validate_repo("me/repo", &repo).is_ok());
    let repo = RepoConfig { name: Some("me/repo".into()), ..Default::default() };
    assert_eq!(validate_repo("repo", &repo).unwrap_err().problem, Problem::OwnerInName);
}

#[test]
fn topics_hold_one_to_fifty_characters() {
    let topics = |topic: String| RepoConfig { topics: Some(vec![topic]), ..Default::default() };
    assert!(validate_repo("x", &topics("a".repeat(50))).is_ok());
    assert!(validate_repo("x", &topics("A1._-".into())).is_ok());
    assert!(validate_repo("x", &topics("a".repeat(51))).is_err());
    assert!(validate_repo("x", &topics(String::new())).is_err());
    assert!(validate_repo("x", &topics("\u{e9}".into())).is_err());
}

#[test]
fn auto_merge_needs_merge_or_squash() {
    let squash = PullRequestConfig {
        squash: Some(SquashConfig { enable: Some(true), ..Default::default() }),
        auto_merge: Some(true),
        ..Default::default()
    };
    assert!(
        validate_repo("x", &RepoConfig { pull: Some(squash), ..Default::default() }).is_ok()
    );
    let rebase = PullRequestConfig {
        rebase: Some(Toggle { enable: Some(true) }),
        auto_merge: Some(true),
        ..Default::default()
    };
    assert_eq!(
        validate_repo("x", &RepoConfig { pull: Some(rebase), ..Default::default() })
            .unwrap_err()
            .problem,
        Problem::AutoMergeWithoutMethod
    );
}

#[test]
fn undeclared_merge_methods_are_accepted() {
    assert!(validate_repo("x", &RepoConfig { pull: Some(off()), ..Default::default() }).is_ok());
    assert_eq!(merge_methods(&off()), [Some(false), Some(false), None]);
}

#[test]
fn an_allow_list_goes_with_the_selected_policy() {
    let repo = RepoConfig {
        actions: Some(ActionsConfig {
            policy: Some(AllowedActions::Selected),
            selected: Some(SelectedActionsConfig::default()),
            ..Default::default()
        }),
        ..Default::default()
    };
    assert!(validate_repo("x", &repo).is_ok());
}

#[test]
fn actors_are_counted_from_zero() {
    let actor = |actor_type, actor_id| BypassActor { actor_id, actor_type, bypass_mode: None };
    let error = rejected(
        "x",
        with_ruleset(RulesetConfig {
            bypass_actors: Some(vec![
                actor(BypassActorType::DeployKey, None),
                actor(BypassActorType::Team, Some(7)),
                actor(BypassActorType::User, None),
            ]),
            ..Default::default()
        }),
    );
    assert_eq!(
        error.message,
        "repository `x`: ruleset `main` bypass actor #2 of type `User` requires `actor_id`"
    );
}

#[test]
fn empty_parameters_do_not_count() {
    assert_eq!(
        rejected("x", with_rule("update", Some(KeyMap::new()))).message,
        "repository `x`: ruleset `main` rule `update` requires `parameters`"
    );
    let mut parameters = KeyMap::new();
    parameters.insert("update_allows_fetch_and_merge".to_string(), Json::Bool(true));
    assert!(validate_repo("x", &with_rule("update", Some(parameters))).is_ok());
}

#[test]
fn rule_types_are_known() {
    assert!(is_rule_type("copilot_code_review"));
    assert!(!rule_requires_parameters("copilot_code_review"));
    assert!(is_rule_type("max_file_size"));
    assert!(rule_requires_parameters("max_file_size"));
    assert!(!is_rule_type("deletions"));
    assert!(!rule_requires_parameters("deletion"));
}

#[test]
fn the_first_broken_rule_is_reported() {
    let mut repos = KeyMap::new();
    repos.insert("b".to_string(), RepoConfig { owner: Some("".into()), ..Default::default() });
    repos.insert(
        "a".to_string(),
        RepoConfig {
            topics: Some(vec!["fine".into(), "not fine".into(), "".into()]),
            visibility: Some(Visibility::Public),
            ..Default::default()
        },
    );
    let error = Config { repos }.validate().unwrap_err();
    assert_eq!(
        error.message,
        "repository `a`: invalid topic `not fine` (topics are 1-50 characters of [A-Za-z0-9._-])"
    );
}

#[test]
fn splits_remote_and_local_flake_refs() {
    let (flake, repo) = split_flake_ref("github:me/repos#myrepo");
    assert_eq!(flake, "github:me/repos");
    assert_eq!(repo, "myrepo");

    let (flake, repo) = split_flake_ref("github:me/repos");
    assert_eq!(flake, "github:me/repos");
    assert_eq!(repo, "");

    // A local path is made absolute before it is evaluated.
    let (flake, repo) = split_flake_ref(".#myrepo");
    assert!(is_local(&flake), "expected a local path, got {flake}");
    assert_eq!(repo, "myrepo");
}

#[test]
fn an_empty_flake_is_the_current_directory() {
    assert_eq!(split_flake_ref("#a#b"), (".".to_string(), "a#b".to_string()));
    assert_eq!(split_flake_ref(""), (".".to_string(), String::new()));
    assert!(is_local("/srv/repos"));
    assert!(!is_local("github:me/repos"));
    assert!(!is_local(""));
}

#[test]
fn evaluation_failures_are_trimmed() {
    assert_eq!(
        evaluation_failure(".#x", "\n  error: no such attribute\n"),
        "evaluating flake `.#x` failed:\nerror: no such attribute"
    );
}

#[test]
fn a_configuration_is_as_good_as_its_repositories() {
    let good = RepoConfig { owner: Some("me".into()), ..Default::default() };
    let bad = RepoConfig { owner: Some("".into()), ..Default::default() };
    let mut repos = KeyMap::new();
    repos.insert("a".to_string(), good.clone());
    repos.insert("b".to_string(), good);
    let mut config = Config { repos };
    assert!(config.validate().is_ok());
    config.repos.insert("b".to_string(), bad);
    assert_eq!(config.validate().unwrap_err().problem, Problem::EmptyOwner);
}
