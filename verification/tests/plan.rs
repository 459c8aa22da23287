//! Planning: declared configuration against live state.

use nixit::actions::plan_actions;
use nixit::config::{
    ActionsConfig, AllowedActions, Enforcement, FeaturesConfig, MergeCommitMessage,
    MergeCommitTitle, MergeConfig, PullRequestConfig, RefNameCondition, RepoConfig, Rule,
    RulesetConditions, RulesetConfig, RulesetTarget, SelectedActionsConfig, SquashCommitTitle,
    SquashConfig, Toggle, Visibility,
};
use nixit::github::{ActionsPermissions, Repo, Ruleset, SelectedActions, WorkflowPermissions};
use nixit::json::Json;
use nixit::keymap::KeyMap;
use nixit::plan::{build_create_spec, repo_name, topics_change};
use nixit::rulesets::plan_ruleset;
use nixit::settings::settings_patch;

fn toggle(enable: bool) -> Option<Toggle> {
    Some(Toggle { enable: Some(enable) })
}

fn merge(enable: bool) -> Option<MergeConfig> {
    Some(MergeConfig { enable: Some(enable), ..Default::default() })
}

fn json(text: &str) -> Json {
    Json::parse(text).expect("a JSON text")
}

/// The field of a patch in JSON notation.
fn field(patch: &KeyMap<Json>, key: &str) -> Option<String> {
    patch.get(key).map(|value| value.to_text())
}

/// The field of an object in JSON notation.
fn member(value: &Json, key: &str) -> Option<String> {
    value.get(key).map(|member| member.to_text())
}

#[test]
fn repository_name_defaults_to_the_key_and_can_be_overridden() {
    assert_eq!(repo_name("label", &RepoConfig::default()), "label");
    let cfg = RepoConfig { name: Some("actual".into()), ..Default::default() };
    assert_eq!(repo_name("label", &cfg), "actual");
}

#[test]
fn settings_emit_only_declared_changes() {
    let cfg = RepoConfig {
        features: Some(FeaturesConfig { wiki: toggle(false), ..Default::default() }),
        pull: Some(PullRequestConfig { merge: merge(false), ..Default::default() }),
        ..Default::default()
    };
    let (patch, changes) = settings_patch(&cfg, &Repo::default());
    assert_eq!(patch.len(), 2);
    assert_eq!(field(&patch, "has_wiki").as_deref(), Some("false"));
    assert_eq!(field(&patch, "allow_merge_commit").as_deref(), Some("false"));
    assert_eq!(changes.len(), 2);
}

#[test]
fn settings_skip_values_that_already_match_defaults() {
    let cfg = RepoConfig {
        features: Some(FeaturesConfig {
            wiki: toggle(true),
            issues: toggle(true),
            ..Default::default()
        }),
        ..Default::default()
    };
    let (patch, changes) = settings_patch(&cfg, &Repo::default());
    assert!(patch.is_empty(), "unexpected patch: {patch:?}");
    assert!(changes.is_empty());
}

#[test]
fn settings_map_visibility_to_private_flag() {
    let cfg = RepoConfig { visibility: Some(Visibility::Private), ..Default::default() };
    let (patch, changes) = settings_patch(&cfg, &Repo::default());
    assert_eq!(field(&patch, "private").as_deref(), Some("true"));
    assert_eq!(changes[0].field, "visibility");
}

#[test]
fn merge_and_squash_commit_text_is_reconciled() {
    let cfg = RepoConfig {
        pull: Some(PullRequestConfig {
            merge: Some(MergeConfig {
                commit_title: Some(MergeCommitTitle::PrTitle),
                commit_message: Some(MergeCommitMessage::Blank),
                ..Default::default()
            }),
            squash: Some(SquashConfig {
                commit_title: Some(SquashCommitTitle::CommitOrPrTitle),
                ..Default::default()
            }),
            ..Default::default()
        }),
        ..Default::default()
    };
    let (patch, changes) = settings_patch(&cfg, &Repo::default());
    assert_eq!(field(&patch, "merge_commit_title").as_deref(), Some("\"PR_TITLE\""));
    assert_eq!(field(&patch, "merge_commit_message").as_deref(), Some("\"BLANK\""));
    assert_eq!(
        field(&patch, "squash_merge_commit_title").as_deref(),
        Some("\"COMMIT_OR_PR_TITLE\"")
    );
    assert_eq!(changes.len(), 3);
}

#[test]
fn declared_message_carries_the_current_title() {
    let cfg = RepoConfig {
        pull: Some(PullRequestConfig {
            merge: Some(MergeConfig {
                commit_message: Some(MergeCommitMessage::Blank),
                ..Default::default()
            }),
            ..Default::default()
        }),
        ..Default::default()
    };
    let repo = Repo {
        merge_commit_title: Some("PR_TITLE".into()),
        merge_commit_message: Some("PR_BODY".into()),
        ..Default::default()
    };
    let (patch, changes) = settings_patch(&cfg, &repo);
    assert_eq!(field(&patch, "merge_commit_message").as_deref(), Some("\"BLANK\""));
    assert_eq!(field(&patch, "merge_commit_title").as_deref(), Some("\"PR_TITLE\""));
    assert_eq!(changes.len(), 1, "only the message is a user-visible change");
}

#[test]
fn commit_text_matching_github_is_left_alone() {
    let cfg = RepoConfig {
        pull: Some(PullRequestConfig {
            merge: Some(MergeConfig {
                commit_title: Some(MergeCommitTitle::MergeMessage),
                ..Default::default()
            }),
            ..Default::default()
        }),
        ..Default::default()
    };
    let repo =
        Repo { merge_commit_title: Some("MERGE_MESSAGE".into()), ..Default::default() };
    let (patch, changes) = settings_patch(&cfg, &repo);
    assert!(patch.is_empty(), "unexpected patch: {patch:?}");
    assert!(changes.is_empty());
}

#[test]
fn repository_flags_are_reconciled() {
    let cfg = RepoConfig {
        allow_forking: Some(false),
        pull: Some(PullRequestConfig {
            web_commit_signoff_required: Some(true),
            ..Default::default()
        }),
        ..Default::default()
    };
    let (patch, changes) = settings_patch(&cfg, &Repo::default());
    assert_eq!(field(&patch, "allow_forking").as_deref(), Some("false"));
    assert_eq!(field(&patch, "web_commit_signoff_required").as_deref(), Some("true"));
    assert_eq!(changes.len(), 2);
}

#[test]
fn topics_are_order_insensitive() {
    let cfg = RepoConfig { topics: Some(vec!["b".into(), "a".into()]), ..Default::default() };
    let current = vec!["a".to_string(), "b".to_string()];
    assert!(topics_change(&cfg, &current).is_none());
}

#[test]
fn topics_report_additions() {
    let cfg = RepoConfig { topics: Some(vec!["a".into(), "b".into()]), ..Default::default() };
    let change = topics_change(&cfg, &vec!["a".to_string()]).unwrap();
    assert_eq!(change.from.as_deref(), Some("a"));
    assert_eq!(change.to, "a, b");
}

#[test]
fn actions_selected_policy_produces_permissions_and_allowlist() {
    let cfg = ActionsConfig {
        policy: Some(AllowedActions::Selected),
        selected: Some(SelectedActionsConfig {
            patterns: Some(vec!["actions/*".into()]),
            ..Default::default()
        }),
        ..Default::default()
    };
    let plan = plan_actions(
        &cfg,
        ActionsPermissions::default(),
        WorkflowPermissions::default(),
        SelectedActions::default(),
    )
    .expect("expected an actions plan");
    assert!(plan.permissions.is_some());
    assert!(plan.selected.is_some());
}

#[test]
fn create_spec_is_minimal_and_empty() {
    let spec = build_create_spec("new", &RepoConfig::default());
    assert_eq!(spec.name, "new");
    assert!(!spec.private);
    assert_eq!(spec.description, None);
}

#[test]
fn create_spec_honours_metadata() {
    let cfg = RepoConfig {
        description: Some("desc".into()),
        visibility: Some(Visibility::Private),
        ..Default::default()
    };
    let spec = build_create_spec("new", &cfg);
    assert_eq!(spec.description.as_deref(), Some("desc"));
    assert!(spec.private);
}

fn rule(rule_type: &str) -> Rule {
    Rule { rule_type: rule_type.to_string(), parameters: None }
}

#[test]
fn ruleset_is_created_when_absent() {
    let cfg = RulesetConfig {
        rules: Some(vec![rule("creation"), rule("deletion")]),
        ..Default::default()
    };
    let plan = plan_ruleset("main", "main", &cfg, None).expect("a new ruleset is planned");
    assert_eq!(plan.id, None);
    assert_eq!(plan.changes.len(), 1);
    assert_eq!(plan.changes[0].field, "create");
    assert_eq!(member(&plan.body, "target").as_deref(), Some("\"branch\""));
    assert_eq!(member(&plan.body, "enforcement").as_deref(), Some("\"active\""));
    assert_eq!(plan.body.get("rules").unwrap().as_array().unwrap().len(), 2);
}

#[test]
fn ruleset_with_no_differences_is_skipped() {
    let cfg = RulesetConfig {
        target: Some(RulesetTarget::Branch),
        enforcement: Some(Enforcement::Active),
        conditions: Some(RulesetConditions {
            ref_name: Some(RefNameCondition {
                included: Some(vec!["refs/heads/main".into()]),
                excluded: None,
            }),
        }),
        rules: Some(vec![rule("deletion")]),
        ..Default::default()
    };
    let current = Ruleset {
        id: 7,
        name: "main".into(),
        target: Some("branch".into()),
        enforcement: "active".into(),
        bypass_actors: None,
        conditions: Some(json(
            r#"{ "ref_name": { "include": ["refs/heads/main"], "exclude": [] } }"#,
        )),
        rules: Some(vec![json(r#"{ "type": "deletion" }"#)]),
    };
    assert!(plan_ruleset("main", "main", &cfg, Some(&current)).is_none());
}

#[test]
fn ruleset_ignores_extra_live_parameters() {
    let mut parameters = KeyMap::new();
    parameters.insert("operator".to_string(), json(r#""starts_with""#));
    parameters.insert("pattern".to_string(), json(r#""feat""#));
    let cfg = RulesetConfig {
        rules: Some(vec![Rule {
            rule_type: "commit_message_pattern".into(),
            parameters: Some(parameters),
        }]),
        ..Default::default()
    };
    let current = Ruleset {
        id: 1,
        name: "main".into(),
        target: Some("branch".into()),
        enforcement: "active".into(),
        bypass_actors: None,
        conditions: None,
        rules: Some(vec![json(
            r#"{
                "type": "commit_message_pattern",
                "parameters": {
                    "name": "Conventional commits",
                    "operator": "starts_with",
                    "pattern": "feat"
                }
            }"#,
        )]),
    };
    assert!(plan_ruleset("main", "main", &cfg, Some(&current)).is_none());
}

#[test]
fn ruleset_update_replaces_rules_but_keeps_undeclared_fields() {
    let cfg = RulesetConfig {
        enforcement: Some(Enforcement::Disabled),
        rules: Some(vec![rule("creation")]),
        ..Default::default()
    };
    let current = Ruleset {
        id: 9,
        name: "main".into(),
        target: Some("tag".into()),
        enforcement: "active".into(),
        bypass_actors: Some(vec![json(
            r#"{ "actor_type": "OrganizationAdmin", "bypass_mode": "always" }"#,
        )]),
        conditions: Some(json(
            r#"{ "ref_name": { "include": ["refs/tags/*"], "exclude": [] } }"#,
        )),
        rules: Some(vec![json(r#"{ "type": "deletion" }"#)]),
    };
    let plan = plan_ruleset("main", "main", &cfg, Some(&current)).expect("expected update");
    assert_eq!(plan.id, Some(9));
    assert_eq!(member(&plan.body, "target").as_deref(), Some("\"tag\""));
    assert_eq!(member(&plan.body, "enforcement").as_deref(), Some("\"disabled\""));
    assert_eq!(member(&plan.body, "rules").as_deref(), Some(r#"[{"type":"creation"}]"#));
    assert_eq!(
        member(&plan.body, "bypass_actors").as_deref(),
        Some(r#"[{"actor_type":"OrganizationAdmin","bypass_mode":"always"}]"#)
    );
    assert!(matches!(plan.body.get("conditions"), Some(Json::Object(_))));
}

#[test]
fn ruleset_conditions_merge_declared_side_only() {
    let cfg = RulesetConfig {
        conditions: Some(RulesetConditions {
            ref_name: Some(RefNameCondition {
                included: Some(vec!["refs/heads/release/*".into()]),
                excluded: None,
            }),
        }),
        ..Default::default()
    };
    let current = Ruleset {
        id: 1,
        name: "main".into(),
        target: Some("branch".into()),
        enforcement: "active".into(),
        bypass_actors: None,
        conditions: Some(json(
            r#"{ "ref_name": { "include": ["refs/heads/main"], "exclude": ["refs/heads/dev"] } }"#,
        )),
        rules: None,
    };
    let plan = plan_ruleset("main", "main", &cfg, Some(&current)).expect("expected update");
    assert_eq!(
        member(&plan.body, "conditions"),
        Some(
            json(
                r#"{
                    "ref_name": {
                        "include": ["refs/heads/release/*"],
                        "exclude": ["refs/heads/dev"]
                    }
                }"#
            )
            .to_text()
        )
    );
}

#[test]
fn ruleset_create_defaults_missing_ref_name_side_to_empty_list() {
    // Declaring only `include` must still send an `exclude` key.
    let include_only = RulesetConfig {
        conditions: Some(RulesetConditions {
            ref_name: Some(RefNameCondition {
                included: Some(vec!["~DEFAULT_BRANCH".into()]),
                excluded: None,
            }),
        }),
        rules: Some(vec![rule("deletion")]),
        ..Default::default()
    };
    let plan =
        plan_ruleset("main", "main", &include_only, None).expect("a new ruleset is planned");
    assert_eq!(
        member(&plan.body, "conditions"),
        Some(json(r#"{ "ref_name": { "include": ["~DEFAULT_BRANCH"], "exclude": [] } }"#).to_text())
    );

    // ... and declaring only `exclude` must still send `include`.
    let exclude_only = RulesetConfig {
        conditions: Some(RulesetConditions {
            ref_name: Some(RefNameCondition {
                included: None,
                excluded: Some(vec!["refs/heads/dev".into()]),
            }),
        }),
        rules: Some(vec![rule("deletion")]),
        ..Default::default()
    };
    let plan =
        plan_ruleset("main", "main", &exclude_only, None).expect("a new ruleset is planned");
    assert_eq!(
        member(&plan.body, "conditions"),
        Some(json(r#"{ "ref_name": { "include": [], "exclude": ["refs/heads/dev"] } }"#).to_text())
    );
}

#[test]
fn ruleset_create_without_ref_name_omits_conditions() {
    let cfg = RulesetConfig { rules: Some(vec![rule("deletion")]), ..Default::default() };
    let plan = plan_ruleset("main", "main", &cfg, None).expect("a new ruleset is planned");
    assert!(plan.body.get("conditions").is_none());
}

#[test]
fn ruleset_arrays_compare_order_insensitively() {
    let cfg = RulesetConfig {
        rules: Some(vec![rule("deletion"), rule("creation")]),
        ..Default::default()
    };
    let current = Ruleset {
        id: 1,
        name: "main".into(),
        target: Some("branch".into()),
        enforcement: "active".into(),
        bypass_actors: None,
        conditions: None,
        rules: Some(vec![json(r#"{ "type": "creation" }"#), json(r#"{ "type": "deletion" }"#)]),
    };
    assert!(plan_ruleset("main", "main", &cfg, Some(&current)).is_none());
}
