//! Reading the live state, planning a whole repository, and planning again.

use nixit::actions::{allowed_actions_str, plan_actions, workflow_permission_str};
use nixit::apply::operations;
use nixit::branches::plan_branch;
use nixit::config::{
    ActionsConfig, AllowedActions, BranchProtectionConfig, BypassActor, BypassActorType,
    BypassMode, Config, Enforcement, FeaturesConfig, MergeCommitMessage, MergeCommitTitle,
    MergeConfig, PullRequestConfig, RefNameCondition, RepoConfig, RequiredPullRequestReviews,
    RequiredStatusChecks, Rule, RulesetConditions, RulesetConfig, RulesetTarget,
    SelectedActionsConfig, SquashCommitMessage, SquashCommitTitle, SquashConfig, Toggle,
    Visibility, WorkflowPermission,
};
use nixit::github::{
    ActionsPermissions, BranchProtection, LiveProtection, PullRequestReviews, PushRestrictions,
    Repo, Ruleset, RulesetSummary, SelectedActions, StatusChecks, WorkflowPermissions,
};
use nixit::json::Json;
use nixit::keymap::KeyMap;
use nixit::plan::{build_plan, needs_login, plan_repo, resolve_owner, topics_change, Change};
use nixit::reading::{find_ruleset, Answer, Observed, Read};
use nixit::rulesets::{
    build_ruleset_body, bypass_actor_value, merge_conditions, plan_ruleset, rule_value,
    ruleset_current, ruleset_desired,
};
use nixit::requests::HttpApi;
use nixit::settings::{settings_patch, visibility_str};

fn json(text: &str) -> Json {
    Json::parse(text).expect("a JSON text")
}

fn shown(changes: &[Change]) -> Vec<String> {
    changes
        .iter()
        .map(|change| {
            format!(
                "{}/{}: {} -> {}",
                change.scope,
                change.field,
                change.from.as_deref().unwrap_or("(none)"),
                change.to
            )
        })
        .collect()
}

fn map<V>(key: &str, value: V) -> KeyMap<V> {
    let mut map = KeyMap::new();
    map.insert(key.to_string(), value);
    map
}

fn everything() -> RepoConfig {
    let on = || Some(Toggle { enable: Some(true) });
    let off = || Some(Toggle { enable: Some(false) });
    RepoConfig {
        description: Some("d".into()),
        homepage: Some("h".into()),
        visibility: Some(Visibility::Private),
        features: Some(FeaturesConfig {
            wiki: off(),
            issues: off(),
            projects: off(),
            discussions: on(),
        }),
        is_template: Some(true),
        is_archived: Some(true),
        allow_forking: Some(false),
        pull: Some(PullRequestConfig {
            merge: Some(MergeConfig {
                enable: Some(false),
                commit_title: Some(MergeCommitTitle::MergeMessage),
                commit_message: Some(MergeCommitMessage::PrTitle),
            }),
            squash: Some(SquashConfig {
                enable: Some(false),
                commit_title: None,
                commit_message: Some(SquashCommitMessage::CommitMessages),
            }),
            rebase: off(),
            auto_merge: Some(true),
            delete_branch_on_merge: Some(true),
            update_branch: Some(true),
            web_commit_signoff_required: Some(true),
        }),
        ..Default::default()
    }
}

#[test]
fn every_setting_is_sent_and_reported() {
    let repo = Repo {
        description: Some("old".into()),
        squash_merge_commit_title: Some("PR_TITLE".into()),
        squash_merge_commit_message: Some("BLANK".into()),
        ..Default::default()
    };
    let (patch, changes) = settings_patch(&everything(), &repo);
    assert_eq!(
        Json::Object(patch).to_text(),
        json(
            r#"{
                "private": true,
                "description": "d",
                "homepage": "h",
                "has_wiki": false,
                "has_issues": false,
                "has_projects": false,
                "has_discussions": true,
                "is_template": true,
                "archived": true,
                "allow_forking": false,
                "allow_merge_commit": false,
                "merge_commit_title": "MERGE_MESSAGE",
                "merge_commit_message": "PR_TITLE",
                "allow_squash_merge": false,
                "squash_merge_commit_title": "PR_TITLE",
                "squash_merge_commit_message": "COMMIT_MESSAGES",
                "allow_rebase_merge": false,
                "allow_auto_merge": true,
                "delete_branch_on_merge": true,
                "allow_update_branch": true,
                "web_commit_signoff_required": true
            }"#
        )
        .to_text()
    );
    assert_eq!(
        shown(&changes),
        [
            "/visibility: public -> private",
            "/description: old -> d",
            "/homepage: (none) -> h",
            "features.wiki/enable: true -> false",
            "features.issues/enable: true -> false",
            "features.projects/enable: true -> false",
            "features.discussions/enable: false -> true",
            "/is_template: false -> true",
            "/is_archived: false -> true",
            "/allow_forking: true -> false",
            "pull.merge/enable: true -> false",
            "pull.merge/commit_title: (none) -> merge_message",
            "pull.merge/commit_message: (none) -> pr_title",
            "pull.squash/enable: true -> false",
            "pull.squash/commit_message: blank -> commit_messages",
            "pull.rebase/enable: true -> false",
            "pull/auto_merge: false -> true",
            "pull/delete_branch_on_merge: false -> true",
            "pull/update_branch: false -> true",
            "pull/web_commit_signoff_required: false -> true",
        ]
    );
}

#[test]
fn settings_that_were_taken_need_no_change() {
    let repo = Repo {
        private: true,
        description: Some("d".into()),
        homepage: Some("h".into()),
        has_wiki: Some(false),
        has_issues: Some(false),
        has_projects: Some(false),
        has_discussions: Some(true),
        is_template: Some(true),
        archived: Some(true),
        allow_forking: Some(false),
        allow_merge_commit: Some(false),
        merge_commit_title: Some("MERGE_MESSAGE".into()),
        merge_commit_message: Some("PR_TITLE".into()),
        allow_squash_merge: Some(false),
        squash_merge_commit_message: Some("COMMIT_MESSAGES".into()),
        allow_rebase_merge: Some(false),
        allow_auto_merge: Some(true),
        delete_branch_on_merge: Some(true),
        allow_update_branch: Some(true),
        web_commit_signoff_required: Some(true),
        ..Default::default()
    };
    let (patch, changes) = settings_patch(&everything(), &repo);
    assert!(patch.is_empty() && changes.is_empty());
    let (patch, changes) = settings_patch(&RepoConfig::default(), &repo);
    assert!(patch.is_empty() && changes.is_empty());
}

#[test]
fn an_unknown_title_is_not_carried() {
    let cfg = RepoConfig {
        pull: Some(PullRequestConfig {
            squash: Some(SquashConfig {
                commit_message: Some(SquashCommitMessage::PrBody),
                ..Default::default()
            }),
            ..Default::default()
        }),
        ..Default::default()
    };
    let (patch, _) = settings_patch(&cfg, &Repo::default());
    assert_eq!(Json::Object(patch).to_text(), r#"{"squash_merge_commit_message":"PR_BODY"}"#);
}

#[test]
fn live_commit_text_is_shown_in_lower_case() {
    let cfg = RepoConfig {
        pull: Some(PullRequestConfig {
            squash: Some(SquashConfig {
                commit_title: Some(SquashCommitTitle::PrTitle),
                ..Default::default()
            }),
            ..Default::default()
        }),
        ..Default::default()
    };
    let repo =
        Repo { squash_merge_commit_title: Some("\u{c9}TITRE".into()), ..Default::default() };
    let (_, changes) = settings_patch(&cfg, &repo);
    assert_eq!(shown(&changes), ["pull.squash/commit_title: \u{e9}titre -> pr_title"]);
}

#[test]
fn visibilities_have_names() {
    assert_eq!(visibility_str(Visibility::Public), "public");
    assert_eq!(visibility_str(Visibility::Private), "private");
    assert_eq!(visibility_str(Visibility::Internal), "internal");
    assert_eq!(allowed_actions_str(AllowedActions::LocalOnly), "local_only");
    assert_eq!(workflow_permission_str(WorkflowPermission::Write), "write");
}

#[test]
fn first_topics_come_from_nothing() {
    let cfg = RepoConfig { topics: Some(vec!["a".into()]), ..Default::default() };
    let change = topics_change(&cfg, &Vec::new()).unwrap();
    assert_eq!(change.from, None);
    assert!(topics_change(&cfg, &vec!["a".into(), "a".into()]).is_none());
    assert!(topics_change(&RepoConfig::default(), &vec!["a".into()]).is_none());
}

#[test]
fn actions_changes_are_reported_in_order_and_converge() {
    let cfg = ActionsConfig {
        enable: Some(false),
        policy: Some(AllowedActions::Selected),
        selected: Some(SelectedActionsConfig {
            github_owned: Some(false),
            verified: None,
            patterns: Some(vec!["a/*".into(), "b/*".into()]),
        }),
        default_token_permissions: Some(WorkflowPermission::Write),
        allow_pr_approval: Some(true),
    };
    let plan = plan_actions(
        &cfg,
        ActionsPermissions::default(),
        WorkflowPermissions::default(),
        SelectedActions::default(),
    )
    .unwrap();
    assert_eq!(
        shown(&plan.changes),
        [
            "actions/enable: true -> false",
            "actions/policy: all -> selected",
            "actions/default_token_permissions: read -> write",
            "actions/allow_pr_approval: false -> true",
            "actions/selected: github_owned=true, verified=false, patterns=[] \
             -> github_owned=false, verified=false, patterns=[a/*, b/*]",
        ]
    );
    assert!(plan_actions(
        &cfg,
        plan.permissions.unwrap(),
        plan.workflow.unwrap(),
        plan.selected.unwrap(),
    )
    .is_none());
}

#[test]
fn allow_lists_wait_for_the_selected_policy() {
    let cfg = ActionsConfig {
        selected: Some(SelectedActionsConfig {
            verified: Some(true),
            ..Default::default()
        }),
        ..Default::default()
    };
    assert!(plan_actions(
        &cfg,
        ActionsPermissions::default(),
        WorkflowPermissions::default(),
        SelectedActions::default(),
    )
    .is_none());
    let plan = plan_actions(
        &cfg,
        ActionsPermissions { enabled: true, allowed_actions: AllowedActions::Selected },
        WorkflowPermissions::default(),
        SelectedActions::default(),
    )
    .unwrap();
    assert!(plan.permissions.is_none() && plan.workflow.is_none());
    assert!(plan.selected.unwrap().verified_allowed);
}

fn protected() -> LiveProtection {
    LiveProtection {
        protection: BranchProtection {
            required_status_checks: Some(StatusChecks {
                strict: false,
                contexts: vec!["b".into(), "a".into()],
            }),
            restrictions: Some(PushRestrictions {
                users: vec!["me".into()],
                teams: Vec::new(),
                apps: Vec::new(),
            }),
            allow_deletions: true,
            ..Default::default()
        },
        required_signatures: true,
    }
}

#[test]
fn branch_protection_is_merged_over_the_live_one() {
    let cfg = BranchProtectionConfig {
        required_linear_history: Some(true),
        required_signatures: Some(false),
        required_status_checks: Some(RequiredStatusChecks {
            strict: Some(true),
            contexts: Some(vec!["a".into(), "b".into()]),
        }),
        required_pull_request_reviews: Some(RequiredPullRequestReviews {
            required_approving_review_count: Some(2),
            ..Default::default()
        }),
        ..Default::default()
    };
    let live = protected();
    let plan = plan_branch("main", &cfg, Some(&live)).unwrap();
    assert_eq!(plan.branch, "main");
    assert_eq!(
        shown(&plan.changes),
        [
            "branch_protection.main/required_linear_history: false -> true",
            "branch_protection.main/required_status_checks.strict: false -> true",
            "branch_protection.main/required_pull_request_reviews.dismiss_stale_reviews: \
             (none) -> false",
            "branch_protection.main/required_pull_request_reviews.require_code_owner_reviews: \
             (none) -> false",
            "branch_protection.main/required_pull_request_reviews.required_approving_review_count: \
             (none) -> 2",
            "branch_protection.main/required_pull_request_reviews.require_last_push_approval: \
             (none) -> false",
            "branch_protection.main/required_signatures: true -> false",
        ]
    );
    assert_eq!(plan.required_signatures, Some(false));
    let protection = plan.protection.unwrap();
    assert!(protection.allow_deletions, "undeclared settings stay");
    assert_eq!(protection.restrictions.as_ref().unwrap().users, ["me"]);
    assert_eq!(
        protection.required_pull_request_reviews,
        Some(PullRequestReviews {
            dismiss_stale_reviews: false,
            require_code_owner_reviews: false,
            required_approving_review_count: 2,
            require_last_push_approval: false,
        })
    );
    let after = LiveProtection { protection, required_signatures: false };
    assert!(plan_branch("main", &cfg, Some(&after)).is_none());
}

#[test]
fn signatures_come_with_a_protection() {
    let cfg =
        BranchProtectionConfig { required_signatures: Some(true), ..Default::default() };
    let plan = plan_branch("main", &cfg, None).unwrap();
    assert!(plan.protection.is_some());
    assert_eq!(plan.required_signatures, Some(true));
    let live = LiveProtection { required_signatures: false, ..protected() };
    let plan = plan_branch("main", &cfg, Some(&live)).unwrap();
    assert!(plan.protection.is_none());
    assert!(plan_branch("main", &cfg, Some(&protected())).is_none());
    assert!(plan_branch("main", &BranchProtectionConfig::default(), None).is_none());
}

#[test]
fn status_checks_are_compared_as_a_set() {
    let checks = |contexts: &[&str]| BranchProtectionConfig {
        required_status_checks: Some(RequiredStatusChecks {
            strict: None,
            contexts: Some(contexts.iter().map(|c| c.to_string()).collect()),
        }),
        ..Default::default()
    };
    assert!(plan_branch("main", &checks(&["a", "b"]), Some(&protected())).is_none());
    let plan = plan_branch("main", &checks(&["c"]), Some(&protected())).unwrap();
    assert_eq!(
        shown(&plan.changes),
        ["branch_protection.main/required_status_checks.contexts: b, a -> c"]
    );
}

fn ruleset(id: u64, enforcement: &str) -> Ruleset {
    Ruleset {
        id,
        name: "main".into(),
        target: Some("branch".into()),
        enforcement: enforcement.into(),
        bypass_actors: None,
        conditions: None,
        rules: None,
    }
}

fn read(cfg: &RepoConfig, answers: Vec<Answer>) -> (Vec<String>, Observed) {
    let mut seen = Observed::new();
    let mut reads = Vec::new();
    let mut answers = answers.into_iter();
    while let Some(read) = seen.next_read(cfg) {
        reads.push(format!("{read:?}"));
        seen.observe(answers.next().expect("another answer"));
    }
    assert!(answers.next().is_none(), "no answer is left over");
    (reads, seen)
}

fn declared() -> RepoConfig {
    let mut branches = KeyMap::new();
    branches.insert(
        "main".to_string(),
        BranchProtectionConfig { enforce_admins: Some(true), ..Default::default() },
    );
    branches.insert(
        "dev".to_string(),
        BranchProtectionConfig { enforce_admins: Some(true), ..Default::default() },
    );
    let mut rulesets = KeyMap::new();
    rulesets.insert(
        "tags".to_string(),
        RulesetConfig { target: Some(RulesetTarget::Tag), ..Default::default() },
    );
    rulesets.insert(
        "heads".to_string(),
        RulesetConfig {
            name: Some("main".into()),
            enforcement: Some(Enforcement::Active),
            ..Default::default()
        },
    );
    RepoConfig {
        description: Some("d".into()),
        topics: Some(vec!["t".into()]),
        actions: Some(ActionsConfig { enable: Some(false), ..Default::default() }),
        branch_protection: Some(branches),
        rulesets: Some(rulesets),
        ..Default::default()
    }
}

#[test]
fn a_missing_repository_is_created() {
    let cfg = declared();
    let (reads, seen) = read(&cfg, vec![Answer::Repository(None)]);
    assert_eq!(reads, ["Repository"]);
    let plan = plan_repo("me", "key", &cfg, &seen);
    assert!(!plan.exists && plan.has_changes());
    assert_eq!(plan.create_spec.as_ref().unwrap().name, "key");
    assert!(plan.branches.is_empty());
    assert_eq!(
        plan.warnings,
        [
            "branch `dev` does not exist; its protection is skipped",
            "branch `main` does not exist; its protection is skipped",
        ]
    );
    assert_eq!(
        shown(&plan.changes),
        [
            "repository/create: (none) -> create",
            "/description: (none) -> d",
            "/topics: (none) -> t",
            "actions/enable: true -> false",
            "rulesets.heads/create: (none) -> create",
            "rulesets.tags/create: (none) -> create",
        ]
    );
}

#[test]
fn an_existing_repository_is_read_in_full() {
    let cfg = declared();
    let (reads, seen) = read(
        &cfg,
        vec![
            Answer::Repository(Some(Repo::default())),
            Answer::ActionsPermissions(None),
            Answer::WorkflowPermissions(None),
            Answer::BranchExists(false),
            Answer::BranchExists(true),
            Answer::BranchProtection(None),
            Answer::Rulesets(vec![
                RulesetSummary { id: 3, name: "other".into() },
                RulesetSummary { id: 5, name: "main".into() },
                RulesetSummary { id: 6, name: "main".into() },
            ]),
            Answer::Ruleset(ruleset(5, "disabled")),
        ],
    );
    assert_eq!(
        reads,
        [
            "Repository",
            "ActionsPermissions",
            "WorkflowPermissions",
            "BranchExists(\"dev\")",
            "BranchExists(\"main\")",
            "BranchProtection(\"main\")",
            "Rulesets",
            "Ruleset(5)",
        ]
    );
    let plan = plan_repo("me", "key", &cfg, &seen);
    assert!(plan.exists && plan.create_spec.is_none());
    assert_eq!(plan.warnings, ["branch `dev` does not exist; its protection is skipped"]);
    assert_eq!(plan.topics.as_deref(), Some(&["t".to_string()][..]));
    assert_eq!(plan.branches.len(), 1);
    assert_eq!(plan.rulesets.len(), 2);
    assert_eq!((plan.rulesets[0].name.as_str(), plan.rulesets[0].id), ("main", Some(5)));
    assert_eq!((plan.rulesets[1].name.as_str(), plan.rulesets[1].id), ("tags", None));
    assert_eq!(
        shown(&plan.changes),
        [
            "/description: (none) -> d",
            "/topics: (none) -> t",
            "actions/enable: true -> false",
            "branch_protection.main/enforce_admins: false -> true",
            "rulesets.heads/enforcement: disabled -> active",
            "rulesets.tags/create: (none) -> create",
        ]
    );
}

#[test]
fn a_run_converges() {
    let cfg = declared();
    let (_, seen) = read(
        &cfg,
        vec![
            Answer::Repository(Some(Repo {
                description: Some("d".into()),
                topics: vec!["t".into()],
                ..Default::default()
            })),
            Answer::ActionsPermissions(Some(ActionsPermissions {
                enabled: false,
                allowed_actions: AllowedActions::All,
            })),
            Answer::WorkflowPermissions(None),
            Answer::BranchExists(false),
            Answer::BranchExists(true),
            Answer::BranchProtection(Some(LiveProtection {
                protection: BranchProtection { enforce_admins: true, ..Default::default() },
                required_signatures: false,
            })),
            Answer::Rulesets(vec![
                RulesetSummary { id: 5, name: "main".into() },
                RulesetSummary { id: 7, name: "tags".into() },
            ]),
            Answer::Ruleset(ruleset(5, "active")),
            Answer::Ruleset(Ruleset { target: Some("tag".into()), ..ruleset(7, "active") }),
        ],
    );
    let plan = plan_repo("me", "key", &cfg, &seen);
    assert!(!plan.has_changes(), "{:?}", plan.changes);
    assert!(plan.settings.is_none() && plan.topics.is_none() && plan.actions.is_none());
    assert!(plan.branches.is_empty() && plan.rulesets.is_empty());
}

#[test]
fn the_allow_list_is_read_where_it_matters() {
    let cfg = RepoConfig {
        actions: Some(ActionsConfig {
            policy: Some(AllowedActions::Selected),
            selected: Some(SelectedActionsConfig::default()),
            ..Default::default()
        }),
        ..Default::default()
    };
    let (reads, seen) = read(
        &cfg,
        vec![
            Answer::Repository(Some(Repo::default())),
            Answer::ActionsPermissions(None),
            Answer::WorkflowPermissions(None),
            Answer::SelectedActions(None),
        ],
    );
    assert_eq!(reads.last().map(String::as_str), Some("SelectedActions"));
    let plan = plan_repo("me", "key", &cfg, &seen);
    assert!(plan.actions.unwrap().selected.is_none());
}

#[test]
fn nothing_declared_changes_nothing() {
    let cfg = RepoConfig::default();
    let (reads, seen) = read(
        &cfg,
        vec![Answer::Repository(Some(Repo {
            private: true,
            topics: vec!["t".into()],
            ..Default::default()
        }))],
    );
    assert_eq!(reads, ["Repository"]);
    assert!(!plan_repo("me", "key", &cfg, &seen).has_changes());
    assert!(matches!(Observed::new().next_read(&cfg), Some(Read::Repository)));
}

#[test]
fn rulesets_are_found_by_the_first_name() {
    let summaries = vec![
        RulesetSummary { id: 1, name: "a".into() },
        RulesetSummary { id: 2, name: "b".into() },
        RulesetSummary { id: 3, name: "b".into() },
    ];
    assert_eq!(find_ruleset(&summaries, "b"), Some(2));
    assert_eq!(find_ruleset(&summaries, "c"), None);
}

#[test]
fn owners_fall_back_to_the_login() {
    let owned = RepoConfig { owner: Some("org".into()), ..Default::default() };
    assert_eq!(resolve_owner("k", &owned, None), Ok("org".to_string()));
    let bare = RepoConfig::default();
    assert_eq!(resolve_owner("k", &bare, Some("me")), Ok("me".to_string()));
    assert_eq!(
        resolve_owner("k", &bare, None),
        Err("no owner for repository `k`".to_string())
    );
}

#[test]
fn every_repository_is_planned_in_order() {
    let mut repos = KeyMap::new();
    repos.insert("b".to_string(), RepoConfig::default());
    repos.insert(
        "a".to_string(),
        RepoConfig {
            owner: Some("org".into()),
            name: Some("z".into()),
            description: Some("d".into()),
            ..Default::default()
        },
    );
    let config = Config { repos };
    assert!(needs_login(&config));
    let seen = || -> Vec<Observed> {
        config
            .repos
            .entries
            .iter()
            .map(|(_, cfg)| read(cfg, vec![Answer::Repository(Some(Repo::default()))]).1)
            .collect()
    };
    let plans = build_plan(&config, Some("me"), &seen()).unwrap();
    let targets: Vec<String> =
        plans.iter().map(|p| format!("{} {}/{}", p.key, p.owner, p.repo)).collect();
    assert_eq!(targets, ["a org/z", "b me/b"]);
    assert!(plans[0].has_changes() && !plans[1].has_changes());
    assert_eq!(
        build_plan(&config, None, &seen()).map(|_| ()),
        Err("no owner for repository `b`".to_string())
    );
}

#[test]
fn rulesets_converge() {
    let mut parameters = KeyMap::new();
    parameters.insert("pattern".to_string(), json(r#"{"n":[2,1],"a":"x"}"#));
    let cfg = RulesetConfig {
        name: None,
        target: None,
        enforcement: Some(Enforcement::Evaluate),
        conditions: Some(RulesetConditions {
            ref_name: Some(RefNameCondition {
                included: None,
                excluded: Some(vec!["b".into(), "a".into()]),
            }),
        }),
        bypass_actors: Some(vec![
            BypassActor {
                actor_id: Some(7),
                actor_type: BypassActorType::Team,
                bypass_mode: Some(BypassMode::PullRequest),
            },
            BypassActor {
                actor_id: Some(9),
                actor_type: BypassActorType::DeployKey,
                bypass_mode: None,
            },
        ]),
        rules: Some(vec![
            Rule { rule_type: "update".into(), parameters: Some(parameters) },
            Rule { rule_type: "creation".into(), parameters: Some(KeyMap::new()) },
        ]),
    };
    let body = build_ruleset_body("main", &cfg, None);
    assert_eq!(
        body.to_text(),
        json(
            r#"{
                "name": "main",
                "target": "branch",
                "enforcement": "evaluate",
                "conditions": { "ref_name": { "include": [], "exclude": ["b", "a"] } },
                "bypass_actors": [
                    { "actor_type": "Team", "actor_id": 7, "bypass_mode": "pull_request" },
                    { "actor_type": "DeployKey", "bypass_mode": "always" }
                ],
                "rules": [
                    { "type": "update", "parameters": { "pattern": { "a": "x", "n": [2, 1] } } },
                    { "type": "creation" }
                ]
            }"#
        )
        .to_text()
    );
    let after = Ruleset {
        id: 1,
        name: "main".into(),
        target: Some("branch".into()),
        enforcement: "evaluate".into(),
        conditions: body.get("conditions").cloned(),
        bypass_actors: body.get("bypass_actors").unwrap().as_array().cloned(),
        rules: body.get("rules").unwrap().as_array().cloned(),
    };
    assert!(plan_ruleset("main", "main", &cfg, Some(&after)).is_none());
    assert!(ruleset_desired(&cfg).get("target").is_none());
    assert_eq!(
        ruleset_current(&after).get("enforcement").unwrap().as_str(),
        Some("evaluate")
    );
}

#[test]
fn updates_report_each_difference() {
    let cfg = RulesetConfig {
        target: Some(RulesetTarget::Push),
        rules: Some(vec![Rule { rule_type: "deletion".into(), parameters: None }]),
        ..Default::default()
    };
    let live = Ruleset { rules: Some(Vec::new()), ..ruleset(4, "active") };
    let plan = plan_ruleset("k", "main", &cfg, Some(&live)).unwrap();
    assert_eq!(plan.id, Some(4));
    assert_eq!(
        shown(&plan.changes),
        [
            "rulesets.k/rules: [] -> [{\"type\":\"deletion\"}]",
            "rulesets.k/target: branch -> push",
        ]
    );
}

#[test]
fn live_conditions_keep_strings_only() {
    let live = json(r#"{"ref_name":{"include":["a",1,null,"b"],"exclude":"x"},"other":1}"#);
    let merged = merge_conditions(&RulesetConditions { ref_name: None }, Some(&live));
    assert_eq!(
        Json::Object(merged).to_text(),
        r#"{"ref_name":{"exclude":[],"include":["a","b"]}}"#
    );
    let merged = merge_conditions(&RulesetConditions { ref_name: None }, None);
    assert!(merged.is_empty());
}

#[test]
fn actors_and_rules_are_written_for_the_api() {
    let actor = BypassActor {
        actor_id: Some(1),
        actor_type: BypassActorType::OrganizationAdmin,
        bypass_mode: Some(BypassMode::Exempt),
    };
    assert_eq!(
        bypass_actor_value(&actor).to_text(),
        r#"{"actor_type":"OrganizationAdmin","bypass_mode":"exempt"}"#
    );
    let rule =
        Rule { rule_type: "update".into(), parameters: Some(map("a", Json::Bool(true))) };
    assert_eq!(rule_value(&rule).to_text(), r#"{"parameters":{"a":true},"type":"update"}"#);
}

#[test]
fn operations_go_with_differences() {
    let api = HttpApi::new(String::new(), String::new());
    let cfg = RepoConfig { homepage: Some("h".into()), ..Default::default() };
    let with = |homepage: &str| {
        read(
            &cfg,
            vec![Answer::Repository(Some(Repo {
                homepage: Some(homepage.to_string()),
                ..Default::default()
            }))],
        )
        .1
    };
    let plan = plan_repo("me", "key", &cfg, &with("old"));
    assert!(plan.has_changes());
    assert_eq!(operations(&api, &plan).len(), 1);
    let plan = plan_repo("me", "key", &cfg, &with("h"));
    assert!(!plan.has_changes());
    assert!(operations(&api, &plan).is_empty());
}

#[test]
fn the_order_of_rules_of_one_type_does_not_matter() {
    let rule = |n: &str| Rule {
        rule_type: "update".into(),
        parameters: Some(map("n", json(n))),
    };
    let cfg = RulesetConfig { rules: Some(vec![rule("1"), rule("2")]), ..Default::default() };
    let live = |first: &str, second: &str| Ruleset {
        rules: Some(vec![rule_value(&rule(first)), rule_value(&rule(second))]),
        ..ruleset(1, "active")
    };
    assert!(plan_ruleset("k", "main", &cfg, Some(&live("1", "2"))).is_none());
    assert!(plan_ruleset("k", "main", &cfg, Some(&live("2", "1"))).is_none());
    let plan = plan_ruleset("k", "main", &cfg, Some(&live("2", "3"))).unwrap();
    let other = plan_ruleset("k", "main", &cfg, Some(&live("3", "2"))).unwrap();
    assert_eq!(shown(&plan.changes), shown(&other.changes));
}

#[test]
fn further_fields_of_rules_of_one_type_do_not_matter() {
    let rule = |n: u64| Rule {
        rule_type: "update".into(),
        parameters: Some(map("n", json(&n.to_string()))),
    };
    let cfg = RulesetConfig { rules: Some(vec![rule(1), rule(2)]), ..Default::default() };
    let live = |rules: &str| Ruleset {
        rules: json(rules).as_array().cloned(),
        ..ruleset(1, "active")
    };
    let plan = |rules: &str| plan_ruleset("k", "main", &cfg, Some(&live(rules)));
    let first = r#"{"type":"update","parameters":{"n":1},"z":0}"#;
    let second = r#"{"type":"update","a":0,"parameters":{"n":2,"more":[1]}}"#;
    let third = r#"{"type":"update","parameters":{"n":3}}"#;
    assert!(plan(&format!("[{first},{second}]")).is_none());
    assert!(plan(&format!("[{second},{first}]")).is_none());
    assert!(plan(&format!("[{first},{first}]")).is_some());
    assert!(plan(&format!("[{second},{third}]")).is_some());
    assert!(plan(&format!("[{first}]")).is_some());
    assert!(plan(&format!("[{first},{second},{third}]")).is_some());
}

#[test]
fn a_field_that_matches_is_not_reported() {
    let rule = |n: u64| Rule {
        rule_type: "update".into(),
        parameters: Some(map("n", json(&n.to_string()))),
    };
    let cfg = RulesetConfig {
        target: Some(RulesetTarget::Push),
        rules: Some(vec![rule(1), rule(2)]),
        ..Default::default()
    };
    let rules = r#"[
        {"type":"update","a":0,"parameters":{"n":2}},
        {"type":"update","parameters":{"n":1}}
    ]"#;
    let live = Ruleset { rules: json(rules).as_array().cloned(), ..ruleset(1, "active") };
    let plan = plan_ruleset("k", "main", &cfg, Some(&live)).unwrap();
    assert_eq!(shown(&plan.changes), ["rulesets.k/target: branch -> push"]);
}

#[test]
fn a_ruleset_that_reads_back_with_more_is_settled() {
    let cfg = RulesetConfig {
        conditions: Some(RulesetConditions {
            ref_name: Some(RefNameCondition {
                included: Some(vec!["a".into(), "b".into()]),
                excluded: None,
            }),
        }),
        rules: Some(vec![Rule {
            rule_type: "workflows".into(),
            parameters: Some(map(
                "workflows",
                json(r#"[{"path":"a.yml"},{"path":"b.yml"}]"#),
            )),
        }]),
        ..Default::default()
    };
    let after = Ruleset {
        conditions: Some(json(r#"{"ref_name":{"include":["b","a"],"exclude":[]},"more":1}"#)),
        rules: json(
            r#"[{"type":"workflows","parameters":{"strict":true,"workflows":[
                {"path":"a.yml","sha":"2"},{"path":"b.yml","at":"1"}
            ]}}]"#,
        )
        .as_array()
        .cloned(),
        ..ruleset(1, "active")
    };
    assert!(plan_ruleset("k", "main", &cfg, Some(&after)).is_none());
}

#[test]
fn conditions_without_a_ref_name_ask_for_nothing() {
    let cfg = RulesetConfig {
        conditions: Some(RulesetConditions { ref_name: None }),
        ..Default::default()
    };
    assert!(ruleset_desired(&cfg).get("conditions").is_none());
    assert!(build_ruleset_body("main", &cfg, None).get("conditions").is_none());
    let bare = ruleset(1, "active");
    assert!(bare.conditions.is_none());
    assert!(plan_ruleset("k", "main", &cfg, Some(&bare)).is_none());
    let live = Ruleset {
        conditions: Some(json(r#"{"ref_name":{"include":["a"],"exclude":[]}}"#)),
        ..ruleset(1, "active")
    };
    assert!(plan_ruleset("k", "main", &cfg, Some(&live)).is_none());
}
