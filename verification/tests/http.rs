//! Requests to the GitHub API, and its replies.

use nixit::apply::{operations, record, sync_repo};
use nixit::config::{AllowedActions, WorkflowPermission};
use nixit::github::{
    ActionsPermissions, BranchProtection, CreateRepo, PullRequestReviews, PushRestrictions,
    SelectedActions, StatusChecks, WorkflowPermissions,
};
use nixit::json::Json;
use nixit::keymap::KeyMap;
use nixit::plan::{ActionsPlan, BranchPlan, RepoPlan, RulesetPlan};
use nixit::replies::{
    api_message, check_optional, check_reply, check_selected, reply_message, reported_permissions,
    unexpected_reply,
};
use nixit::requests::{ApiRequest, HttpApi, Method};

fn api() -> HttpApi {
    HttpApi::new("secret".to_string(), "https://api.example".to_string())
}

fn json(text: &str) -> Json {
    Json::parse(text).expect("a JSON text")
}

/// The body of a request in JSON notation.
fn body(request: &ApiRequest) -> Option<String> {
    request.body.as_ref().map(|body| body.to_text())
}

fn expected(text: &str) -> Option<String> {
    Some(json(text).to_text())
}

fn plan() -> RepoPlan {
    RepoPlan {
        key: "nixit".to_string(),
        owner: "me".to_string(),
        repo: "nixit".to_string(),
        exists: true,
        create_spec: None,
        settings: None,
        topics: None,
        actions: None,
        branches: Vec::new(),
        rulesets: Vec::new(),
        changes: Vec::new(),
        warnings: Vec::new(),
    }
}

#[test]
fn get_repo_returns_none_on_404() {
    let request = api().get_repo("me", "missing");
    assert_eq!(request.method, Method::Get);
    assert_eq!(request.path, "/repos/me/missing");
    assert_eq!(request.url, "https://api.example/repos/me/missing");
    assert_eq!(
        check_optional(&request.context(), 404, r#"{"message":"Not Found"}"#),
        Ok(false)
    );
}

#[test]
fn create_repo_posts_expected_body() {
    let spec = CreateRepo {
        name: "nixit".into(),
        description: None,
        homepage: None,
        private: false,
    };
    let request = api().create_repo(&spec);
    assert_eq!(request.method, Method::Post);
    assert_eq!(request.path, "/user/repos");
    assert_eq!(body(&request), expected(r#"{ "name": "nixit", "private": false }"#));
}

#[test]
fn create_repo_sends_declared_texts() {
    let spec = CreateRepo {
        name: "nixit".into(),
        description: Some("d".into()),
        homepage: Some("h".into()),
        private: true,
    };
    assert_eq!(
        body(&api().create_repo(&spec)),
        expected(r#"{"name":"nixit","description":"d","homepage":"h","private":true}"#)
    );
}

#[test]
fn update_repo_patches_only_given_fields() {
    let mut patch = KeyMap::new();
    patch.insert("has_wiki".to_string(), Json::Bool(false));
    let request = api().update_repo("me", "nixit", &patch);
    assert_eq!(request.method, Method::Patch);
    assert_eq!(request.path, "/repos/me/nixit");
    assert_eq!(body(&request), expected(r#"{ "has_wiki": false }"#));
}

#[test]
fn branch_protection_put_sends_full_object() {
    let protection = BranchProtection {
        required_linear_history: true,
        enforce_admins: true,
        ..Default::default()
    };
    let request = api().set_branch_protection("me", "nixit", "main", &protection);
    assert_eq!(request.method, Method::Put);
    assert_eq!(request.path, "/repos/me/nixit/branches/main/protection");
    assert_eq!(
        body(&request),
        expected(
            r#"{
                "required_status_checks": null,
                "enforce_admins": true,
                "required_pull_request_reviews": null,
                "restrictions": null,
                "required_linear_history": true,
                "allow_force_pushes": false,
                "allow_deletions": false,
                "block_creations": false,
                "required_conversation_resolution": false,
                "lock_branch": false,
                "allow_fork_syncing": false
            }"#
        )
    );
}

#[test]
fn branch_protection_sends_its_parts() {
    let protection = BranchProtection {
        required_status_checks: Some(StatusChecks {
            strict: true,
            contexts: vec!["build".into()],
        }),
        required_pull_request_reviews: Some(PullRequestReviews {
            dismiss_stale_reviews: true,
            require_code_owner_reviews: false,
            required_approving_review_count: 2,
            require_last_push_approval: true,
        }),
        restrictions: Some(PushRestrictions {
            users: vec!["me".into()],
            teams: Vec::new(),
            apps: vec!["bot".into()],
        }),
        ..Default::default()
    };
    let request = api().set_branch_protection("me", "nixit", "main", &protection);
    let sent = request.body.unwrap();
    assert_eq!(
        sent.get("required_status_checks").unwrap().to_text(),
        r#"{"contexts":["build"],"strict":true}"#
    );
    assert_eq!(
        Some(sent.get("required_pull_request_reviews").unwrap().to_text()),
        expected(
            r#"{
                "dismiss_stale_reviews": true,
                "require_code_owner_reviews": false,
                "required_approving_review_count": 2,
                "require_last_push_approval": true
            }"#
        )
    );
    assert_eq!(
        sent.get("restrictions").unwrap().to_text(),
        r#"{"apps":["bot"],"teams":[],"users":["me"]}"#
    );
}

#[test]
fn required_signatures_toggle_uses_post_and_delete() {
    let path = "/repos/me/nixit/branches/main/protection/required_signatures";
    let on = api().set_required_signatures("me", "nixit", "main", true);
    assert_eq!((on.method, on.path.as_str()), (Method::Post, path));
    assert_eq!(body(&on), None);
    let off = api().set_required_signatures("me", "nixit", "main", false);
    assert_eq!((off.method, off.path.as_str()), (Method::Delete, path));
    assert_eq!(off.context(), format!("DELETE {path}"));
}

#[test]
fn api_errors_are_reported_with_the_message() {
    let error = check_optional(
        &api().get_repo("me", "nixit").context(),
        403,
        r#"{"message":"Resource not accessible by personal access token"}"#,
    )
    .unwrap_err();
    assert!(
        error.contains("Resource not accessible by personal access token"),
        "unexpected error: {error}"
    );
}

#[test]
fn branch_exists_maps_404_to_false() {
    let main = api().branch_exists("me", "nixit", "main");
    assert_eq!(main.path, "/repos/me/nixit/branches/main");
    assert_eq!(check_optional(&main.context(), 200, r#"{"name":"main"}"#), Ok(true));
    let ghost = api().branch_exists("me", "nixit", "ghost");
    assert_eq!(ghost.path, "/repos/me/nixit/branches/ghost");
    assert_eq!(
        check_optional(&ghost.context(), 404, r#"{"message":"Branch not found"}"#),
        Ok(false)
    );
}

#[test]
fn errors_include_the_endpoint() {
    let message = check_optional(
        &api().get_repo("me", "nixit").context(),
        403,
        r#"{"message":"Resource not accessible by personal access token"}"#,
    )
    .unwrap_err();
    assert!(message.contains("GET /repos/me/nixit"), "{message}");
    assert!(message.contains("403"), "{message}");
    assert_eq!(
        message,
        "GET /repos/me/nixit: GitHub API error (403): \
         Resource not accessible by personal access token"
    );
}

#[test]
fn sync_repo_continues_after_a_failure() {
    let mut settings = KeyMap::new();
    settings.insert("has_wiki".to_string(), Json::Bool(false));
    let plan = RepoPlan {
        settings: Some(settings),
        topics: Some(vec!["rust".to_string()]),
        ..plan()
    };
    let operations = operations(&api(), &plan);
    // The settings PATCH fails, but the topics update must still be attempted.
    assert_eq!(operations.len(), 2);
    assert_eq!(operations[0].request.context(), "PATCH /repos/me/nixit");
    assert_eq!(operations[1].request.context(), "PUT /repos/me/nixit/topics");
    assert_eq!(body(&operations[1].request), expected(r#"{"names":["rust"]}"#));
    let failed = check_reply(
        &operations[0].request.context(),
        422,
        r#"{"message":"Validation Failed"}"#,
    );
    let done = check_reply(&operations[1].request.context(), 200, r#"{"names":["rust"]}"#);
    let failures = sync_repo(&operations, &vec![failed, done]);
    assert_eq!(failures.len(), 1, "expected one recorded failure");
    assert_eq!(failures[0].operation, "update repository settings");
    assert_eq!(
        failures[0].error,
        "PATCH /repos/me/nixit: GitHub API error (422): Validation Failed"
    );
}

#[test]
fn sync_repo_creates_and_updates_rulesets() {
    let full = r#"{"name":"main","target":"branch","enforcement":"active","rules":[]}"#;
    let plan = RepoPlan {
        rulesets: vec![
            RulesetPlan {
                name: "main".to_string(),
                id: None,
                body: json(full),
                changes: Vec::new(),
            },
            RulesetPlan {
                name: "release".to_string(),
                id: Some(2),
                body: json(full),
                changes: Vec::new(),
            },
        ],
        ..plan()
    };
    let operations = operations(&api(), &plan);
    let sent: Vec<String> = operations.iter().map(|o| o.request.context()).collect();
    assert_eq!(sent, ["POST /repos/me/nixit/rulesets", "PUT /repos/me/nixit/rulesets/2"]);
    assert_eq!(operations[0].label, "create ruleset `main`");
    assert_eq!(operations[1].label, "update ruleset `release`");
    assert_eq!(body(&operations[1].request), expected(full));
    assert!(sync_repo(&operations, &vec![Ok(()), Ok(())]).is_empty());
}

#[test]
fn selected_actions_conflict_is_treated_as_unset() {
    let request = api().get_selected_actions("me", "nixit");
    assert_eq!(request.path, "/repos/me/nixit/actions/permissions/selected-actions");
    let conflict = r#"{
        "message": "Conflict",
        "documentation_url": "https://docs.github.com/rest/actions/permissions"
    }"#;
    assert_eq!(check_selected(&request.context(), 409, conflict), Ok(false));
    assert_eq!(check_selected(&request.context(), 404, ""), Ok(false));
    assert_eq!(check_selected(&request.context(), 200, "{}"), Ok(true));
    assert!(check_selected(&request.context(), 500, "").is_err());
}

#[test]
fn create_and_update_rulesets_send_the_full_body() {
    let full = json(
        r#"{
            "name": "main",
            "target": "branch",
            "enforcement": "active",
            "rules": [{ "type": "deletion" }]
        }"#,
    );
    let create = api().create_ruleset("me", "nixit", &full);
    assert_eq!(create.context(), "POST /repos/me/nixit/rulesets");
    assert_eq!(body(&create), Some(full.to_text()));
    let update = api().update_ruleset("me", "nixit", 9, &full);
    assert_eq!(update.context(), "PUT /repos/me/nixit/rulesets/9");
    assert_eq!(body(&update), Some(full.to_text()));
}

#[test]
fn reads_have_their_endpoints() {
    let api = api();
    assert_eq!(api.login().context(), "GET /user");
    assert_eq!(api.list_rulesets("me", "r").context(), "GET /repos/me/r/rulesets");
    assert_eq!(api.get_ruleset("me", "r", 7).context(), "GET /repos/me/r/rulesets/7");
    assert_eq!(
        api.get_actions_permissions("me", "r").context(),
        "GET /repos/me/r/actions/permissions"
    );
    assert_eq!(
        api.get_workflow_permissions("me", "r").context(),
        "GET /repos/me/r/actions/permissions/workflow"
    );
    assert_eq!(
        api.get_branch_protection("me", "r", "main").context(),
        "GET /repos/me/r/branches/main/protection"
    );
}

#[test]
fn actions_settings_are_sent_in_full() {
    let api = api();
    let request = api.set_actions_permissions(
        "me",
        "r",
        ActionsPermissions { enabled: true, allowed_actions: AllowedActions::LocalOnly },
    );
    assert_eq!(request.context(), "PUT /repos/me/r/actions/permissions");
    assert_eq!(body(&request), expected(r#"{"enabled":true,"allowed_actions":"local_only"}"#));
    let request = api.set_workflow_permissions(
        "me",
        "r",
        WorkflowPermissions {
            default_workflow_permissions: WorkflowPermission::Write,
            can_approve_pull_request_reviews: true,
        },
    );
    assert_eq!(request.context(), "PUT /repos/me/r/actions/permissions/workflow");
    assert_eq!(
        body(&request),
        expected(
            r#"{
                "default_workflow_permissions": "write",
                "can_approve_pull_request_reviews": true
            }"#
        )
    );
    let request = api.set_selected_actions(
        "me",
        "r",
        &SelectedActions {
            github_owned_allowed: false,
            verified_allowed: true,
            patterns_allowed: vec!["actions/*".into()],
        },
    );
    assert_eq!(request.context(), "PUT /repos/me/r/actions/permissions/selected-actions");
    assert_eq!(
        body(&request),
        expected(
            r#"{
                "github_owned_allowed": false,
                "verified_allowed": true,
                "patterns_allowed": ["actions/*"]
            }"#
        )
    );
}

#[test]
fn operations_follow_the_order_of_the_plan() {
    let mut settings = KeyMap::new();
    settings.insert("archived".to_string(), Json::Bool(true));
    let plan = RepoPlan {
        settings: Some(settings),
        topics: Some(Vec::new()),
        actions: Some(ActionsPlan {
            permissions: Some(ActionsPermissions::default()),
            workflow: Some(WorkflowPermissions::default()),
            selected: Some(SelectedActions::default()),
            changes: Vec::new(),
        }),
        branches: vec![BranchPlan {
            branch: "main".into(),
            protection: Some(BranchProtection::default()),
            required_signatures: Some(false),
            changes: Vec::new(),
        }],
        ..plan()
    };
    let labels: Vec<String> = operations(&api(), &plan).into_iter().map(|o| o.label).collect();
    assert_eq!(
        labels,
        [
            "update repository settings",
            "update topics",
            "update actions permissions",
            "update workflow permissions",
            "update selected actions",
            "update branch protection for `main`",
            "update required signatures for `main`",
        ]
    );
}

#[test]
fn only_required_signatures_are_deleted() {
    let branch = |signatures| BranchPlan {
        branch: "main".into(),
        protection: None,
        required_signatures: Some(signatures),
        changes: Vec::new(),
    };
    let plan = RepoPlan { branches: vec![branch(true), branch(false)], ..plan() };
    let deleted: Vec<String> = operations(&api(), &plan)
        .into_iter()
        .filter(|o| o.request.method == Method::Delete)
        .map(|o| o.request.path)
        .collect();
    assert_eq!(deleted, ["/repos/me/nixit/branches/main/protection/required_signatures"]);
}

#[test]
fn empty_settings_are_not_sent() {
    let plan = RepoPlan { settings: Some(KeyMap::new()), ..plan() };
    assert!(operations(&api(), &plan).is_empty());
}

#[test]
fn record_notes_failures_only() {
    let mut failures = Vec::new();
    record(&mut failures, "a", &Ok(()));
    record(&mut failures, "b", &Err("no".to_string()));
    assert_eq!(failures.len(), 1);
    assert_eq!((failures[0].operation.as_str(), failures[0].error.as_str()), ("b", "no"));
}

#[test]
fn api_messages_name_the_errors() {
    assert_eq!(api_message(r#"{"message":"m"}"#), "m");
    assert_eq!(api_message(r#"{"message":"m","errors":[]}"#), "m");
    assert_eq!(api_message(r#"{"message":"m","errors":"none"}"#), "m");
    assert_eq!(
        api_message(r#"{"errors":[{"field":"name","code":1.5},"bad"],"message":"m"}"#),
        r#"m: {"code":1.5,"field":"name"}; "bad""#
    );
}

#[test]
fn api_messages_fall_back_to_the_text() {
    assert_eq!(api_message(" <html>\u{a0}\n"), "<html>");
    assert_eq!(api_message(r#" {"message":7} "#), r#"{"message":7}"#);
    assert_eq!(api_message("[1]"), "[1]");
    assert_eq!(api_message(""), "");
    assert_eq!(reply_message(None, " x "), "x");
    assert_eq!(reply_message(Some(&json(r#"{"message":"m"}"#)), " x "), "m");
}

#[test]
fn replies_succeed_between_200_and_299() {
    assert_eq!(check_reply("GET /x", 200, ""), Ok(()));
    assert_eq!(check_reply("GET /x", 299, ""), Ok(()));
    assert_eq!(
        check_reply("GET /x", 199, "no"),
        Err("GET /x: GitHub API error (199): no".to_string())
    );
    assert_eq!(
        check_reply("GET /x", 300, "no"),
        Err("GET /x: GitHub API error (300): no".to_string())
    );
    assert_eq!(
        check_reply("GET /x", 404, "no"),
        Err("GET /x: GitHub API error (404): no".to_string())
    );
}

#[test]
fn unexpected_replies_are_quoted() {
    assert_eq!(unexpected_reply("GET /x", "{"), "GET /x: unexpected GitHub response: {");
}

#[test]
fn without_a_policy_all_actions_are_allowed() {
    let permissions = reported_permissions(false, None);
    assert!(!permissions.enabled);
    assert_eq!(permissions.allowed_actions, AllowedActions::All);
    let permissions = reported_permissions(true, Some(AllowedActions::Selected));
    assert_eq!(permissions.allowed_actions, AllowedActions::Selected);
}
