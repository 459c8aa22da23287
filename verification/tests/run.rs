//! A run: what is done next, what is told, and what is shown.

use nixit::apply::Failure;
use nixit::cli::{
    after_creation, after_operations, after_reread, api_base, creates_repositories,
    flake_reference, open_repository, report_failures, resolve_token, start_run, target, Course, Next,
    Notice,
};
use nixit::display::{print_plan, Line};
use nixit::github::{CreateRepo, DEFAULT_BASE_URL};
use nixit::plan::{Change, RepoPlan};
use nixit::requests::HttpApi;

fn api() -> HttpApi {
    HttpApi::new("secret".to_string(), "https://api.example".to_string())
}

fn plan(exists: bool) -> RepoPlan {
    RepoPlan {
        key: "k".to_string(),
        owner: "me".to_string(),
        repo: "r".to_string(),
        exists,
        create_spec: if exists {
            None
        } else {
            Some(CreateRepo {
                name: "r".into(),
                description: None,
                homepage: None,
                private: false,
            })
        },
        settings: None,
        topics: None,
        actions: None,
        branches: Vec::new(),
        rulesets: Vec::new(),
        changes: Vec::new(),
        warnings: Vec::new(),
    }
}

fn changed() -> RepoPlan {
    RepoPlan {
        topics: Some(vec!["t".into()]),
        changes: vec![
            Change::new("", "topics", None, "t".to_string()),
            Change::new("pull", "auto_merge", Some("false".to_string()), "true".to_string()),
        ],
        warnings: vec!["w".to_string()],
        ..plan(true)
    }
}

fn told(notices: &[Notice]) -> Vec<String> {
    notices.iter().map(|notice| format!("{notice:?}")).collect()
}

#[test]
fn a_repository_that_matches_is_up_to_date() {
    let turn = open_repository(&api(), &plan(true), None, false);
    assert_eq!(told(&turn.notices), ["UpToDate(\"me/r\")"]);
    assert!(turn.failures.is_empty());
    assert!(matches!(turn.next, Next::Finish));
}

#[test]
fn a_repository_that_differs_is_applied() {
    let turn = open_repository(&api(), &changed(), None, false);
    assert_eq!(told(&turn.notices), ["Warning(\"me/r\", \"w\")"]);
    let operations = match turn.next {
        Next::Apply(operations) => operations,
        other => panic!("{other:?}"),
    };
    assert_eq!(operations[0].label, "update topics");
    let done = after_operations("me/r", &operations, &vec![Ok(())], false);
    assert_eq!(told(&done.notices), ["Applied(\"me/r\")"]);
    let failed = after_operations("me/r", &operations, &vec![Err("no".to_string())], false);
    assert!(failed.notices.is_empty());
    assert_eq!(failed.failures[0].operation, "update topics");
    assert!(matches!(failed.next, Next::Finish));
}

#[test]
fn quiet_runs_tell_nothing() {
    assert!(open_repository(&api(), &plan(true), None, true).notices.is_empty());
    let turn = open_repository(&api(), &changed(), None, true);
    assert!(turn.notices.is_empty());
    assert!(matches!(turn.next, Next::Apply(_)));
    assert!(after_operations("me/r", &Vec::new(), &Vec::new(), true).notices.is_empty());
    assert!(after_reread(&api(), "me/r", &Ok(changed()), true).notices.is_empty());
}

#[test]
fn repositories_are_created_for_the_user_only() {
    let turn = open_repository(&api(), &plan(false), Some("me"), false);
    assert!(matches!(turn.next, Next::Create));
    assert!(turn.notices.is_empty() && turn.failures.is_empty());

    let turn = open_repository(&api(), &plan(false), Some("you"), false);
    assert!(matches!(turn.next, Next::Finish));
    assert_eq!(turn.failures[0].operation, "create repository");
    assert_eq!(
        turn.failures[0].error,
        "`nixit` can only create repositories for the authenticated user `you`; \
         `me` is owned by someone else"
    );
}

#[test]
fn created_repositories_are_read_again() {
    assert!(matches!(after_creation(Ok(())).next, Next::Reread));
    let failed = after_creation(Err("no".to_string()));
    assert_eq!(failed.failures[0].operation, "create repository");
    assert_eq!(failed.failures[0].error, "no");

    let turn = after_reread(&api(), "me/r", &Ok(changed()), false);
    assert_eq!(told(&turn.notices), ["Created(\"me/r\")", "Warning(\"me/r\", \"w\")"]);
    assert!(matches!(turn.next, Next::Apply(_)));
    let turn = after_reread(&api(), "me/r", &Ok(plan(true)), false);
    assert_eq!(told(&turn.notices), ["Created(\"me/r\")", "UpToDate(\"me/r\")"]);

    let failed = after_reread(&api(), "me/r", &Err("gone".to_string()), false);
    assert!(failed.notices.is_empty());
    assert_eq!(failed.failures[0].operation, "read created repository");
    assert_eq!(failed.failures[0].error, "gone");
}

#[test]
fn the_user_is_needed_to_create() {
    assert!(creates_repositories(&vec![plan(true), plan(false)]));
    assert!(!creates_repositories(&vec![plan(true)]));
    assert!(!creates_repositories(&Vec::new()));
    assert_eq!(target(&plan(true)), "me/r");
}

#[test]
fn a_dry_run_only_shows_the_plans() {
    let plans = vec![changed(), plan(false)];
    let lines: Vec<String> =
        print_plan(&plans).iter().map(|line| format!("{line:?}")).collect();
    match start_run(&plans, true) {
        Course::Show(shown) => {
            let shown: Vec<String> = shown.iter().map(|line| format!("{line:?}")).collect();
            assert_eq!(shown, lines);
            assert_eq!(shown[0], "Repository(false, \"me/r\")");
        }
        other => panic!("{other:?}"),
    }
    assert!(matches!(start_run(&plans, false), Course::Reconcile { login: true }));
    assert!(matches!(start_run(&vec![changed()], false), Course::Reconcile { login: false }));
    match start_run(&Vec::new(), true) {
        Course::Show(shown) => assert!(matches!(shown[..], [Line::NoChanges])),
        other => panic!("{other:?}"),
    }
}

#[test]
fn failures_are_counted() {
    assert!(report_failures(&Vec::new()).is_ok());
    let failure = |operation: &str| Failure {
        operation: operation.to_string(),
        error: "no".to_string(),
    };
    let failures =
        vec![("me/a".to_string(), failure("x")), ("me/b".to_string(), failure("y"))];
    let (lines, summary) = report_failures(&failures).unwrap_err();
    assert_eq!(lines, ["me/a: x: no", "me/b: y: no"]);
    assert_eq!(summary, "2 operation(s) failed");
}

#[test]
fn tokens_come_from_the_argument_first() {
    let ok = |token: &str| Ok(token.to_string());
    assert_eq!(resolve_token(Some("a"), Some("b")), ok("a"));
    assert_eq!(resolve_token(Some(""), Some("b")), ok(""));
    assert_eq!(resolve_token(None, Some("b")), ok("b"));
    let missing = "no GitHub token found; set $GITHUB_TOKEN or pass --token".to_string();
    assert_eq!(resolve_token(None, Some("")), Err(missing.clone()));
    assert_eq!(resolve_token(None, None), Err(missing));
}

#[test]
fn a_flake_has_to_be_given() {
    assert_eq!(flake_reference(Some(".#")), Ok(".#".to_string()));
    assert_eq!(
        flake_reference(None),
        Err("no flake given; pass `--flake <REF>`".to_string())
    );
}

#[test]
fn the_endpoint_can_be_overridden() {
    assert_eq!(DEFAULT_BASE_URL, "https://api.github.com");
    assert_eq!(api_base(None), DEFAULT_BASE_URL);
    assert_eq!(api_base(Some("http://localhost")), "http://localhost");
}

#[test]
fn plans_are_shown_by_repository() {
    let created = RepoPlan {
        changes: vec![Change::new("repository", "create", None, "create".to_string())],
        ..plan(false)
    };
    let lines: Vec<String> = print_plan(&vec![plan(true), changed(), created])
        .iter()
        .map(|line| format!("{line:?}"))
        .collect();
    assert_eq!(
        lines,
        [
            "Repository(false, \"me/r\")",
            "Difference(\"topics\", \"(unset)\", \"t\")",
            "Difference(\"pull.auto_merge\", \"false\", \"true\")",
            "Repository(true, \"me/r\")",
            "Difference(\"repository.create\", \"(unset)\", \"create\")",
            "Blank",
        ]
    );
    assert!(matches!(print_plan(&vec![plan(true)])[..], [Line::NoChanges]));
    assert!(matches!(print_plan(&Vec::new())[..], [Line::NoChanges]));
}
