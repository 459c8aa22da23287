//! The decisions of a run: what is done next with each repository, and what is
//! said about it.

use vstd::prelude::*;
use vstd::string::*;

use crate::apply::{
    failed, failure_views, operation_views, operations, planned_operations, sync_repo, Failure,
    FailureView, Operation, OperationView,
};
use crate::display::{line_views, print_plan, shown_plan, Line, LineView};
use crate::github::DEFAULT_BASE_URL;
use crate::plan::{opt_str, plan_views, RepoPlan, RepoPlanView};
use crate::requests::HttpApi;
use crate::text::{decimal, is_empty, number_text, same, texts};

verus! {

/// Something to tell while a run goes on.
#[derive(Debug)]
pub enum Notice {
    /// The repository was created.
    Created(String),
    /// A declared setting of the repository cannot be applied yet.
    Warning(String, String),
    /// Nothing differs.
    UpToDate(String),
    /// Every operation on the repository succeeded.
    Applied(String),
}

/// The model of a notice.
pub enum NoticeView {
    Created(Seq<char>),
    Warning(Seq<char>, Seq<char>),
    UpToDate(Seq<char>),
    Applied(Seq<char>),
}

impl View for Notice {
    type V = NoticeView;

    open spec fn view(&self) -> NoticeView {
        match self {
            Notice::Created(target) => NoticeView::Created(target@),
            Notice::Warning(target, warning) => NoticeView::Warning(target@, warning@),
            Notice::UpToDate(target) => NoticeView::UpToDate(target@),
            Notice::Applied(target) => NoticeView::Applied(target@),
        }
    }
}

/// What is done next with a repository.
#[derive(Debug)]
pub enum Next {
    /// Create it as its plan says, and report how that went.
    Create,
    /// Read it again and plan anew, and report how that went.
    Reread,
    /// Attempt every operation, and report how each of them went.
    Apply(Vec<Operation>),
    /// Nothing: the repository is done.
    Finish,
}

/// The model of what is done next.
pub enum NextView {
    Create,
    Reread,
    Apply(Seq<OperationView>),
    Finish,
}

impl View for Next {
    type V = NextView;

    open spec fn view(&self) -> NextView {
        match self {
            Next::Create => NextView::Create,
            Next::Reread => NextView::Reread,
            Next::Apply(operations) => NextView::Apply(operation_views(operations@)),
            Next::Finish => NextView::Finish,
        }
    }
}

/// One turn of a run: what to tell, what failed, and what is done next.
#[derive(Debug)]
pub struct Turn {
    pub notices: Vec<Notice>,
    pub failures: Vec<Failure>,
    pub next: Next,
}

/// The model of a turn.
pub struct TurnView {
    pub notices: Seq<NoticeView>,
    pub failures: Seq<FailureView>,
    pub next: NextView,
}

/// The models of some notices.
pub open spec fn notice_views(notices: Seq<Notice>) -> Seq<NoticeView> {
    notices.map_values(|notice: Notice| notice@)
}

impl View for Turn {
    type V = TurnView;

    open spec fn view(&self) -> TurnView {
        TurnView {
            notices: notice_views(self.notices@),
            failures: failure_views(self.failures@),
            next: self.next@,
        }
    }
}

/// What a run does with its plans.
#[derive(Debug)]
pub enum Course {
    /// Show the lines, and nothing else.
    Show(Vec<Line>),
    /// Go through the turns of every repository; `login` says whether the
    /// authenticated user has to be known for that.
    Reconcile { login: bool },
}

/// The model of what a run does with its plans.
pub enum CourseView {
    Show(Seq<LineView>),
    Reconcile { login: bool },
}

impl View for Course {
    type V = CourseView;

    open spec fn view(&self) -> CourseView {
        match self {
            Course::Show(lines) => CourseView::Show(line_views(lines@)),
            Course::Reconcile { login } => CourseView::Reconcile { login: *login },
        }
    }
}

// --- Models -------------------------------------------------------------

/// What a run does with its plans: a dry run shows them, any other goes
/// through the repositories. The authenticated user has to be known only where
/// a repository may be created.
pub open spec fn course_of(plans: Seq<RepoPlanView>, dry_run: bool) -> CourseView {
    if dry_run {
        CourseView::Show(shown_plan(plans))
    } else {
        CourseView::Reconcile {
            login: exists|i: int| 0 <= i < plans.len() && !(#[trigger] plans[i]).exists,
        }
    }
}

/// What is done first with a repository: nothing where the plans are shown.
pub open spec fn first_step(
    course: CourseView,
    base: Seq<char>,
    plan: RepoPlanView,
    login: Option<Seq<char>>,
) -> NextView {
    match course {
        CourseView::Show(_) => NextView::Finish,
        CourseView::Reconcile { .. } => opening(base, plan, login, false).next,
    }
}

/// How a repository is named in messages.
pub open spec fn target_of(plan: RepoPlanView) -> Seq<char> {
    plan.owner + "/"@ + plan.repo
}

/// A turn in which nothing is told.
pub open spec fn silent(next: NextView) -> TurnView {
    TurnView { notices: Seq::empty(), failures: Seq::empty(), next: next }
}

/// A turn that ends with a failure.
pub open spec fn stopped(operation: Seq<char>, error: Seq<char>) -> TurnView {
    TurnView {
        notices: Seq::empty(),
        failures: seq![FailureView { operation: operation, error: error }],
        next: NextView::Finish,
    }
}

/// A notice, unless the run is quiet.
pub open spec fn told(quiet: bool, notice: NoticeView) -> Seq<NoticeView> {
    if quiet {
        Seq::empty()
    } else {
        seq![notice]
    }
}

/// The warnings of a plan, unless the run is quiet.
pub open spec fn told_warnings(quiet: bool, plan: RepoPlanView) -> Seq<NoticeView> {
    if quiet {
        Seq::empty()
    } else {
        plan.warnings.map_values(
            |warning: Seq<char>| NoticeView::Warning(target_of(plan), warning),
        )
    }
}

/// The turn for a repository that exists: its operations, if anything differs.
pub open spec fn reconciling(base: Seq<char>, plan: RepoPlanView, quiet: bool) -> TurnView {
    if plan.changes.len() == 0 {
        TurnView {
            notices: told_warnings(quiet, plan) + told(
                quiet,
                NoticeView::UpToDate(target_of(plan)),
            ),
            failures: Seq::empty(),
            next: NextView::Finish,
        }
    } else {
        TurnView {
            notices: told_warnings(quiet, plan),
            failures: Seq::empty(),
            next: NextView::Apply(planned_operations(base, plan)),
        }
    }
}

/// Why a repository is not created for somebody else.
pub open spec fn foreign_owner(login: Seq<char>, owner: Seq<char>) -> Seq<char> {
    "`nixit` can only create repositories for the authenticated user `"@ + login + "`; `"@ + owner
        + "` is owned by someone else"@
}

/// The first turn for a repository. One that does not exist is created, for
/// the authenticated user only.
pub open spec fn opening(
    base: Seq<char>,
    plan: RepoPlanView,
    login: Option<Seq<char>>,
    quiet: bool,
) -> TurnView {
    if plan.exists {
        reconciling(base, plan, quiet)
    } else if plan.owner != login->0 {
        stopped("create repository"@, foreign_owner(login->0, plan.owner))
    } else {
        silent(NextView::Create)
    }
}

/// The turn after the creation of a repository: it is read again, so that the
/// settings that are applied reflect what was created.
pub open spec fn creating(outcome: Result<(), String>) -> TurnView {
    match outcome {
        Ok(_) => silent(NextView::Reread),
        Err(error) => stopped("create repository"@, error@),
    }
}

/// The turn after a created repository was read again.
pub open spec fn rereading(
    base: Seq<char>,
    target: Seq<char>,
    fresh: Result<RepoPlan, String>,
    quiet: bool,
) -> TurnView {
    match fresh {
        Ok(plan) => {
            let turn = reconciling(base, plan@, quiet);
            TurnView {
                notices: told(quiet, NoticeView::Created(target)) + turn.notices,
                failures: turn.failures,
                next: turn.next,
            }
        },
        Err(error) => stopped("read created repository"@, error@),
    }
}

/// The turn after the operations on a repository were attempted.
pub open spec fn applying(
    target: Seq<char>,
    failures: Seq<FailureView>,
    quiet: bool,
) -> TurnView {
    TurnView {
        notices: if failures.len() == 0 {
            told(quiet, NoticeView::Applied(target))
        } else {
            Seq::empty()
        },
        failures: failures,
        next: NextView::Finish,
    }
}

/// A failure of a run: the repository, the operation and the error.
pub open spec fn failure_line(target: Seq<char>, failure: FailureView) -> Seq<char> {
    target + ": "@ + failure.operation + ": "@ + failure.error
}

/// The lines for the failures of a run.
pub open spec fn failure_lines(failures: Seq<(String, Failure)>) -> Seq<Seq<char>> {
    failures.map_values(|entry: (String, Failure)| failure_line(entry.0@, entry.1@))
}

/// What a run with failures ends with.
pub open spec fn failure_summary(count: nat) -> Seq<char> {
    decimal(count) + " operation(s) failed"@
}

/// How a run ends: with the lines for its failures and their summary, or with
/// nothing where there are none.
pub open spec fn run_report(failures: Seq<(String, Failure)>) -> Option<
    (Seq<Seq<char>>, Seq<char>),
> {
    if failures.len() == 0 {
        None
    } else {
        Some((failure_lines(failures), failure_summary(failures.len())))
    }
}

/// The endpoint: the one in the environment, or else that of GitHub.
pub open spec fn endpoint_of(environment: Option<Seq<char>>) -> Seq<char> {
    match environment {
        Some(url) => url,
        None => DEFAULT_BASE_URL@,
    }
}

/// The flake reference to read, or why there is none.
pub open spec fn reference_of(flake: Option<Seq<char>>) -> Result<Seq<char>, Seq<char>> {
    match flake {
        Some(reference) => Ok(reference),
        None => Err("no flake given; pass `--flake <REF>`"@),
    }
}

/// The token: the one that was given, or else the one in the environment if it
/// is not empty.
pub open spec fn token_of(
    given: Option<Seq<char>>,
    environment: Option<Seq<char>>,
) -> Option<Seq<char>> {
    if given is Some {
        given
    } else if environment is Some && environment->0.len() > 0 {
        environment
    } else {
        None
    }
}

// --- Operations ----------------------------------------------------------

/// How a repository is named in messages.
pub fn target(plan: &RepoPlan) -> (text: String)
    ensures
        text@ == target_of(plan@),
{
    plan.owner.clone().concat("/").concat(plan.repo.as_str())
}

/// A turn in which nothing is told.
fn silent_turn(next: Next) -> (turn: Turn)
    ensures
        turn@ == silent(next@),
{
    let turn = Turn { notices: Vec::new(), failures: Vec::new(), next: next };
    assert(turn@.notices =~= Seq::empty());
    assert(turn@.failures =~= Seq::empty());
    turn
}

/// A turn that ends with a failure.
fn stopped_turn(operation: &str, error: String) -> (turn: Turn)
    ensures
        turn@ == stopped(operation@, error@),
{
    let mut failures: Vec<Failure> = Vec::new();
    let ghost view = FailureView { operation: operation@, error: error@ };
    failures.push(Failure { operation: operation.to_owned(), error: error });
    let turn = Turn { notices: Vec::new(), failures: failures, next: Next::Finish };
    assert(turn@.notices =~= Seq::empty());
    assert(turn@.failures =~= seq![view]);
    turn
}

/// Adds a notice, unless the run is quiet.
fn tell(notices: &mut Vec<Notice>, quiet: bool, notice: Notice)
    ensures
        notice_views(final(notices)@) == notice_views(old(notices)@) + told(quiet, notice@),
{
    let ghost start = notice_views(notices@);
    let ghost view = notice@;
    if !quiet {
        notices.push(notice);
    }
    assert(notice_views(notices@) =~= start + told(quiet, view));
}

/// Adds the warnings of a plan, unless the run is quiet.
fn tell_warnings(notices: &mut Vec<Notice>, quiet: bool, plan: &RepoPlan)
    ensures
        notice_views(final(notices)@) == notice_views(old(notices)@) + told_warnings(quiet, plan@),
{
    let ghost start = notice_views(notices@);
    if quiet {
        assert(start + told_warnings(quiet, plan@) =~= start);
        return;
    }
    let ghost all = told_warnings(quiet, plan@);
    let mut i: usize = 0;
    assert(start + all.take(0) =~= start);
    while i < plan.warnings.len()
        invariant
            i <= plan.warnings@.len(),
            !quiet,
            all == told_warnings(quiet, plan@),
            notice_views(notices@) == start + all.take(i as int),
        decreases plan.warnings@.len() - i,
    {
        let notice = Notice::Warning(target(plan), plan.warnings[i].clone());
        assert(all[i as int] == notice@);
        let ghost notices_before = notice_views(notices@);
        notices.push(notice);
        assert(notice_views(notices@) =~= notices_before.push(notice@));
        assert(notice_views(notices@) =~= start + all.take(i + 1));
        i = i + 1;
    }
    assert(all.take(i as int) =~= all);
}

/// The turn for a repository that exists.
fn reconcile(api: &HttpApi, plan: &RepoPlan, notices: Vec<Notice>, quiet: bool) -> (turn: Turn)
    ensures
        turn@ == (TurnView {
            notices: notice_views(notices@) + reconciling(api.base@, plan@, quiet).notices,
            ..reconciling(api.base@, plan@, quiet)
        }),
{
    let ghost start = notice_views(notices@);
    let mut notices = notices;
    tell_warnings(&mut notices, quiet, plan);
    let failures: Vec<Failure> = Vec::new();
    assert(failure_views(failures@) =~= Seq::empty());
    if !plan.has_changes() {
        tell(&mut notices, quiet, Notice::UpToDate(target(plan)));
        assert(notice_views(notices@) =~= start + reconciling(api.base@, plan@, quiet).notices);
        return Turn { notices: notices, failures: failures, next: Next::Finish };
    }
    Turn { notices: notices, failures: failures, next: Next::Apply(operations(api, plan)) }
}

/// The first turn for a repository.
///
/// Only the authenticated user's own repositories can be created, so the user
/// has to be known where a repository is missing.
pub fn open_repository(api: &HttpApi, plan: &RepoPlan, login: Option<&str>, quiet: bool) -> (turn:
    Turn)
    requires
        plan.exists || login is Some,
    ensures
        turn@ == opening(api.base@, plan@, opt_str(login), quiet),
{
    if plan.exists {
        let turn = reconcile(api, plan, Vec::new(), quiet);
        assert(turn@.notices =~= reconciling(api.base@, plan@, quiet).notices);
        return turn;
    }
    let login = match login {
        Some(l) => l,
        None => "",
    };
    if !same(plan.owner.as_str(), login) {
        let error =
            "`nixit` can only create repositories for the authenticated user `".to_owned().concat(
            login,
        ).concat("`; `").concat(plan.owner.as_str()).concat("` is owned by someone else");
        return stopped_turn("create repository", error);
    }
    silent_turn(Next::Create)
}

/// The turn after the creation of a repository.
pub fn after_creation(outcome: Result<(), String>) -> (turn: Turn)
    ensures
        turn@ == creating(outcome),
{
    match outcome {
        Ok(_) => silent_turn(Next::Reread),
        Err(error) => stopped_turn("create repository", error),
    }
}

/// The turn after a created repository was read again and planned anew.
pub fn after_reread(
    api: &HttpApi,
    target: &str,
    fresh: &Result<RepoPlan, String>,
    quiet: bool,
) -> (turn: Turn)
    ensures
        turn@ == rereading(api.base@, target@, *fresh, quiet),
{
    match fresh {
        Ok(plan) => {
            let mut notices: Vec<Notice> = Vec::new();
            tell(&mut notices, quiet, Notice::Created(target.to_owned()));
            assert(notice_views(notices@) =~= told(quiet, NoticeView::Created(target@)));
            reconcile(api, plan, notices, quiet)
        },
        Err(error) => stopped_turn("read created repository", error.clone()),
    }
}

/// The turn after the operations on a repository were attempted.
pub fn after_operations(
    target: &str,
    operations: &Vec<Operation>,
    outcomes: &Vec<Result<(), String>>,
    quiet: bool,
) -> (turn: Turn)
    requires
        outcomes@.len() == operations@.len(),
    ensures
        turn@ == applying(
            target@,
            failed(operation_views(operations@), outcomes@),
            quiet,
        ),
{
    let failures = sync_repo(operations, outcomes);
    let mut notices: Vec<Notice> = Vec::new();
    assert(notice_views(notices@) =~= Seq::empty());
    assert(failure_views(failures@).len() == failures@.len());
    if failures.len() == 0 {
        tell(&mut notices, quiet, Notice::Applied(target.to_owned()));
        assert(notice_views(notices@) =~= told(quiet, NoticeView::Applied(target@)));
    }
    Turn { notices: notices, failures: failures, next: Next::Finish }
}

/// Whether the authenticated user has to be known before anything is applied:
/// only where a repository may be created.
pub fn creates_repositories(plans: &Vec<RepoPlan>) -> (r: bool)
    ensures
        r == exists|i: int| 0 <= i < plans@.len() && !(#[trigger] plans@[i]).exists,
{
    let mut i: usize = 0;
    while i < plans.len()
        invariant
            i <= plans@.len(),
            forall|j: int| 0 <= j < i ==> (#[trigger] plans@[j]).exists,
        decreases plans@.len() - i,
    {
        if !plans[i].exists {
            return true;
        }
        i = i + 1;
    }
    false
}

/// What a run does with its plans. A dry run shows what `print_plan` gives and
/// asks for no operation on any repository.
pub fn start_run(plans: &Vec<RepoPlan>, dry_run: bool) -> (course: Course)
    ensures
        course@ == course_of(plan_views(plans@), dry_run),
        dry_run ==> course@ == CourseView::Show(shown_plan(plan_views(plans@))),
        dry_run ==> forall|base: Seq<char>, plan: RepoPlanView, login: Option<Seq<char>>|
            #[trigger] first_step(course@, base, plan, login) == NextView::Finish,
{
    if dry_run {
        return Course::Show(print_plan(plans));
    }
    let login = creates_repositories(plans);
    proof {
        let views = plan_views(plans@);
        assert forall|i: int| 0 <= i < plans@.len() implies (#[trigger] views[i]).exists
            == plans@[i].exists by {}
        if login {
            let i = choose|i: int| 0 <= i < plans@.len() && !(#[trigger] plans@[i]).exists;
            assert(!views[i].exists);
        }
    }
    Course::Reconcile { login: login }
}

/// How a run ends: the failures, one line each, and a summary of them, or
/// nothing where there are none.
pub fn report_failures(failures: &Vec<(String, Failure)>) -> (report: Result<
    (),
    (Vec<String>, String),
>)
    ensures
        match report {
            Ok(()) => failures@.len() == 0,
            Err((lines, summary)) => failures@.len() > 0 && texts(lines@) == failure_lines(
                failures@,
            ) && summary@ == failure_summary(failures@.len()),
        },
        run_report(failures@) == (match report {
            Ok(()) => None,
            Err((lines, summary)) => Some((texts(lines@), summary@)),
        }),
{
    if failures.len() == 0 {
        return Ok(());
    }
    let mut lines: Vec<String> = Vec::new();
    let mut i: usize = 0;
    while i < failures.len()
        invariant
            i <= failures@.len(),
            lines@.len() == i,
            forall|j: int|
                0 <= j < i ==> (#[trigger] lines@[j])@ == failure_line(
                    failures@[j].0@,
                    failures@[j].1@,
                ),
        decreases failures@.len() - i,
    {
        let entry = &failures[i];
        lines.push(
            entry.0.clone().concat(": ").concat(entry.1.operation.as_str()).concat(": ").concat(
                entry.1.error.as_str(),
            ),
        );
        i = i + 1;
    }
    assert(texts(lines@) =~= failure_lines(failures@));
    let summary = number_text(failures.len() as u64).concat(" operation(s) failed");
    Err((lines, summary))
}

/// The flake reference to read, or why there is none.
pub fn flake_reference(flake: Option<&str>) -> (reference: Result<String, String>)
    ensures
        match reference {
            Ok(r) => opt_str(flake) == Some(r@),
            Err(message) => flake is None && message@
                == "no flake given; pass `--flake <REF>`"@,
        },
        reference_of(opt_str(flake)) == (match reference {
            Ok(r) => Ok(r@),
            Err(message) => Err(message@),
        }),
{
    match flake {
        Some(reference) => Ok(reference.to_owned()),
        None => Err("no flake given; pass `--flake <REF>`".to_owned()),
    }
}

/// The token to use, or why there is none. `given` comes before the token in
/// the environment, which does not count where it is empty.
pub fn resolve_token(given: Option<&str>, environment: Option<&str>) -> (token: Result<
    String,
    String,
>)
    ensures
        match token {
            Ok(t) => token_of(opt_str(given), opt_str(environment)) == Some(t@),
            Err(message) => token_of(opt_str(given), opt_str(environment)) is None && message@
                == "no GitHub token found; set $GITHUB_TOKEN or pass --token"@,
        },
{
    if let Some(token) = given {
        return Ok(token.to_owned());
    }
    if let Some(token) = environment {
        if !is_empty(token) {
            return Ok(token.to_owned());
        }
    }
    Err("no GitHub token found; set $GITHUB_TOKEN or pass --token".to_owned())
}

/// The endpoint to talk to: the one in the environment, or else the default.
pub fn api_base(environment: Option<&str>) -> (base: String)
    ensures
        base@ == (match environment {
            Some(url) => url@,
            None => DEFAULT_BASE_URL@,
        }),
        base@ == endpoint_of(opt_str(environment)),
{
    match environment {
        Some(url) => url.to_owned(),
        None => DEFAULT_BASE_URL.to_owned(),
    }
}

} // verus!
