//! Laws of a run: what is done next with a repository, and what is told and
//! shown of it.

use vstd::prelude::*;

use crate::apply::{planned_operations, Failure, FailureView};
use crate::change::ChangeView;
use crate::cli::{
    applying, creating, endpoint_of, failure_lines, failure_summary, opening, reference_of,
    rereading, run_report, target_of, token_of, NextView, NoticeView, TurnView,
};
use crate::display::{all_lines, difference_line, repository_lines, shown_plan, LineView};
use crate::plan::{RepoPlan, RepoPlanView};
use crate::text::decimal;

verus! {

/// How a repository is called.
pub open spec fn full_name(plan: RepoPlanView) -> Seq<char> {
    plan.owner + "/"@ + plan.repo
}

/// Whether a turn goes on with a repository that is there: every operation of
/// its plan is attempted, or nothing where nothing differs.
pub open spec fn goes_on(turn: TurnView, base: Seq<char>, plan: RepoPlanView) -> bool {
    &&& turn.failures.len() == 0
    &&& if plan.changes.len() > 0 {
        turn.next == NextView::Apply(planned_operations(base, plan))
    } else {
        turn.next is Finish
    }
}

/// Whether some notices are the warnings of a plan, and that the repository is
/// up to date where nothing differs.
pub open spec fn tells_of(notices: Seq<NoticeView>, plan: RepoPlanView) -> bool {
    let n = plan.warnings.len() as int;
    &&& notices.len() == n + if plan.changes.len() > 0 {
        0int
    } else {
        1
    }
    &&& forall|i: int|
        0 <= i < n ==> #[trigger] notices[i] == NoticeView::Warning(
            full_name(plan),
            plan.warnings[i],
        )
    &&& plan.changes.len() == 0 ==> notices[n] == NoticeView::UpToDate(full_name(plan))
}

/// A repository that is there goes on: its differences are applied, and its
/// warnings are told.
pub proof fn law_repositories_go_on(
    base: Seq<char>,
    plan: RepoPlanView,
    login: Option<Seq<char>>,
)
    requires
        plan.exists,
    ensures
        goes_on(opening(base, plan, login, true), base, plan),
        goes_on(opening(base, plan, login, false), base, plan),
        opening(base, plan, login, true).notices.len() == 0,
        tells_of(opening(base, plan, login, false).notices, plan),
{
}

/// A repository that is missing is created where it is the user's own. Else
/// that fails, and says who owns what.
pub proof fn law_missing_repositories(
    base: Seq<char>,
    plan: RepoPlanView,
    login: Seq<char>,
    quiet: bool,
)
    requires
        !plan.exists,
    ensures
        ({
            let turn = opening(base, plan, Some(login), quiet);
            &&& turn.notices.len() == 0
            &&& if plan.owner == login {
                turn.next is Create && turn.failures.len() == 0
            } else {
                &&& turn.next is Finish
                &&& turn.failures.len() == 1
                &&& turn.failures[0].operation == "create repository"@
                &&& turn.failures[0].error
                    == "`nixit` can only create repositories for the authenticated user `"@ + login
                    + "`; `"@ + plan.owner + "` is owned by someone else"@
            }
        }),
{
}

/// Whether a turn ends the work on a repository with one failure.
pub open spec fn fails(turn: TurnView, operation: Seq<char>, error: Seq<char>) -> bool {
    &&& turn.next is Finish
    &&& turn.notices.len() == 0
    &&& turn.failures.len() == 1
    &&& turn.failures[0].operation == operation
    &&& turn.failures[0].error == error
}

/// A repository that was created is read again and then goes on, and that it
/// was created is told first. Where a step fails, that is the end of it.
pub proof fn law_created_repositories(
    base: Seq<char>,
    target: Seq<char>,
    created: Result<(), String>,
    fresh: Result<RepoPlan, String>,
)
    ensures
        match created {
            Ok(_) => creating(created).next is Reread && creating(created).notices.len() == 0
                && creating(created).failures.len() == 0,
            Err(error) => fails(creating(created), "create repository"@, error@),
        },
        match fresh {
            Ok(plan) => {
                let turn = rereading(base, target, fresh, false);
                &&& goes_on(turn, base, plan@)
                &&& goes_on(rereading(base, target, fresh, true), base, plan@)
                &&& turn.notices.len() > 0
                &&& turn.notices[0] == NoticeView::Created(target)
                &&& tells_of(turn.notices.skip(1), plan@)
                &&& rereading(base, target, fresh, true).notices.len() == 0
            },
            Err(error) => fails(
                rereading(base, target, fresh, false),
                "read created repository"@,
                error@,
            ) && fails(
                rereading(base, target, fresh, true),
                "read created repository"@,
                error@,
            ),
        },
{
    if let Ok(plan) = fresh {
        let turn = rereading(base, target, fresh, false);
        let notices = turn.notices.skip(1);
        assert(forall|i: int| 0 <= i < notices.len() ==> #[trigger] notices[i] == turn.notices[i
            + 1]);
    }
}

/// After the operations were attempted the work on a repository is over. That
/// they were applied is told where none failed, and each failure is kept.
pub proof fn law_after_the_operations(target: Seq<char>, failures: Seq<FailureView>)
    ensures
        ({
            let turn = applying(target, failures, false);
            &&& turn.next is Finish
            &&& turn.failures == failures
            &&& applying(target, failures, true).next is Finish
            &&& applying(target, failures, true).failures == failures
            &&& applying(target, failures, true).notices.len() == 0
            &&& if failures.len() == 0 {
                turn.notices == seq![NoticeView::Applied(target)]
            } else {
                turn.notices.len() == 0
            }
        }),
{
}

/// A repository is called by its owner and its name.
pub proof fn law_repositories_are_called_in_full(plan: RepoPlanView)
    ensures
        target_of(plan) == plan.owner + ("/"@ + plan.repo),
{
    assert(target_of(plan) =~= plan.owner + ("/"@ + plan.repo));
}

/// Each failure is told on a line of its own that names the repository, the
/// operation and the error, and the summary counts them.
pub proof fn law_failures_are_told(failures: Seq<(String, Failure)>, count: nat)
    ensures
        failure_lines(failures).len() == failures.len(),
        forall|i: int|
            0 <= i < failures.len() ==> #[trigger] failure_lines(failures)[i] == failures[i].0@
                + ": "@ + failures[i].1.operation@ + ": "@ + failures[i].1.error@,
        failure_summary(count) == decimal(count) + " operation(s) failed"@,
{
}

/// A run ends with a report exactly where something failed.
pub proof fn law_runs_end_with_their_failures(failures: Seq<(String, Failure)>)
    ensures
        match run_report(failures) {
            Some((lines, summary)) => {
                &&& failures.len() > 0
                &&& lines.len() == failures.len()
                &&& lines == failure_lines(failures)
                &&& summary == decimal(failures.len()) + " operation(s) failed"@
            },
            None => failures.len() == 0,
        },
{
}

/// The endpoint in the environment comes first, and that of GitHub is used
/// without one. A flake has to be given.
pub proof fn law_endpoints_and_references(
    environment: Option<Seq<char>>,
    flake: Option<Seq<char>>,
)
    ensures
        environment is Some ==> endpoint_of(environment) == environment->0,
        environment is None ==> endpoint_of(environment) == "https://api.github.com"@,
        flake is Some ==> reference_of(flake) == Ok::<Seq<char>, Seq<char>>(flake->0),
        flake is None ==> reference_of(flake) == Err::<Seq<char>, Seq<char>>(
            "no flake given; pass `--flake <REF>`"@,
        ),
{
}

/// The token is the one that was given, even an empty one, and else the one in
/// the environment unless that is empty.
pub proof fn law_tokens(given: Option<Seq<char>>, environment: Option<Seq<char>>)
    ensures
        given is Some ==> token_of(given, environment) == given,
        given is None && environment is Some && environment->0.len() > 0 ==> token_of(
            given,
            environment,
        ) == environment,
        given is None && (environment is None || environment->0.len() == 0) ==> token_of(
            given,
            environment,
        ) is None,
{
}

// --- What is shown ------------------------------------------------------------------

/// A difference is shown with where it is, what was and what will be; where
/// nothing was set, that is said.
pub proof fn law_differences_are_shown(change: ChangeView)
    ensures
        match difference_line(change) {
            LineView::Difference(place, from, to) => {
                &&& change.scope.len() == 0 ==> place == change.field
                &&& change.scope.len() > 0 ==> place == change.scope + ("."@ + change.field)
                &&& change.from is Some ==> from == change.from->0
                &&& change.from is None ==> from == "(unset)"@
                &&& to == change.to
            },
            _ => false,
        },
{
    if change.scope.len() > 0 {
        assert(change.scope + "."@ + change.field =~= change.scope + ("."@ + change.field));
    }
}

/// A repository is shown where something differs: first its name, marked as
/// created or changed, and then each difference in its order.
pub proof fn law_repositories_are_shown(plan: RepoPlanView)
    ensures
        ({
            let lines = repository_lines(plan);
            if plan.changes.len() == 0 {
                lines.len() == 0
            } else {
                &&& lines.len() == plan.changes.len() + 1
                &&& lines[0] == LineView::Repository(!plan.exists, full_name(plan))
                &&& forall|i: int|
                    0 <= i < plan.changes.len() ==> lines[i + 1] == difference_line(
                        #[trigger] plan.changes[i],
                    )
            }
        }),
{
}

/// One more repository is shown after all others, and the whole ends with an
/// empty line, or says that there are no changes.
pub proof fn law_plans_are_shown_in_order(plans: Seq<RepoPlanView>, plan: RepoPlanView)
    ensures
        all_lines(plans.push(plan)) == all_lines(plans) + repository_lines(plan),
        all_lines(Seq::empty()).len() == 0,
        all_lines(plans).len() > 0 ==> shown_plan(plans).drop_last() == all_lines(plans)
            && shown_plan(plans).last() is Blank,
        all_lines(plans).len() == 0 ==> shown_plan(plans) == seq![LineView::NoChanges],
{
    assert(plans.push(plan).drop_last() =~= plans);
    if all_lines(plans).len() > 0 {
        assert(shown_plan(plans).drop_last() =~= all_lines(plans));
    }
}

} // verus!
