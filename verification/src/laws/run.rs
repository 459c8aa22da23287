//! Laws of checking a configuration, of a run and of what it shows.

use vstd::prelude::*;

use crate::cli::{
    applying, course_of, first_step, foreign_owner, opening, rereading, stopped, CourseView,
};
use crate::apply::FailureView;
use crate::config::{Config, RepoConfig};
use crate::display::{all_lines, repository_lines, shown_plan, LineView};
use crate::plan::{RepoPlan, RepoPlanView};
use crate::validate::{config_rejection, first_rejection, repo_rejection, ConfigErrorView};

verus! {

/// No check rejects exactly where each of them accepts.
pub proof fn lemma_none_rejected(outcomes: Seq<Option<ConfigErrorView>>)
    ensures
        first_rejection(outcomes) is None <==> forall|i: int|
            0 <= i < outcomes.len() ==> #[trigger] outcomes[i] is None,
    decreases outcomes.len(),
{
    if outcomes.len() > 0 {
        let rest = outcomes.drop_first();
        lemma_none_rejected(rest);
        assert(forall|i: int| 0 <= i < rest.len() ==> #[trigger] rest[i] == outcomes[i + 1]);
        assert forall|i: int| 1 <= i < outcomes.len() implies #[trigger] outcomes[i] == rest[i
            - 1] by {}
    }
}

/// A configuration is accepted exactly where it declares a repository and each
/// of its repositories is accepted by itself.
pub proof fn law_accepted_where_every_repository_is(config: Config)
    ensures
        config_rejection(config) is None <==> config.repos@.len() > 0 && forall|i: int|
            0 <= i < config.repos@.len() ==> repo_rejection(
                (#[trigger] config.repos@[i]).0,
                config.repos@[i].1,
            ) is None,
{
    let outcomes = config.repos@.map_values(
        |entry: (Seq<char>, RepoConfig)| repo_rejection(entry.0, entry.1),
    );
    lemma_none_rejected(outcomes);
    assert(forall|i: int|
        0 <= i < config.repos@.len() ==> #[trigger] outcomes[i] == repo_rejection(
            config.repos@[i].0,
            config.repos@[i].1,
        ));
    assert(forall|i: int|
        0 <= i < config.repos@.len() ==> outcomes[i] == repo_rejection(
            (#[trigger] config.repos@[i]).0,
            config.repos@[i].1,
        ));
}

/// Repositories are created for the authenticated user only. A missing
/// repository of somebody else is reported as a failure, and nothing is done
/// for it.
pub proof fn law_creates_only_for_the_user(
    base: Seq<char>,
    plan: RepoPlanView,
    login: Seq<char>,
    quiet: bool,
)
    ensures
        opening(base, plan, Some(login), quiet).next is Create <==> !plan.exists && plan.owner
            == login,
        !plan.exists && plan.owner != login ==> opening(base, plan, Some(login), quiet) == stopped(
            "create repository"@,
            foreign_owner(login, plan.owner),
        ),
{
}

/// A quiet run tells nothing, and what it does is what a run that is not quiet
/// does.
pub proof fn law_quiet_runs_tell_nothing(
    base: Seq<char>,
    plan: RepoPlanView,
    login: Option<Seq<char>>,
    target: Seq<char>,
    fresh: Result<RepoPlan, String>,
    failures: Seq<FailureView>,
)
    ensures
        opening(base, plan, login, true).notices.len() == 0,
        opening(base, plan, login, true).next == opening(base, plan, login, false).next,
        opening(base, plan, login, true).failures == opening(base, plan, login, false).failures,
        rereading(base, target, fresh, true).notices.len() == 0,
        rereading(base, target, fresh, true).next == rereading(base, target, fresh, false).next,
        rereading(base, target, fresh, true).failures == rereading(
            base,
            target,
            fresh,
            false,
        ).failures,
        applying(target, failures, true).notices.len() == 0,
        applying(target, failures, true).failures == applying(target, failures, false).failures,
{
}

/// A dry run shows the plans and does nothing with any repository. Any other
/// run opens every repository, and knows the authenticated user where one is
/// missing.
pub proof fn law_dry_runs_do_nothing(
    plans: Seq<RepoPlanView>,
    index: int,
    base: Seq<char>,
    login: Option<Seq<char>>,
)
    requires
        0 <= index < plans.len(),
    ensures
        course_of(plans, true) == CourseView::Show(shown_plan(plans)),
        first_step(course_of(plans, true), base, plans[index], login) is Finish,
        first_step(course_of(plans, false), base, plans[index], login) == opening(
            base,
            plans[index],
            login,
            false,
        ).next,
        course_of(plans, false) == (CourseView::Reconcile { login: false })
            ==> plans[index].exists,
        !plans[index].exists ==> course_of(plans, false) == (CourseView::Reconcile { login: true }),
        (forall|i: int| 0 <= i < plans.len() ==> (#[trigger] plans[i]).exists) ==> course_of(
            plans,
            false,
        ) == (CourseView::Reconcile { login: false }),
{
}

/// "No changes." is shown exactly where no plan has a difference.
pub proof fn law_no_changes_shown_where_nothing_differs(plans: Seq<RepoPlanView>)
    ensures
        shown_plan(plans) == seq![LineView::NoChanges] <==> forall|i: int|
            0 <= i < plans.len() ==> (#[trigger] plans[i]).changes.len() == 0,
{
    lemma_lines(plans);
    let lines = all_lines(plans);
    if lines.len() > 0 {
        assert(shown_plan(plans).len() == lines.len() + 1);
        assert(seq![LineView::NoChanges].len() == 1);
    }
}

proof fn lemma_lines(plans: Seq<RepoPlanView>)
    ensures
        all_lines(plans).len() == 0 <==> forall|i: int|
            0 <= i < plans.len() ==> (#[trigger] plans[i]).changes.len() == 0,
    decreases plans.len(),
{
    if plans.len() > 0 {
        let rest = plans.drop_last();
        lemma_lines(rest);
        assert(forall|i: int| 0 <= i < rest.len() ==> #[trigger] rest[i] == plans[i]);
        assert(forall|i: int| 0 <= i < rest.len() ==> rest[i] == #[trigger] plans[i]);
        assert(plans[plans.len() - 1] == plans.last());
        assert(repository_lines(plans.last()).len() == 0 <==> plans.last().changes.len() == 0);
    }
}

} // verus!
