//! Human-readable output of a dry run.

use vstd::prelude::*;
use vstd::string::*;

use crate::change::{Change, ChangeView};
use crate::cli::{target, target_of};
use crate::plan::{plan_views, RepoPlan, RepoPlanView};
use crate::text::is_empty;

verus! {

/// A line of a shown plan.
#[derive(Debug)]
pub enum Line {
    /// A repository that is created (`true`) or changed, below an empty line.
    Repository(bool, String),
    /// A difference: where, from what, to what.
    Difference(String, String, String),
    /// An empty line.
    Blank,
    /// Nothing differs, below an empty line.
    NoChanges,
}

/// The model of a line.
pub enum LineView {
    Repository(bool, Seq<char>),
    Difference(Seq<char>, Seq<char>, Seq<char>),
    Blank,
    NoChanges,
}

impl View for Line {
    type V = LineView;

    open spec fn view(&self) -> LineView {
        match self {
            Line::Repository(created, target) => LineView::Repository(*created, target@),
            Line::Difference(path, from, to) => LineView::Difference(path@, from@, to@),
            Line::Blank => LineView::Blank,
            Line::NoChanges => LineView::NoChanges,
        }
    }
}

// --- Models -------------------------------------------------------------

/// The models of some lines.
pub open spec fn line_views(lines: Seq<Line>) -> Seq<LineView> {
    lines.map_values(|line: Line| line@)
}

/// The line for a difference: its field below its scope, and `(unset)` where
/// nothing was set.
pub open spec fn difference_line(change: ChangeView) -> LineView {
    LineView::Difference(
        if change.scope.len() == 0 {
            change.field
        } else {
            change.scope + "."@ + change.field
        },
        match change.from {
            Some(from) => from,
            None => "(unset)"@,
        },
        change.to,
    )
}

/// The lines for a plan. A repository with no differences has none.
pub open spec fn repository_lines(plan: RepoPlanView) -> Seq<LineView> {
    if plan.changes.len() == 0 {
        Seq::empty()
    } else {
        seq![LineView::Repository(!plan.exists, target_of(plan))] + plan.changes.map_values(
            |change: ChangeView| difference_line(change),
        )
    }
}

/// The lines for some plans, one plan after the other.
pub open spec fn all_lines(plans: Seq<RepoPlanView>) -> Seq<LineView>
    decreases plans.len(),
{
    if plans.len() == 0 {
        Seq::empty()
    } else {
        all_lines(plans.drop_last()) + repository_lines(plans.last())
    }
}

/// What is shown of some plans.
pub open spec fn shown_plan(plans: Seq<RepoPlanView>) -> Seq<LineView> {
    let lines = all_lines(plans);
    if lines.len() > 0 {
        lines.push(LineView::Blank)
    } else {
        seq![LineView::NoChanges]
    }
}

// --- Operations ----------------------------------------------------------

/// The line for a difference.
fn change_line(change: &Change) -> (line: Line)
    ensures
        line@ == difference_line(change@),
{
    let path = if is_empty(change.scope.as_str()) {
        change.field.clone()
    } else {
        change.scope.clone().concat(".").concat(change.field.as_str())
    };
    let from = match &change.from {
        Some(from) => from.clone(),
        None => "(unset)".to_owned(),
    };
    Line::Difference(path, from, change.to.clone())
}

/// Adds the lines for a plan.
fn add_repository(lines: &mut Vec<Line>, plan: &RepoPlan)
    ensures
        line_views(final(lines)@) == line_views(old(lines)@) + repository_lines(plan@),
{
    let ghost start = line_views(lines@);
    if !plan.has_changes() {
        assert(start + repository_lines(plan@) =~= start);
        return;
    }
    let ghost all = repository_lines(plan@);
    lines.push(Line::Repository(!plan.exists, target(plan)));
    assert(line_views(lines@) =~= start + all.take(1));
    let mut i: usize = 0;
    while i < plan.changes.len()
        invariant
            i <= plan.changes@.len(),
            plan@.changes.len() > 0,
            all == repository_lines(plan@),
            line_views(lines@) == start + all.take(i + 1),
        decreases plan.changes@.len() - i,
    {
        let line = change_line(&plan.changes[i]);
        assert(all[i + 1] == line@);
        let ghost lines_before = line_views(lines@);
        lines.push(line);
        assert(line_views(lines@) =~= lines_before.push(line@));
        assert(line_views(lines@) =~= start + all.take(i + 2));
        i = i + 1;
    }
    assert(all.take(i + 1) =~= all);
}

/// What is shown of some plans, grouped by repository. Repositories with no
/// differences are omitted so the output stays focused.
pub fn print_plan(plans: &Vec<RepoPlan>) -> (lines: Vec<Line>)
    ensures
        line_views(lines@) == shown_plan(plan_views(plans@)),
{
    let mut lines: Vec<Line> = Vec::new();
    let ghost views = plan_views(plans@);
    let mut i: usize = 0;
    assert(line_views(lines@) =~= all_lines(views.take(0)));
    while i < plans.len()
        invariant
            i <= plans@.len(),
            views == plan_views(plans@),
            line_views(lines@) == all_lines(views.take(i as int)),
        decreases plans@.len() - i,
    {
        add_repository(&mut lines, &plans[i]);
        proof {
            let next = views.take(i + 1);
            assert(next.drop_last() =~= views.take(i as int));
            assert(next.last() == plans@[i as int]@);
        }
        i = i + 1;
    }
    assert(views.take(i as int) =~= views);
    assert(line_views(lines@).len() == lines@.len());
    let ghost before = line_views(lines@);
    if lines.len() > 0 {
        lines.push(Line::Blank);
        assert(line_views(lines@) =~= before.push(LineView::Blank));
    } else {
        lines.push(Line::NoChanges);
        assert(line_views(lines@) =~= seq![LineView::NoChanges]);
    }
    lines
}

} // verus!
