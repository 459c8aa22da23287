//! The differences that a plan reports.

use vstd::prelude::*;

use crate::text::opt_text;

verus! {

/// A single user-visible difference.
#[derive(Debug, Clone)]
pub struct Change {
    pub scope: String,
    pub field: String,
    /// `None` means the value is not currently set / the repo does not exist.
    pub from: Option<String>,
    pub to: String,
}

/// The model of a difference.
pub struct ChangeView {
    pub scope: Seq<char>,
    pub field: Seq<char>,
    pub from: Option<Seq<char>>,
    pub to: Seq<char>,
}

impl View for Change {
    type V = ChangeView;

    open spec fn view(&self) -> ChangeView {
        ChangeView {
            scope: self.scope@,
            field: self.field@,
            from: opt_text(self.from),
            to: self.to@,
        }
    }
}

/// The models of some differences.
pub open spec fn change_views(changes: Seq<Change>) -> Seq<ChangeView> {
    changes.map_values(|change: Change| change@)
}

/// A difference that creates something.
pub open spec fn creation(scope: Seq<char>) -> ChangeView {
    ChangeView { scope: scope, field: "create"@, from: None, to: "create"@ }
}

/// A difference, where there is one.
pub open spec fn noted(
    differs: bool,
    scope: Seq<char>,
    field: Seq<char>,
    from: Option<Seq<char>>,
    to: Seq<char>,
) -> Seq<ChangeView> {
    if differs {
        seq![ChangeView { scope: scope, field: field, from: from, to: to }]
    } else {
        Seq::empty()
    }
}

impl Change {
    /// A difference in `field` of `scope`.
    pub fn new(scope: &str, field: &str, from: Option<String>, to: String) -> (change: Self)
        ensures
            change@ == (ChangeView {
                scope: scope@,
                field: field@,
                from: opt_text(from),
                to: to@,
            }),
    {
        Change { scope: scope.to_owned(), field: field.to_owned(), from: from, to: to }
    }

    /// A copy of the difference.
    pub fn copied(&self) -> (copy: Self)
        ensures
            copy@ == self@,
    {
        Change {
            scope: self.scope.clone(),
            field: self.field.clone(),
            from: self.from.clone(),
            to: self.to.clone(),
        }
    }
}

/// Adds one difference at the end.
pub fn add_change(changes: &mut Vec<Change>, change: Change)
    ensures
        change_views(final(changes)@) == change_views(old(changes)@).push(change@),
{
    changes.push(change);
    assert(change_views(changes@) =~= change_views(old(changes)@).push(change@));
}

/// Adds a difference at the end, where there is one.
pub fn note(
    changes: &mut Vec<Change>,
    differs: bool,
    scope: &str,
    field: &str,
    from: Option<String>,
    to: String,
)
    ensures
        change_views(final(changes)@) == change_views(old(changes)@) + noted(
            differs,
            scope@,
            field@,
            opt_text(from),
            to@,
        ),
{
    let ghost start = change_views(changes@);
    let ghost more = noted(differs, scope@, field@, opt_text(from), to@);
    if differs {
        let change = Change::new(scope, field, from, to);
        add_change(changes, change);
        assert(start.push(change@) =~= start + more);
    }
    assert(change_views(changes@) =~= start + more);
}

/// Adds copies of further differences at the end.
pub fn add_changes(changes: &mut Vec<Change>, more: &Vec<Change>)
    ensures
        change_views(final(changes)@) == change_views(old(changes)@) + change_views(more@),
{
    let ghost start = change_views(changes@);
    let mut i: usize = 0;
    assert(start =~= start + change_views(more@).take(0));
    while i < more.len()
        invariant
            i <= more@.len(),
            change_views(changes@) == start + change_views(more@).take(i as int),
        decreases more@.len() - i,
    {
        add_change(changes, more[i].copied());
        assert(start + change_views(more@).take(i + 1) =~= (start + change_views(more@).take(
            i as int,
        )).push(more@[i as int]@));
        i = i + 1;
    }
    assert(change_views(more@).take(more@.len() as int) =~= change_views(more@));
}

} // verus!
