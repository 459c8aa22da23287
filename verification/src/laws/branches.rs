//! Laws of branch protection: what is declared is what comes about, and what is
//! reported is what changes.

use vstd::prelude::*;

use crate::branches::{
    branch_scope, check_changes, desired_protection, flag_changes, planned_branch,
    protection_changes, protection_of, review_changes, BranchPlanView,
};
use crate::change::ChangeView;
use crate::config::BranchProtectionConfig;
use crate::github::{BranchProtectionView, LiveProtection, PullRequestReviews, StatusChecksView};
use crate::laws::actions::{follows, is_among, spells, spells_in_any_order, tally, yes_no};
use crate::text::{decimal, joined, texts};

verus! {

/// The protection of a branch once a plan was carried out.
pub open spec fn protection_then(
    plan: Option<BranchPlanView>,
    live: Option<LiveProtection>,
) -> BranchProtectionView {
    if plan is Some && plan->0.protection is Some {
        plan->0.protection->0
    } else {
        protection_now(live)
    }
}

/// The protection that a branch has. One without any requires nothing and
/// allows nothing.
pub open spec fn protection_now(live: Option<LiveProtection>) -> BranchProtectionView {
    match live {
        Some(l) => l.protection@,
        None => BranchProtectionView {
            required_status_checks: None,
            enforce_admins: false,
            required_pull_request_reviews: None,
            restrictions: None,
            required_linear_history: false,
            allow_force_pushes: false,
            allow_deletions: false,
            block_creations: false,
            required_conversation_resolution: false,
            lock_branch: false,
            allow_fork_syncing: false,
        },
    }
}

/// Whether a branch requires signed commits.
pub open spec fn signed_now(live: Option<LiveProtection>) -> bool {
    match live {
        Some(l) => l.required_signatures,
        None => false,
    }
}

/// Whether a branch requires signed commits once a plan was carried out.
pub open spec fn signed_then(plan: Option<BranchPlanView>, live: Option<LiveProtection>) -> bool {
    if plan is Some && plan->0.required_signatures is Some {
        plan->0.required_signatures->0
    } else {
        signed_now(live)
    }
}

/// The status checks that a branch has, where it may have none.
pub open spec fn checks_now(checks: Option<StatusChecksView>) -> StatusChecksView {
    match checks {
        Some(c) => c,
        None => StatusChecksView { strict: false, contexts: Seq::empty() },
    }
}

/// The reviews that a branch has, where it may have none.
pub open spec fn reviews_now(reviews: Option<PullRequestReviews>) -> PullRequestReviews {
    match reviews {
        Some(r) => r,
        None => PullRequestReviews {
            dismiss_stale_reviews: false,
            require_code_owner_reviews: false,
            required_approving_review_count: 0,
            require_last_push_approval: false,
        },
    }
}

/// Each declared flag of a branch holds once the plan was carried out, and each
/// other one is as it was. Who may push is never changed.
pub proof fn law_declared_branch_flags_come_about(
    branch: Seq<char>,
    cfg: BranchProtectionConfig,
    live: Option<LiveProtection>,
)
    ensures
        ({
            let plan = planned_branch(branch, cfg, live);
            let before = protection_now(live);
            let after = protection_then(plan, live);
            &&& follows(cfg.enforce_admins, before.enforce_admins, after.enforce_admins)
            &&& follows(
                cfg.required_linear_history,
                before.required_linear_history,
                after.required_linear_history,
            )
            &&& follows(cfg.allow_force_pushes, before.allow_force_pushes, after.allow_force_pushes)
            &&& follows(cfg.allow_deletions, before.allow_deletions, after.allow_deletions)
            &&& follows(cfg.block_creations, before.block_creations, after.block_creations)
            &&& follows(
                cfg.required_conversation_resolution,
                before.required_conversation_resolution,
                after.required_conversation_resolution,
            )
            &&& follows(cfg.lock_branch, before.lock_branch, after.lock_branch)
            &&& follows(cfg.allow_fork_syncing, before.allow_fork_syncing, after.allow_fork_syncing)
            &&& after.restrictions == before.restrictions
            &&& follows(cfg.required_signatures, signed_now(live), signed_then(plan, live))
            &&& plan is Some ==> plan->0.branch == branch
            &&& plan is Some && live is None ==> plan->0.protection is Some
        }),
{
}

/// The declared status checks hold once the plan was carried out: strict or
/// not as declared, and the declared contexts, in the declared order where
/// they are sent. What is not declared of them is as it was.
pub proof fn law_declared_checks_come_about(
    branch: Seq<char>,
    cfg: BranchProtectionConfig,
    live: Option<LiveProtection>,
)
    ensures
        ({
            let plan = planned_branch(branch, cfg, live);
            let before = protection_now(live).required_status_checks;
            let after = protection_then(plan, live).required_status_checks;
            match cfg.required_status_checks {
                Some(declared) => {
                    &&& after is Some
                    &&& follows(declared.strict, checks_now(before).strict, after->0.strict)
                    &&& match declared.contexts {
                        Some(contexts) => spells_in_any_order(after->0.contexts, contexts@),
                        None => after->0.contexts == checks_now(before).contexts,
                    }
                    &&& plan is Some && plan->0.protection is Some && declared.contexts is Some
                        ==> spells(after->0.contexts, declared.contexts->0@)
                },
                None => after == before,
            }
        }),
{
    let plan = planned_branch(branch, cfg, live);
    let after = protection_then(plan, live).required_status_checks;
    if let Some(declared) = cfg.required_status_checks {
        if let Some(contexts) = declared.contexts {
            assert(spells(texts(contexts@), contexts@));
            let list = after->0.contexts;
            assert(list.to_set() == texts(contexts@).to_set());
            lemma_same_texts(list, contexts@);
        }
    }
}

/// A list has the texts of some strings where it holds the same texts.
pub proof fn lemma_same_texts(list: Seq<Seq<char>>, strings: Seq<String>)
    ensures
        list.to_set() == texts(strings).to_set() <==> spells_in_any_order(list, strings),
{
    assert forall|text: Seq<char>| texts(strings).contains(text) <==> is_among(strings, text) by {
        if texts(strings).contains(text) {
            let j = choose|j: int| 0 <= j < texts(strings).len() && texts(strings)[j] == text;
            assert(strings[j]@ == text);
        }
        if is_among(strings, text) {
            let j = choose|j: int| 0 <= j < strings.len() && (#[trigger] strings[j])@ == text;
            assert(texts(strings)[j] == text);
        }
    }
    if list.to_set() == texts(strings).to_set() {
        assert forall|text: Seq<char>| #[trigger] list.contains(text) <==> is_among(
            strings,
            text,
        ) by {
            assert(list.to_set().contains(text) == texts(strings).to_set().contains(text));
            assert(texts(strings).contains(text) == texts(strings).to_set().contains(text));
        }
    }
    if spells_in_any_order(list, strings) {
        assert forall|text: Seq<char>| list.to_set().contains(text) == texts(
            strings,
        ).to_set().contains(text) by {
            assert(list.contains(text) == is_among(strings, text));
            assert(texts(strings).contains(text) == is_among(strings, text));
        }
        assert(list.to_set() =~= texts(strings).to_set());
    }
}

/// The declared reviews hold once the plan was carried out, and what is not
/// declared of them is as it was.
pub proof fn law_declared_reviews_come_about(
    branch: Seq<char>,
    cfg: BranchProtectionConfig,
    live: Option<LiveProtection>,
)
    ensures
        ({
            let plan = planned_branch(branch, cfg, live);
            let before = protection_now(live).required_pull_request_reviews;
            let after = protection_then(plan, live).required_pull_request_reviews;
            match cfg.required_pull_request_reviews {
                Some(declared) => {
                    &&& after is Some
                    &&& follows(
                        declared.dismiss_stale_reviews,
                        reviews_now(before).dismiss_stale_reviews,
                        after->0.dismiss_stale_reviews,
                    )
                    &&& follows(
                        declared.require_code_owner_reviews,
                        reviews_now(before).require_code_owner_reviews,
                        after->0.require_code_owner_reviews,
                    )
                    &&& follows(
                        declared.required_approving_review_count,
                        reviews_now(before).required_approving_review_count,
                        after->0.required_approving_review_count,
                    )
                    &&& follows(
                        declared.require_last_push_approval,
                        reviews_now(before).require_last_push_approval,
                        after->0.require_last_push_approval,
                    )
                },
                None => after == before,
            }
        }),
{
}

/// A branch is planned for only where something changes: signed commits, or a
/// part of the protection, where the order of the contexts is no change.
pub proof fn law_branches_are_planned_where_they_differ(
    branch: Seq<char>,
    cfg: BranchProtectionConfig,
    live: Option<LiveProtection>,
)
    requires
        planned_branch(branch, cfg, live) is Some,
    ensures
        ({
            let plan = planned_branch(branch, cfg, live);
            let before = protection_now(live);
            let after = protection_then(plan, live);
            &&& signed_then(plan, live) != signed_now(live) || after != before
            &&& plan->0.required_signatures is Some ==> signed_then(plan, live) != signed_now(live)
            &&& plan->0.protection is Some && live is Some ==> !same_protection(after, before)
        }),
{
}

/// Whether two protections are the same but for the order of the contexts.
pub open spec fn same_protection(a: BranchProtectionView, b: BranchProtectionView) -> bool {
    &&& a.enforce_admins == b.enforce_admins
    &&& a.required_linear_history == b.required_linear_history
    &&& a.allow_force_pushes == b.allow_force_pushes
    &&& a.allow_deletions == b.allow_deletions
    &&& a.block_creations == b.block_creations
    &&& a.required_conversation_resolution == b.required_conversation_resolution
    &&& a.lock_branch == b.lock_branch
    &&& a.allow_fork_syncing == b.allow_fork_syncing
    &&& a.required_pull_request_reviews == b.required_pull_request_reviews
    &&& match (a.required_status_checks, b.required_status_checks) {
        (Some(x), Some(y)) => x.strict == y.strict && x.contexts.to_set() == y.contexts.to_set(),
        (None, None) => true,
        _ => false,
    }
}

/// The scope of the differences of a branch.
pub open spec fn scope_of(branch: Seq<char>) -> Seq<char> {
    "branch_protection."@ + branch
}

/// Whether a difference is reported.
pub open spec fn reports(
    plan: Option<BranchPlanView>,
    field: Seq<char>,
    from: Option<Seq<char>>,
    to: Seq<char>,
) -> bool {
    plan is Some && plan->0.changes.contains(
        ChangeView { scope: scope_of(plan->0.branch), field: field, from: from, to: to },
    )
}

/// Whether a flag that differs is reported.
pub open spec fn reports_flag(
    plan: Option<BranchPlanView>,
    field: Seq<char>,
    before: bool,
    after: bool,
) -> bool {
    before != after ==> reports(plan, field, Some(yes_no(before)), yes_no(after))
}

/// Each flag that changes is reported under its name, with what was and what
/// will be.
pub proof fn law_branch_flags_are_reported(
    branch: Seq<char>,
    cfg: BranchProtectionConfig,
    live: Option<LiveProtection>,
)
    ensures
        ({
            let plan = planned_branch(branch, cfg, live);
            let before = protection_now(live);
            let after = protection_then(plan, live);
            &&& reports_flag(
                plan,
                "required_linear_history"@,
                before.required_linear_history,
                after.required_linear_history,
            )
            &&& reports_flag(plan, "enforce_admins"@, before.enforce_admins, after.enforce_admins)
            &&& reports_flag(
                plan,
                "allow_force_pushes"@,
                before.allow_force_pushes,
                after.allow_force_pushes,
            )
            &&& reports_flag(plan, "allow_deletions"@, before.allow_deletions, after.allow_deletions)
            &&& reports_flag(plan, "block_creations"@, before.block_creations, after.block_creations)
            &&& reports_flag(
                plan,
                "required_conversation_resolution"@,
                before.required_conversation_resolution,
                after.required_conversation_resolution,
            )
            &&& reports_flag(plan, "lock_branch"@, before.lock_branch, after.lock_branch)
            &&& reports_flag(
                plan,
                "allow_fork_syncing"@,
                before.allow_fork_syncing,
                after.allow_fork_syncing,
            )
            &&& reports_flag(
                plan,
                "required_signatures"@,
                signed_now(live),
                signed_then(plan, live),
            )
        }),
{
    broadcast use vstd::seq_lib::group_seq_properties;

}

/// Where status checks or reviews are required for the first time, each part of
/// them is reported; else each part that changes is.
pub proof fn law_checks_and_reviews_are_reported(
    branch: Seq<char>,
    cfg: BranchProtectionConfig,
    live: Option<LiveProtection>,
)
    ensures
        ({
            let plan = planned_branch(branch, cfg, live);
            let old_checks = protection_now(live).required_status_checks;
            let new_checks = protection_then(plan, live).required_status_checks;
            let old_reviews = protection_now(live).required_pull_request_reviews;
            let new_reviews = protection_then(plan, live).required_pull_request_reviews;
            &&& new_checks is Some && (old_checks is None || old_checks->0.strict
                != new_checks->0.strict) ==> reports(
                plan,
                "required_status_checks.strict"@,
                if old_checks is Some {
                    Some(yes_no(old_checks->0.strict))
                } else {
                    None
                },
                yes_no(new_checks->0.strict),
            )
            &&& new_checks is Some && (old_checks is None || old_checks->0.contexts.to_set()
                != new_checks->0.contexts.to_set()) ==> reports(
                plan,
                "required_status_checks.contexts"@,
                if old_checks is Some {
                    Some(joined(old_checks->0.contexts, ", "@))
                } else {
                    None
                },
                joined(new_checks->0.contexts, ", "@),
            )
            &&& new_reviews is Some && (old_reviews is None || old_reviews->0.dismiss_stale_reviews
                != new_reviews->0.dismiss_stale_reviews) ==> reports(
                plan,
                "required_pull_request_reviews.dismiss_stale_reviews"@,
                if old_reviews is Some {
                    Some(yes_no(old_reviews->0.dismiss_stale_reviews))
                } else {
                    None
                },
                yes_no(new_reviews->0.dismiss_stale_reviews),
            )
            &&& new_reviews is Some && (old_reviews is None
                || old_reviews->0.require_code_owner_reviews
                != new_reviews->0.require_code_owner_reviews) ==> reports(
                plan,
                "required_pull_request_reviews.require_code_owner_reviews"@,
                if old_reviews is Some {
                    Some(yes_no(old_reviews->0.require_code_owner_reviews))
                } else {
                    None
                },
                yes_no(new_reviews->0.require_code_owner_reviews),
            )
            &&& new_reviews is Some && (old_reviews is None
                || old_reviews->0.required_approving_review_count
                != new_reviews->0.required_approving_review_count) ==> reports(
                plan,
                "required_pull_request_reviews.required_approving_review_count"@,
                if old_reviews is Some {
                    Some(decimal(old_reviews->0.required_approving_review_count as nat))
                } else {
                    None
                },
                decimal(new_reviews->0.required_approving_review_count as nat),
            )
            &&& new_reviews is Some && (old_reviews is None
                || old_reviews->0.require_last_push_approval
                != new_reviews->0.require_last_push_approval) ==> reports(
                plan,
                "required_pull_request_reviews.require_last_push_approval"@,
                if old_reviews is Some {
                    Some(yes_no(old_reviews->0.require_last_push_approval))
                } else {
                    None
                },
                yes_no(new_reviews->0.require_last_push_approval),
            )
        }),
{
    broadcast use vstd::seq_lib::group_seq_properties;

}

/// How many flags of the protection change.
#[verifier::opaque]
pub open spec fn flags_changed(before: BranchProtectionView, after: BranchProtectionView) -> nat {
    tally(before.required_linear_history != after.required_linear_history) + tally(
        before.enforce_admins != after.enforce_admins,
    ) + tally(before.allow_force_pushes != after.allow_force_pushes) + tally(
        before.allow_deletions != after.allow_deletions,
    ) + tally(before.block_creations != after.block_creations) + tally(
        before.required_conversation_resolution != after.required_conversation_resolution,
    ) + tally(before.lock_branch != after.lock_branch) + tally(
        before.allow_fork_syncing != after.allow_fork_syncing,
    )
}

/// How many parts of the status checks change; all, where there were none.
#[verifier::opaque]
pub open spec fn checks_changed(
    before: Option<StatusChecksView>,
    after: Option<StatusChecksView>,
) -> nat {
    tally(after is Some && (before is None || before->0.strict != after->0.strict)) + tally(
        after is Some && (before is None || before->0.contexts.to_set()
            != after->0.contexts.to_set()),
    )
}

/// How many parts of the reviews change; all, where there were none.
#[verifier::opaque]
pub open spec fn reviews_changed(
    before: Option<PullRequestReviews>,
    after: Option<PullRequestReviews>,
) -> nat {
    tally(
        after is Some && (before is None || before->0.dismiss_stale_reviews
            != after->0.dismiss_stale_reviews),
    ) + tally(
        after is Some && (before is None || before->0.require_code_owner_reviews
            != after->0.require_code_owner_reviews),
    ) + tally(
        after is Some && (before is None || before->0.required_approving_review_count
            != after->0.required_approving_review_count),
    ) + tally(
        after is Some && (before is None || before->0.require_last_push_approval
            != after->0.require_last_push_approval),
    )
}

/// Nothing is reported of a branch but what changes: there are as many
/// differences as parts that change.
pub proof fn law_branches_report_nothing_else(
    branch: Seq<char>,
    cfg: BranchProtectionConfig,
    live: Option<LiveProtection>,
)
    requires
        planned_branch(branch, cfg, live) is Some,
    ensures
        ({
            let plan = planned_branch(branch, cfg, live);
            let before = protection_now(live);
            let after = protection_then(plan, live);
            plan->0.changes.len() == flags_changed(before, after) + checks_changed(
                before.required_status_checks,
                after.required_status_checks,
            ) + reviews_changed(
                before.required_pull_request_reviews,
                after.required_pull_request_reviews,
            ) + tally(signed_now(live) != signed_then(plan, live))
        }),
{
    let before = protection_now(live);
    let scope = branch_scope(branch);
    lemma_parts_counted(scope, cfg, before);
    lemma_nothing_changed(before);
    lemma_parts_of_plan(branch, cfg, live);
}

proof fn lemma_parts_of_plan(
    branch: Seq<char>,
    cfg: BranchProtectionConfig,
    live: Option<LiveProtection>,
)
    requires
        planned_branch(branch, cfg, live) is Some,
    ensures
        ({
            let plan = planned_branch(branch, cfg, live);
            let before = protection_now(live);
            let parts = protection_changes(branch_scope(branch), cfg, before).len();
            &&& plan->0.changes.len() == parts + tally(signed_now(live) != signed_then(plan, live))
            &&& plan->0.protection == Some(desired_protection(cfg, before)) || parts == 0
                && plan->0.protection is None
        }),
{
    assert(protection_of(live) == protection_now(live));
}

proof fn lemma_nothing_changed(before: BranchProtectionView)
    ensures
        flags_changed(before, before) == 0,
        before.required_status_checks is Some ==> checks_changed(
            before.required_status_checks,
            before.required_status_checks,
        ) == 0,
        checks_changed(None, None) == 0,
        before.required_pull_request_reviews is Some ==> reviews_changed(
            before.required_pull_request_reviews,
            before.required_pull_request_reviews,
        ) == 0,
        reviews_changed(None, None) == 0,
{
    reveal(flags_changed);
    reveal(checks_changed);
    reveal(reviews_changed);
}

proof fn lemma_flags_counted(
    scope: Seq<char>,
    cfg: BranchProtectionConfig,
    before: BranchProtectionView,
)
    ensures
        flag_changes(scope, cfg, before).len() == flags_changed(
            before,
            desired_protection(cfg, before),
        ),
{
    reveal(flags_changed);
}

proof fn lemma_checks_counted(
    scope: Seq<char>,
    cfg: BranchProtectionConfig,
    before: BranchProtectionView,
)
    ensures
        check_changes(scope, cfg.required_status_checks, before.required_status_checks).len()
            == checks_changed(
            before.required_status_checks,
            desired_protection(cfg, before).required_status_checks,
        ),
{
    reveal(checks_changed);
}

proof fn lemma_reviews_counted(
    scope: Seq<char>,
    cfg: BranchProtectionConfig,
    before: BranchProtectionView,
)
    ensures
        review_changes(
            scope,
            cfg.required_pull_request_reviews,
            before.required_pull_request_reviews,
        ).len() == reviews_changed(
            before.required_pull_request_reviews,
            desired_protection(cfg, before).required_pull_request_reviews,
        ),
{
    reveal(reviews_changed);
}

/// The differences of a sum of three lists.
proof fn lemma_three(a: Seq<ChangeView>, b: Seq<ChangeView>, c: Seq<ChangeView>)
    ensures
        (a + b + c).len() == a.len() + b.len() + c.len(),
{
}

proof fn lemma_parts_counted(
    scope: Seq<char>,
    cfg: BranchProtectionConfig,
    before: BranchProtectionView,
)
    ensures
        ({
            let after = desired_protection(cfg, before);
            protection_changes(scope, cfg, before).len() == flags_changed(before, after)
                + checks_changed(before.required_status_checks, after.required_status_checks)
                + reviews_changed(
                before.required_pull_request_reviews,
                after.required_pull_request_reviews,
            )
        }),
{
    lemma_flags_counted(scope, cfg, before);
    lemma_checks_counted(scope, cfg, before);
    lemma_reviews_counted(scope, cfg, before);
    lemma_three(
        flag_changes(scope, cfg, before),
        check_changes(scope, cfg.required_status_checks, before.required_status_checks),
        review_changes(
            scope,
            cfg.required_pull_request_reviews,
            before.required_pull_request_reviews,
        ),
    );
}

} // verus!
