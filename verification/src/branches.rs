//! Reconciling classic branch protection.

use vstd::prelude::*;
use vstd::string::*;

use crate::change::{add_changes, change_views, note, noted, Change, ChangeView};
use crate::config::{BranchProtectionConfig, RequiredPullRequestReviews, RequiredStatusChecks};
use crate::github::{
    no_protection, BranchProtection, BranchProtectionView, LiveProtection, PullRequestReviews,
    PushRestrictions, StatusChecks, StatusChecksView,
};
use crate::settings::flag_or;
use crate::text::{
    copy_list, decimal, join, joined, number_text, same_set, texts, truth, truth_text,
};

verus! {

/// A planned change to the protection of one branch.
#[derive(Debug, Clone)]
pub struct BranchPlan {
    pub branch: String,
    /// The full protection to put in place.
    pub protection: Option<BranchProtection>,
    /// Whether signed commits are to be required from now on.
    pub required_signatures: Option<bool>,
    pub changes: Vec<Change>,
}

/// The model of a planned change to a branch.
pub struct BranchPlanView {
    pub branch: Seq<char>,
    pub protection: Option<BranchProtectionView>,
    pub required_signatures: Option<bool>,
    pub changes: Seq<ChangeView>,
}

impl View for BranchPlan {
    type V = BranchPlanView;

    open spec fn view(&self) -> BranchPlanView {
        BranchPlanView {
            branch: self.branch@,
            protection: match self.protection {
                Some(protection) => Some(protection@),
                None => None,
            },
            required_signatures: self.required_signatures,
            changes: change_views(self.changes@),
        }
    }
}

// --- Models -------------------------------------------------------------

/// The protection behind an optional reference.
pub open spec fn opt_live(live: Option<&LiveProtection>) -> Option<LiveProtection> {
    match live {
        Some(l) => Some(*l),
        None => None,
    }
}

/// The protection that is in place.
pub open spec fn protection_of(live: Option<LiveProtection>) -> BranchProtectionView {
    match live {
        Some(l) => l.protection@,
        None => no_protection(),
    }
}

/// Whether signed commits are required.
pub open spec fn signatures_of(live: Option<LiveProtection>) -> bool {
    live is Some && live->0.required_signatures
}

/// The status checks with what was declared.
pub open spec fn desired_checks(
    declared: Option<RequiredStatusChecks>,
    live: Option<StatusChecksView>,
) -> Option<StatusChecksView> {
    match declared {
        None => live,
        Some(d) => {
            let base = match live {
                Some(l) => l,
                None => StatusChecksView { strict: false, contexts: Seq::empty() },
            };
            Some(
                StatusChecksView {
                    strict: flag_or(d.strict, base.strict),
                    contexts: match d.contexts {
                        Some(contexts) => texts(contexts@),
                        None => base.contexts,
                    },
                },
            )
        },
    }
}

/// The reviews of a branch that requires none.
pub open spec fn no_reviews() -> PullRequestReviews {
    PullRequestReviews {
        dismiss_stale_reviews: false,
        require_code_owner_reviews: false,
        required_approving_review_count: 0,
        require_last_push_approval: false,
    }
}

/// The reviews with what was declared.
pub open spec fn desired_reviews(
    declared: Option<RequiredPullRequestReviews>,
    live: Option<PullRequestReviews>,
) -> Option<PullRequestReviews> {
    match declared {
        None => live,
        Some(d) => {
            let base = match live {
                Some(l) => l,
                None => no_reviews(),
            };
            Some(
                PullRequestReviews {
                    dismiss_stale_reviews: flag_or(
                        d.dismiss_stale_reviews,
                        base.dismiss_stale_reviews,
                    ),
                    require_code_owner_reviews: flag_or(
                        d.require_code_owner_reviews,
                        base.require_code_owner_reviews,
                    ),
                    required_approving_review_count: match d.required_approving_review_count {
                        Some(count) => count,
                        None => base.required_approving_review_count,
                    },
                    require_last_push_approval: flag_or(
                        d.require_last_push_approval,
                        base.require_last_push_approval,
                    ),
                },
            )
        },
    }
}

/// The protection with what was declared. What was not declared, who may push
/// included, stays as it is.
pub open spec fn desired_protection(
    cfg: BranchProtectionConfig,
    live: BranchProtectionView,
) -> BranchProtectionView {
    BranchProtectionView {
        required_status_checks: desired_checks(
            cfg.required_status_checks,
            live.required_status_checks,
        ),
        enforce_admins: flag_or(cfg.enforce_admins, live.enforce_admins),
        required_pull_request_reviews: desired_reviews(
            cfg.required_pull_request_reviews,
            live.required_pull_request_reviews,
        ),
        restrictions: live.restrictions,
        required_linear_history: flag_or(cfg.required_linear_history, live.required_linear_history),
        allow_force_pushes: flag_or(cfg.allow_force_pushes, live.allow_force_pushes),
        allow_deletions: flag_or(cfg.allow_deletions, live.allow_deletions),
        block_creations: flag_or(cfg.block_creations, live.block_creations),
        required_conversation_resolution: flag_or(
            cfg.required_conversation_resolution,
            live.required_conversation_resolution,
        ),
        lock_branch: flag_or(cfg.lock_branch, live.lock_branch),
        allow_fork_syncing: flag_or(cfg.allow_fork_syncing, live.allow_fork_syncing),
    }
}

/// A difference in a flag.
pub open spec fn flag_change(
    scope: Seq<char>,
    field: Seq<char>,
    declared: Option<bool>,
    live: bool,
) -> Seq<ChangeView> {
    noted(
        flag_or(declared, live) != live,
        scope,
        field,
        Some(truth(live)),
        truth(flag_or(declared, live)),
    )
}

/// The differences in the flags, in the order in which they are reported.
pub open spec fn flag_changes(
    scope: Seq<char>,
    cfg: BranchProtectionConfig,
    live: BranchProtectionView,
) -> Seq<ChangeView> {
    flag_change(
        scope,
        "required_linear_history"@,
        cfg.required_linear_history,
        live.required_linear_history,
    ) + flag_change(scope, "enforce_admins"@, cfg.enforce_admins, live.enforce_admins)
        + flag_change(
        scope,
        "allow_force_pushes"@,
        cfg.allow_force_pushes,
        live.allow_force_pushes,
    ) + flag_change(scope, "allow_deletions"@, cfg.allow_deletions, live.allow_deletions)
        + flag_change(scope, "block_creations"@, cfg.block_creations, live.block_creations)
        + flag_change(
        scope,
        "required_conversation_resolution"@,
        cfg.required_conversation_resolution,
        live.required_conversation_resolution,
    ) + flag_change(scope, "lock_branch"@, cfg.lock_branch, live.lock_branch) + flag_change(
        scope,
        "allow_fork_syncing"@,
        cfg.allow_fork_syncing,
        live.allow_fork_syncing,
    )
}

/// The differences in the status checks. The order of the contexts does not
/// matter.
pub open spec fn check_changes(
    scope: Seq<char>,
    declared: Option<RequiredStatusChecks>,
    live: Option<StatusChecksView>,
) -> Seq<ChangeView> {
    match desired_checks(declared, live) {
        None => Seq::empty(),
        Some(desired) => {
            noted(
                live is None || desired.strict != live->0.strict,
                scope,
                "required_status_checks.strict"@,
                match live {
                    Some(l) => Some(truth(l.strict)),
                    None => None,
                },
                truth(desired.strict),
            ) + noted(
                live is None || desired.contexts.to_set() != live->0.contexts.to_set(),
                scope,
                "required_status_checks.contexts"@,
                match live {
                    Some(l) => Some(joined(l.contexts, ", "@)),
                    None => None,
                },
                joined(desired.contexts, ", "@),
            )
        },
    }
}

/// The differences in the reviews.
pub open spec fn review_changes(
    scope: Seq<char>,
    declared: Option<RequiredPullRequestReviews>,
    live: Option<PullRequestReviews>,
) -> Seq<ChangeView> {
    match desired_reviews(declared, live) {
        None => Seq::empty(),
        Some(desired) => {
            noted(
                live is None || desired.dismiss_stale_reviews != live->0.dismiss_stale_reviews,
                scope,
                "required_pull_request_reviews.dismiss_stale_reviews"@,
                match live {
                    Some(l) => Some(truth(l.dismiss_stale_reviews)),
                    None => None,
                },
                truth(desired.dismiss_stale_reviews),
            ) + noted(
                live is None || desired.require_code_owner_reviews
                    != live->0.require_code_owner_reviews,
                scope,
                "required_pull_request_reviews.require_code_owner_reviews"@,
                match live {
                    Some(l) => Some(truth(l.require_code_owner_reviews)),
                    None => None,
                },
                truth(desired.require_code_owner_reviews),
            ) + noted(
                live is None || desired.required_approving_review_count
                    != live->0.required_approving_review_count,
                scope,
                "required_pull_request_reviews.required_approving_review_count"@,
                match live {
                    Some(l) => Some(decimal(l.required_approving_review_count as nat)),
                    None => None,
                },
                decimal(desired.required_approving_review_count as nat),
            ) + noted(
                live is None || desired.require_last_push_approval
                    != live->0.require_last_push_approval,
                scope,
                "required_pull_request_reviews.require_last_push_approval"@,
                match live {
                    Some(l) => Some(truth(l.require_last_push_approval)),
                    None => None,
                },
                truth(desired.require_last_push_approval),
            )
        },
    }
}

/// The differences that the full protection is sent for.
pub open spec fn protection_changes(
    scope: Seq<char>,
    cfg: BranchProtectionConfig,
    live: BranchProtectionView,
) -> Seq<ChangeView> {
    flag_changes(scope, cfg, live) + check_changes(
        scope,
        cfg.required_status_checks,
        live.required_status_checks,
    ) + review_changes(
        scope,
        cfg.required_pull_request_reviews,
        live.required_pull_request_reviews,
    )
}

/// The scope under which the differences of a branch are reported.
pub open spec fn branch_scope(branch: Seq<char>) -> Seq<char> {
    "branch_protection."@ + branch
}

/// The plan for one branch: the full protection where a part of it differs,
/// and the signatures where those differ. GitHub keeps the signatures of
/// protected branches only, so that the protection is put in place before
/// signatures are required.
pub open spec fn planned_branch(
    branch: Seq<char>,
    cfg: BranchProtectionConfig,
    live: Option<LiveProtection>,
) -> Option<BranchPlanView> {
    let scope = branch_scope(branch);
    let changes = protection_changes(scope, cfg, protection_of(live));
    let signatures = flag_or(cfg.required_signatures, signatures_of(live));
    let signing = flag_change(
        scope,
        "required_signatures"@,
        cfg.required_signatures,
        signatures_of(live),
    );
    let signs = signatures != signatures_of(live);
    if changes.len() == 0 && !signs {
        None
    } else {
        Some(
            BranchPlanView {
                branch: branch,
                protection: if changes.len() > 0 || live is None {
                    Some(desired_protection(cfg, protection_of(live)))
                } else {
                    None
                },
                required_signatures: if signs {
                    Some(signatures)
                } else {
                    None
                },
                changes: changes + signing,
            },
        )
    }
}

// --- Operations ----------------------------------------------------------

/// The declared value of a flag, or else the live one.
fn flag(declared: Option<bool>, live: bool) -> (value: bool)
    ensures
        value == flag_or(declared, live),
{
    match declared {
        Some(d) => d,
        None => live,
    }
}

/// Adds the difference in a flag.
fn note_flag(
    changes: &mut Vec<Change>,
    scope: &str,
    field: &str,
    declared: Option<bool>,
    live: bool,
)
    ensures
        change_views(final(changes)@) == change_views(old(changes)@) + flag_change(
            scope@,
            field@,
            declared,
            live,
        ),
{
    let desired = flag(declared, live);
    note(changes, desired != live, scope, field, Some(truth_text(live)), truth_text(desired));
}

/// The differences in the flags of a branch.
fn diff_flags(scope: &str, cfg: &BranchProtectionConfig, live: &BranchProtection) -> (changes: Vec<
    Change,
>)
    ensures
        change_views(changes@) == flag_changes(scope@, *cfg, live@),
{
    let mut changes: Vec<Change> = Vec::new();
    assert(change_views(changes@) =~= Seq::empty());
    note_flag(
        &mut changes,
        scope,
        "required_linear_history",
        cfg.required_linear_history,
        live.required_linear_history,
    );
    note_flag(&mut changes, scope, "enforce_admins", cfg.enforce_admins, live.enforce_admins);
    note_flag(
        &mut changes,
        scope,
        "allow_force_pushes",
        cfg.allow_force_pushes,
        live.allow_force_pushes,
    );
    note_flag(&mut changes, scope, "allow_deletions", cfg.allow_deletions, live.allow_deletions);
    note_flag(&mut changes, scope, "block_creations", cfg.block_creations, live.block_creations);
    note_flag(
        &mut changes,
        scope,
        "required_conversation_resolution",
        cfg.required_conversation_resolution,
        live.required_conversation_resolution,
    );
    note_flag(&mut changes, scope, "lock_branch", cfg.lock_branch, live.lock_branch);
    note_flag(
        &mut changes,
        scope,
        "allow_fork_syncing",
        cfg.allow_fork_syncing,
        live.allow_fork_syncing,
    );
    assert(change_views(changes@) =~= flag_changes(scope@, *cfg, live@));
    changes
}

/// The model of optional status checks.
spec fn checks_view(checks: Option<StatusChecks>) -> Option<StatusChecksView> {
    match checks {
        Some(c) => Some(c@),
        None => None,
    }
}

/// The status checks with what was declared.
fn merge_checks(declared: &Option<RequiredStatusChecks>, live: &Option<StatusChecks>) -> (desired:
    Option<StatusChecks>)
    ensures
        checks_view(desired) == desired_checks(*declared, checks_view(*live)),
{
    match (declared, live) {
        (None, None) => None,
        (None, Some(l)) => Some(
            StatusChecks { strict: l.strict, contexts: copy_list(&l.contexts) },
        ),
        (Some(d), None) => {
            let none: Vec<String> = Vec::new();
            assert(texts(none@) =~= Seq::empty());
            Some(
                StatusChecks {
                    strict: flag(d.strict, false),
                    contexts: match &d.contexts {
                        Some(contexts) => copy_list(contexts),
                        None => none,
                    },
                },
            )
        },
        (Some(d), Some(l)) => Some(
            StatusChecks {
                strict: flag(d.strict, l.strict),
                contexts: match &d.contexts {
                    Some(contexts) => copy_list(contexts),
                    None => copy_list(&l.contexts),
                },
            },
        ),
    }
}

/// The differences in the status checks of a branch.
fn diff_checks(
    scope: &str,
    declared: &Option<RequiredStatusChecks>,
    live: &Option<StatusChecks>,
) -> (changes: Vec<Change>)
    ensures
        change_views(changes@) == check_changes(scope@, *declared, checks_view(*live)),
{
    let mut changes: Vec<Change> = Vec::new();
    assert(change_views(changes@) =~= Seq::empty());
    if let Some(desired) = merge_checks(declared, live) {
        let (strict, contexts) = match live {
            Some(l) => (
                Some(truth_text(l.strict)),
                Some(join(&l.contexts, ", ")),
            ),
            None => (None, None),
        };
        let strict_differs = match live {
            Some(l) => desired.strict != l.strict,
            None => true,
        };
        let contexts_differ = match live {
            Some(l) => !same_set(&desired.contexts, &l.contexts),
            None => true,
        };
        note(
            &mut changes,
            strict_differs,
            scope,
            "required_status_checks.strict",
            strict,
            truth_text(desired.strict),
        );
        note(
            &mut changes,
            contexts_differ,
            scope,
            "required_status_checks.contexts",
            contexts,
            join(&desired.contexts, ", "),
        );
        assert(change_views(changes@) =~= check_changes(scope@, *declared, checks_view(*live)));
    }
    changes
}

/// The reviews with what was declared.
fn merge_reviews(
    declared: &Option<RequiredPullRequestReviews>,
    live: Option<PullRequestReviews>,
) -> (desired: Option<PullRequestReviews>)
    ensures
        desired == desired_reviews(*declared, live),
{
    match declared {
        None => live,
        Some(d) => {
            let base = match live {
                Some(l) => l,
                None => PullRequestReviews {
                    dismiss_stale_reviews: false,
                    require_code_owner_reviews: false,
                    required_approving_review_count: 0,
                    require_last_push_approval: false,
                },
            };
            Some(
                PullRequestReviews {
                    dismiss_stale_reviews: flag(
                        d.dismiss_stale_reviews,
                        base.dismiss_stale_reviews,
                    ),
                    require_code_owner_reviews: flag(
                        d.require_code_owner_reviews,
                        base.require_code_owner_reviews,
                    ),
                    required_approving_review_count: match d.required_approving_review_count {
                        Some(count) => count,
                        None => base.required_approving_review_count,
                    },
                    require_last_push_approval: flag(
                        d.require_last_push_approval,
                        base.require_last_push_approval,
                    ),
                },
            )
        },
    }
}

/// The differences in the reviews of a branch.
fn diff_reviews(
    scope: &str,
    declared: &Option<RequiredPullRequestReviews>,
    live: Option<PullRequestReviews>,
) -> (changes: Vec<Change>)
    ensures
        change_views(changes@) == review_changes(scope@, *declared, live),
{
    let mut changes: Vec<Change> = Vec::new();
    assert(change_views(changes@) =~= Seq::empty());
    if let Some(desired) = merge_reviews(declared, live) {
        let unset = live.is_none();
        let base = match live {
            Some(l) => l,
            None => desired,
        };
        note(
            &mut changes,
            unset || desired.dismiss_stale_reviews != base.dismiss_stale_reviews,
            scope,
            "required_pull_request_reviews.dismiss_stale_reviews",
            unless(unset, truth_text(base.dismiss_stale_reviews)),
            truth_text(desired.dismiss_stale_reviews),
        );
        note(
            &mut changes,
            unset || desired.require_code_owner_reviews != base.require_code_owner_reviews,
            scope,
            "required_pull_request_reviews.require_code_owner_reviews",
            unless(unset, truth_text(base.require_code_owner_reviews)),
            truth_text(desired.require_code_owner_reviews),
        );
        note(
            &mut changes,
            unset || desired.required_approving_review_count
                != base.required_approving_review_count,
            scope,
            "required_pull_request_reviews.required_approving_review_count",
            unless(unset, number_text(base.required_approving_review_count as u64)),
            number_text(desired.required_approving_review_count as u64),
        );
        note(
            &mut changes,
            unset || desired.require_last_push_approval != base.require_last_push_approval,
            scope,
            "required_pull_request_reviews.require_last_push_approval",
            unless(unset, truth_text(base.require_last_push_approval)),
            truth_text(desired.require_last_push_approval),
        );
        assert(change_views(changes@) =~= review_changes(scope@, *declared, live));
    }
    changes
}

/// A text, or none where nothing was set.
fn unless(unset: bool, text: String) -> (shown: Option<String>)
    ensures
        shown == (if unset {
            None
        } else {
            Some(text)
        }),
{
    if unset {
        None
    } else {
        Some(text)
    }
}

/// A copy of push restrictions.
fn copy_restrictions(restrictions: &Option<PushRestrictions>) -> (copy: Option<PushRestrictions>)
    ensures
        match (restrictions, copy) {
            (Some(r), Some(c)) => c@ == r@,
            (None, None) => true,
            _ => false,
        },
{
    match restrictions {
        Some(r) => Some(
            PushRestrictions {
                users: copy_list(&r.users),
                teams: copy_list(&r.teams),
                apps: copy_list(&r.apps),
            },
        ),
        None => None,
    }
}

/// The protection with what was declared.
fn merge_protection(cfg: &BranchProtectionConfig, live: &BranchProtection) -> (desired:
    BranchProtection)
    ensures
        desired@ == desired_protection(*cfg, live@),
{
    BranchProtection {
        required_status_checks: merge_checks(
            &cfg.required_status_checks,
            &live.required_status_checks,
        ),
        enforce_admins: flag(cfg.enforce_admins, live.enforce_admins),
        required_pull_request_reviews: merge_reviews(
            &cfg.required_pull_request_reviews,
            live.required_pull_request_reviews,
        ),
        restrictions: copy_restrictions(&live.restrictions),
        required_linear_history: flag(cfg.required_linear_history, live.required_linear_history),
        allow_force_pushes: flag(cfg.allow_force_pushes, live.allow_force_pushes),
        allow_deletions: flag(cfg.allow_deletions, live.allow_deletions),
        block_creations: flag(cfg.block_creations, live.block_creations),
        required_conversation_resolution: flag(
            cfg.required_conversation_resolution,
            live.required_conversation_resolution,
        ),
        lock_branch: flag(cfg.lock_branch, live.lock_branch),
        allow_fork_syncing: flag(cfg.allow_fork_syncing, live.allow_fork_syncing),
    }
}

/// Plans the protection of a branch that exists, or `None` when it already
/// matches. `live` is `None` where the branch is not protected.
pub fn plan_branch(
    branch: &str,
    cfg: &BranchProtectionConfig,
    live: Option<&LiveProtection>,
) -> (plan: Option<BranchPlan>)
    ensures
        match plan {
            Some(p) => planned_branch(branch@, *cfg, opt_live(live)) == Some(p@),
            None => planned_branch(branch@, *cfg, opt_live(live)) is None,
        },
{
    let scope = "branch_protection.".to_owned().concat(branch);
    let nothing = BranchProtection::default();
    let (current, signed) = match live {
        Some(l) => (&l.protection, l.required_signatures),
        None => (&nothing, false),
    };
    assert(current@ == protection_of(opt_live(live)));
    let mut changes = diff_flags(scope.as_str(), cfg, current);
    let checks = diff_checks(
        scope.as_str(),
        &cfg.required_status_checks,
        &current.required_status_checks,
    );
    add_changes(&mut changes, &checks);
    let reviews = diff_reviews(
        scope.as_str(),
        &cfg.required_pull_request_reviews,
        current.required_pull_request_reviews,
    );
    add_changes(&mut changes, &reviews);
    assert(change_views(changes@) == protection_changes(scope@, *cfg, current@));
    let differs = changes.len() > 0;
    assert(differs == (change_views(changes@).len() > 0));

    let signatures = flag(cfg.required_signatures, signed);
    let signs = signatures != signed;
    note_flag(
        &mut changes,
        scope.as_str(),
        "required_signatures",
        cfg.required_signatures,
        signed,
    );
    if !differs && !signs {
        return None;
    }
    Some(
        BranchPlan {
            branch: branch.to_owned(),
            protection: if differs || live.is_none() {
                Some(merge_protection(cfg, current))
            } else {
                None
            },
            required_signatures: if signs {
                Some(signatures)
            } else {
                None
            },
            changes: changes,
        },
    )
}

} // verus!
