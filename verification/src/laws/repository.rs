//! Laws of the settings of a repository: what is declared is what comes about,
//! and what is reported is what changes.

use vstd::prelude::*;

use crate::change::ChangeView;
use crate::config::{RepoConfig, Toggle, Visibility};
use crate::github::RepoView;
use crate::laws::actions::yes_no;
use crate::laws::settings::{law_fields_of_the_patch, patched};
use crate::settings::{
    general_settings, merge_settings, pull_settings, reported, sent_fields, settings,
    squash_settings, Setting,
};
use crate::text::lowercased;

verus! {

// --- What is declared -------------------------------------------------------

/// Whether a switch is declared, and how.
pub open spec fn switch(toggle: Option<Toggle>) -> Option<bool> {
    if toggle is Some {
        toggle->0.enable
    } else {
        None
    }
}

/// Whether the wiki is declared, and how.
pub open spec fn wiki(cfg: RepoConfig) -> Option<bool> {
    if cfg.features is Some {
        switch(cfg.features->0.wiki)
    } else {
        None
    }
}

/// Whether issues are declared, and how.
pub open spec fn issues(cfg: RepoConfig) -> Option<bool> {
    if cfg.features is Some {
        switch(cfg.features->0.issues)
    } else {
        None
    }
}

/// Whether projects are declared, and how.
pub open spec fn projects(cfg: RepoConfig) -> Option<bool> {
    if cfg.features is Some {
        switch(cfg.features->0.projects)
    } else {
        None
    }
}

/// Whether discussions are declared, and how.
pub open spec fn discussions(cfg: RepoConfig) -> Option<bool> {
    if cfg.features is Some {
        switch(cfg.features->0.discussions)
    } else {
        None
    }
}

/// Whether merge commits are declared, and how.
pub open spec fn merge_commits(cfg: RepoConfig) -> Option<bool> {
    if cfg.pull is Some && cfg.pull->0.merge is Some {
        cfg.pull->0.merge->0.enable
    } else {
        None
    }
}

/// Whether squash merges are declared, and how.
pub open spec fn squash_merges(cfg: RepoConfig) -> Option<bool> {
    if cfg.pull is Some && cfg.pull->0.squash is Some {
        cfg.pull->0.squash->0.enable
    } else {
        None
    }
}

/// Whether rebase merges are declared, and how.
pub open spec fn rebase_merges(cfg: RepoConfig) -> Option<bool> {
    if cfg.pull is Some {
        switch(cfg.pull->0.rebase)
    } else {
        None
    }
}

/// Whether auto-merge is declared, and how.
pub open spec fn auto_merge(cfg: RepoConfig) -> Option<bool> {
    if cfg.pull is Some {
        cfg.pull->0.auto_merge
    } else {
        None
    }
}

/// Whether merged branches are declared to be deleted.
pub open spec fn branch_deletion(cfg: RepoConfig) -> Option<bool> {
    if cfg.pull is Some {
        cfg.pull->0.delete_branch_on_merge
    } else {
        None
    }
}

/// Whether updating branches is declared, and how.
pub open spec fn branch_updates(cfg: RepoConfig) -> Option<bool> {
    if cfg.pull is Some {
        cfg.pull->0.update_branch
    } else {
        None
    }
}

/// Whether sign-offs are declared, and how.
pub open spec fn signoff(cfg: RepoConfig) -> Option<bool> {
    if cfg.pull is Some {
        cfg.pull->0.web_commit_signoff_required
    } else {
        None
    }
}

/// The declared title of merge commits.
pub open spec fn merge_title_word(cfg: RepoConfig) -> Option<Seq<char>> {
    if cfg.pull is Some && cfg.pull->0.merge is Some && cfg.pull->0.merge->0.commit_title is Some {
        Some(cfg.pull->0.merge->0.commit_title->0.api_text())
    } else {
        None
    }
}

/// The declared message of merge commits.
pub open spec fn merge_message_word(cfg: RepoConfig) -> Option<Seq<char>> {
    if cfg.pull is Some && cfg.pull->0.merge is Some && cfg.pull->0.merge->0.commit_message is Some {
        Some(cfg.pull->0.merge->0.commit_message->0.api_text())
    } else {
        None
    }
}

/// The declared title of squash commits.
pub open spec fn squash_title_word(cfg: RepoConfig) -> Option<Seq<char>> {
    if cfg.pull is Some && cfg.pull->0.squash is Some && cfg.pull->0.squash->0.commit_title
        is Some {
        Some(cfg.pull->0.squash->0.commit_title->0.api_text())
    } else {
        None
    }
}

/// The declared message of squash commits.
pub open spec fn squash_message_word(cfg: RepoConfig) -> Option<Seq<char>> {
    if cfg.pull is Some && cfg.pull->0.squash is Some && cfg.pull->0.squash->0.commit_message
        is Some {
        Some(cfg.pull->0.squash->0.commit_message->0.api_text())
    } else {
        None
    }
}

/// A flag that GitHub may leave out.
pub open spec fn effective(flag: Option<bool>, default: bool) -> bool {
    if flag is Some {
        flag->0
    } else {
        default
    }
}

/// Whether a flag is as declared in the end, or as it was where it is not
/// declared.
pub open spec fn flag_holds(
    declared: Option<bool>,
    default: bool,
    before: Option<bool>,
    after: Option<bool>,
) -> bool {
    if declared is Some {
        effective(after, default) == declared->0
    } else {
        after == before
    }
}

/// Whether a text is as declared in the end, or as it was where it is not
/// declared.
pub open spec fn text_holds(
    declared: Option<Seq<char>>,
    before: Option<Seq<char>>,
    after: Option<Seq<char>>,
) -> bool {
    if declared is Some {
        after == declared
    } else {
        after == before
    }
}

/// Once GitHub took the patch, the repository has each declared setting, and
/// each other setting is as it was.
pub proof fn law_declared_settings_come_about(cfg: RepoConfig, repo: RepoView)
    ensures
        ({
            let after = patched(repo, sent_fields(settings(cfg, repo)));
            &&& after.private == (if cfg.visibility is Some {
                cfg.visibility->0 is Private
            } else {
                repo.private
            })
            &&& if cfg.description is Some {
                after.description == Some(cfg.description->0@)
            } else {
                after.description == repo.description
            }
            &&& if cfg.homepage is Some {
                after.homepage == Some(cfg.homepage->0@)
            } else {
                after.homepage == repo.homepage
            }
            &&& flag_holds(wiki(cfg), true, repo.has_wiki, after.has_wiki)
            &&& flag_holds(issues(cfg), true, repo.has_issues, after.has_issues)
            &&& flag_holds(projects(cfg), true, repo.has_projects, after.has_projects)
            &&& flag_holds(discussions(cfg), false, repo.has_discussions, after.has_discussions)
            &&& flag_holds(cfg.is_template, false, repo.is_template, after.is_template)
            &&& flag_holds(cfg.is_archived, false, repo.archived, after.archived)
            &&& flag_holds(cfg.allow_forking, true, repo.allow_forking, after.allow_forking)
            &&& flag_holds(
                merge_commits(cfg),
                true,
                repo.allow_merge_commit,
                after.allow_merge_commit,
            )
            &&& flag_holds(
                squash_merges(cfg),
                true,
                repo.allow_squash_merge,
                after.allow_squash_merge,
            )
            &&& flag_holds(
                rebase_merges(cfg),
                true,
                repo.allow_rebase_merge,
                after.allow_rebase_merge,
            )
            &&& flag_holds(auto_merge(cfg), false, repo.allow_auto_merge, after.allow_auto_merge)
            &&& flag_holds(
                branch_deletion(cfg),
                false,
                repo.delete_branch_on_merge,
                after.delete_branch_on_merge,
            )
            &&& flag_holds(
                branch_updates(cfg),
                false,
                repo.allow_update_branch,
                after.allow_update_branch,
            )
            &&& flag_holds(
                signoff(cfg),
                false,
                repo.web_commit_signoff_required,
                after.web_commit_signoff_required,
            )
            &&& text_holds(merge_title_word(cfg), repo.merge_commit_title, after.merge_commit_title)
            &&& text_holds(
                merge_message_word(cfg),
                repo.merge_commit_message,
                after.merge_commit_message,
            )
            &&& text_holds(
                squash_title_word(cfg),
                repo.squash_merge_commit_title,
                after.squash_merge_commit_title,
            )
            &&& text_holds(
                squash_message_word(cfg),
                repo.squash_merge_commit_message,
                after.squash_merge_commit_message,
            )
        }),
{
    law_fields_of_the_patch(cfg, repo);
}

// --- What is reported -------------------------------------------------------

/// Whether a difference is that of a flag whose declared value is not the one
/// in effect.
pub open spec fn is_flag_change(
    change: ChangeView,
    scope: Seq<char>,
    field: Seq<char>,
    declared: Option<bool>,
    current: bool,
) -> bool {
    &&& declared == Some(!current)
    &&& change.scope == scope
    &&& change.field == field
    &&& change.from == Some(yes_no(current))
    &&& change.to == yes_no(!current)
}

/// Whether a difference is that of a text that is not the declared one.
pub open spec fn is_text_change(
    change: ChangeView,
    field: Seq<char>,
    declared: Option<Seq<char>>,
    current: Option<Seq<char>>,
) -> bool {
    &&& declared is Some && declared != current
    &&& change.scope == ""@
    &&& change.field == field
    &&& change.from == current
    &&& change.to == declared->0
}

/// Whether a difference is that of a choice that is not the declared one; it is
/// shown in lower case.
pub open spec fn is_choice_change(
    change: ChangeView,
    scope: Seq<char>,
    field: Seq<char>,
    declared: Option<Seq<char>>,
    current: Option<Seq<char>>,
) -> bool {
    &&& declared is Some && declared != current
    &&& change.scope == scope
    &&& change.field == field
    &&& current is Some ==> change.from == Some(lowercased(current->0))
    &&& current is None ==> change.from is None
    &&& change.to == lowercased(declared->0)
}

/// Whether a difference is that of a visibility that is not the declared one.
pub open spec fn is_visibility_change(
    change: ChangeView,
    declared: Option<Visibility>,
    private: bool,
) -> bool {
    &&& declared is Some
    &&& declared->0 is Private <==> !private
    &&& change.scope == ""@
    &&& change.field == "visibility"@
    &&& change.from == Some(
        if private {
            "private"@
        } else {
            "public"@
        },
    )
    &&& change.to == (if declared->0 is Private {
        "private"@
    } else if declared->0 is Public {
        "public"@
    } else {
        "internal"@
    })
}

/// Whether a difference is that of a general setting.
pub open spec fn is_general_change(change: ChangeView, cfg: RepoConfig, repo: RepoView) -> bool {
    ||| is_visibility_change(change, cfg.visibility, repo.private)
    ||| cfg.description is Some && is_text_change(
        change,
        "description"@,
        Some(cfg.description->0@),
        repo.description,
    )
    ||| cfg.homepage is Some && is_text_change(
        change,
        "homepage"@,
        Some(cfg.homepage->0@),
        repo.homepage,
    )
    ||| is_flag_change(
        change,
        "features.wiki"@,
        "enable"@,
        wiki(cfg),
        effective(repo.has_wiki, true),
    )
    ||| is_flag_change(
        change,
        "features.issues"@,
        "enable"@,
        issues(cfg),
        effective(repo.has_issues, true),
    )
    ||| is_flag_change(
        change,
        "features.projects"@,
        "enable"@,
        projects(cfg),
        effective(repo.has_projects, true),
    )
    ||| is_flag_change(
        change,
        "features.discussions"@,
        "enable"@,
        discussions(cfg),
        effective(repo.has_discussions, false),
    )
    ||| is_flag_change(
        change,
        ""@,
        "is_template"@,
        cfg.is_template,
        effective(repo.is_template, false),
    )
    ||| is_flag_change(change, ""@, "is_archived"@, cfg.is_archived, effective(repo.archived, false))
    ||| is_flag_change(
        change,
        ""@,
        "allow_forking"@,
        cfg.allow_forking,
        effective(repo.allow_forking, true),
    )
}

/// Whether a difference is that of a setting on merge or squash commits.
pub open spec fn is_commit_change(change: ChangeView, cfg: RepoConfig, repo: RepoView) -> bool {
    ||| is_flag_change(
        change,
        "pull.merge"@,
        "enable"@,
        merge_commits(cfg),
        effective(repo.allow_merge_commit, true),
    )
    ||| is_choice_change(
        change,
        "pull.merge"@,
        "commit_title"@,
        merge_title_word(cfg),
        repo.merge_commit_title,
    )
    ||| is_choice_change(
        change,
        "pull.merge"@,
        "commit_message"@,
        merge_message_word(cfg),
        repo.merge_commit_message,
    )
    ||| is_flag_change(
        change,
        "pull.squash"@,
        "enable"@,
        squash_merges(cfg),
        effective(repo.allow_squash_merge, true),
    )
    ||| is_choice_change(
        change,
        "pull.squash"@,
        "commit_title"@,
        squash_title_word(cfg),
        repo.squash_merge_commit_title,
    )
    ||| is_choice_change(
        change,
        "pull.squash"@,
        "commit_message"@,
        squash_message_word(cfg),
        repo.squash_merge_commit_message,
    )
}

/// Whether a difference is that of another setting on pull requests.
pub open spec fn is_pull_change(change: ChangeView, cfg: RepoConfig, repo: RepoView) -> bool {
    ||| is_flag_change(
        change,
        "pull.rebase"@,
        "enable"@,
        rebase_merges(cfg),
        effective(repo.allow_rebase_merge, true),
    )
    ||| is_flag_change(
        change,
        "pull"@,
        "auto_merge"@,
        auto_merge(cfg),
        effective(repo.allow_auto_merge, false),
    )
    ||| is_flag_change(
        change,
        "pull"@,
        "delete_branch_on_merge"@,
        branch_deletion(cfg),
        effective(repo.delete_branch_on_merge, false),
    )
    ||| is_flag_change(
        change,
        "pull"@,
        "update_branch"@,
        branch_updates(cfg),
        effective(repo.allow_update_branch, false),
    )
    ||| is_flag_change(
        change,
        "pull"@,
        "web_commit_signoff_required"@,
        signoff(cfg),
        effective(repo.web_commit_signoff_required, false),
    )
}

/// Each declared setting that differs is reported under its name, with what is
/// and what will be, and nothing else is reported.
pub proof fn law_settings_are_reported(cfg: RepoConfig, repo: RepoView, change: ChangeView)
    ensures
        reported(settings(cfg, repo)).contains(change) <==> is_general_change(change, cfg, repo)
            || is_commit_change(change, cfg, repo) || is_pull_change(change, cfg, repo),
{
    let rows = settings(cfg, repo);
    let general = general_settings(cfg, repo);
    let merge = merge_settings(cfg, repo);
    let squash = squash_settings(cfg, repo);
    let pull = pull_settings(cfg, repo);
    lemma_reported(rows, change);
    lemma_general_changes(cfg, repo, change);
    lemma_commit_changes(cfg, repo, change);
    lemma_pull_changes(cfg, repo, change);
    assert(rows =~= general + merge + squash + pull);
    if brings(rows, change) {
        let i = choose|i: int| 0 <= i < rows.len() && (#[trigger] rows[i]).change == Some(change);
        if i < 10 {
            assert(general[i].change == Some(change));
        } else if i < 14 {
            assert(merge[i - 10].change == Some(change));
        } else if i < 18 {
            assert(squash[i - 14].change == Some(change));
        } else {
            assert(pull[i - 18].change == Some(change));
        }
    }
    if brings(general, change) {
        let i = choose|i: int|
            0 <= i < general.len() && (#[trigger] general[i]).change == Some(change);
        assert(rows[i].change == Some(change));
    }
    if brings(merge, change) {
        let i = choose|i: int| 0 <= i < merge.len() && (#[trigger] merge[i]).change == Some(change);
        assert(rows[i + 10].change == Some(change));
    }
    if brings(squash, change) {
        let i = choose|i: int|
            0 <= i < squash.len() && (#[trigger] squash[i]).change == Some(change);
        assert(rows[i + 14].change == Some(change));
    }
    if brings(pull, change) {
        let i = choose|i: int| 0 <= i < pull.len() && (#[trigger] pull[i]).change == Some(change);
        assert(rows[i + 18].change == Some(change));
    }
}

/// Whether one of some settings has the difference.
spec fn brings(rows: Seq<Setting>, change: ChangeView) -> bool {
    exists|i: int| 0 <= i < rows.len() && (#[trigger] rows[i]).change == Some(change)
}

proof fn lemma_reported(rows: Seq<Setting>, change: ChangeView)
    ensures
        reported(rows).contains(change) <==> brings(rows, change),
    decreases rows.len(),
{
    if rows.len() > 0 {
        let rest = rows.drop_last();
        let last = rows.len() - 1;
        lemma_reported(rest, change);
        let all = reported(rows);
        if all.contains(change) {
            let k = choose|k: int| 0 <= k < all.len() && all[k] == change;
            if k < reported(rest).len() {
                assert(reported(rest)[k] == change);
                assert(reported(rest).contains(change));
                let i = choose|i: int|
                    0 <= i < rest.len() && (#[trigger] rest[i]).change == Some(change);
                assert(rows[i].change == Some(change));
            } else {
                assert(rows[last].change == Some(change));
            }
        }
        if brings(rows, change) {
            let i = choose|i: int|
                0 <= i < rows.len() && (#[trigger] rows[i]).change == Some(change);
            if i < last {
                assert(rest[i].change == Some(change));
                let k = choose|k: int| 0 <= k < reported(rest).len() && reported(rest)[k] == change;
                assert(all[k] == change);
            } else {
                assert(all[all.len() - 1] == change);
            }
        }
    }
}

proof fn lemma_general_changes(cfg: RepoConfig, repo: RepoView, change: ChangeView)
    ensures
        brings(general_settings(cfg, repo), change) <==> is_general_change(change, cfg, repo),
{
    let rows = general_settings(cfg, repo);
    assert(rows.len() == 10);
    assert(is_visibility_change(change, cfg.visibility, repo.private) <==> rows[0].change == Some(
        change,
    ));
    assert(rows[1].change == Some(change) <==> cfg.description is Some && is_text_change(
        change,
        "description"@,
        Some(cfg.description->0@),
        repo.description,
    ));
    assert(rows[2].change == Some(change) <==> cfg.homepage is Some && is_text_change(
        change,
        "homepage"@,
        Some(cfg.homepage->0@),
        repo.homepage,
    ));
    assert(rows[3].change == Some(change) <==> is_flag_change(
        change,
        "features.wiki"@,
        "enable"@,
        wiki(cfg),
        effective(repo.has_wiki, true),
    ));
    assert(rows[4].change == Some(change) <==> is_flag_change(
        change,
        "features.issues"@,
        "enable"@,
        issues(cfg),
        effective(repo.has_issues, true),
    ));
    assert(rows[5].change == Some(change) <==> is_flag_change(
        change,
        "features.projects"@,
        "enable"@,
        projects(cfg),
        effective(repo.has_projects, true),
    ));
    assert(rows[6].change == Some(change) <==> is_flag_change(
        change,
        "features.discussions"@,
        "enable"@,
        discussions(cfg),
        effective(repo.has_discussions, false),
    ));
    assert(rows[7].change == Some(change) <==> is_flag_change(
        change,
        ""@,
        "is_template"@,
        cfg.is_template,
        effective(repo.is_template, false),
    ));
    assert(rows[8].change == Some(change) <==> is_flag_change(
        change,
        ""@,
        "is_archived"@,
        cfg.is_archived,
        effective(repo.archived, false),
    ));
    assert(rows[9].change == Some(change) <==> is_flag_change(
        change,
        ""@,
        "allow_forking"@,
        cfg.allow_forking,
        effective(repo.allow_forking, true),
    ));
}

proof fn lemma_commit_changes(cfg: RepoConfig, repo: RepoView, change: ChangeView)
    ensures
        brings(merge_settings(cfg, repo), change) || brings(squash_settings(cfg, repo), change)
            <==> is_commit_change(change, cfg, repo),
{
    let rows = merge_settings(cfg, repo);
    let more = squash_settings(cfg, repo);
    assert(rows.len() == 4 && more.len() == 4);
    assert(rows[0].change == Some(change) <==> is_flag_change(
        change,
        "pull.merge"@,
        "enable"@,
        merge_commits(cfg),
        effective(repo.allow_merge_commit, true),
    ));
    assert(rows[1].change == Some(change) <==> is_choice_change(
        change,
        "pull.merge"@,
        "commit_title"@,
        merge_title_word(cfg),
        repo.merge_commit_title,
    ));
    assert(rows[2].change == Some(change) <==> is_choice_change(
        change,
        "pull.merge"@,
        "commit_message"@,
        merge_message_word(cfg),
        repo.merge_commit_message,
    ));
    assert(rows[3].change is None && more[3].change is None);
    assert(more[0].change == Some(change) <==> is_flag_change(
        change,
        "pull.squash"@,
        "enable"@,
        squash_merges(cfg),
        effective(repo.allow_squash_merge, true),
    ));
    assert(more[1].change == Some(change) <==> is_choice_change(
        change,
        "pull.squash"@,
        "commit_title"@,
        squash_title_word(cfg),
        repo.squash_merge_commit_title,
    ));
    assert(more[2].change == Some(change) <==> is_choice_change(
        change,
        "pull.squash"@,
        "commit_message"@,
        squash_message_word(cfg),
        repo.squash_merge_commit_message,
    ));
}

proof fn lemma_pull_changes(cfg: RepoConfig, repo: RepoView, change: ChangeView)
    ensures
        brings(pull_settings(cfg, repo), change) <==> is_pull_change(change, cfg, repo),
{
    let rows = pull_settings(cfg, repo);
    assert(rows.len() == 5);
    assert(rows[0].change == Some(change) <==> is_flag_change(
        change,
        "pull.rebase"@,
        "enable"@,
        rebase_merges(cfg),
        effective(repo.allow_rebase_merge, true),
    ));
    assert(rows[1].change == Some(change) <==> is_flag_change(
        change,
        "pull"@,
        "auto_merge"@,
        auto_merge(cfg),
        effective(repo.allow_auto_merge, false),
    ));
    assert(rows[2].change == Some(change) <==> is_flag_change(
        change,
        "pull"@,
        "delete_branch_on_merge"@,
        branch_deletion(cfg),
        effective(repo.delete_branch_on_merge, false),
    ));
    assert(rows[3].change == Some(change) <==> is_flag_change(
        change,
        "pull"@,
        "update_branch"@,
        branch_updates(cfg),
        effective(repo.allow_update_branch, false),
    ));
    assert(rows[4].change == Some(change) <==> is_flag_change(
        change,
        "pull"@,
        "web_commit_signoff_required"@,
        signoff(cfg),
        effective(repo.web_commit_signoff_required, false),
    ));
}

} // verus!
