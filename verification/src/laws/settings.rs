//! Laws of the settings that `PATCH /repos/{owner}/{repo}` takes.

use vstd::prelude::*;

use crate::config::{FeaturesConfig, PullRequestConfig, RepoConfig, Visibility};
use crate::github::RepoView;
use crate::json::JsonView;
use crate::keymap::{lemma_lookup_with_entry, lookup, with_entry};
use crate::settings::{
    feature, flag_or, general_settings, merge_message, merge_of, merge_settings, merge_title,
    pull_flag, pull_settings, reported, sent_fields, settings, squash_message, squash_of,
    squash_settings, squash_title, toggled, Setting,
};
use crate::text::opt_text;

verus! {

// --- The fields of the API are told apart ---------------------------------

/// The number of a field, by its length and a few of its characters.
spec fn field_number(name: Seq<char>) -> int {
    if name.len() == 7 {
        0
    } else if name.len() == 11 {
        if name[0] == 'd' {
            1
        } else {
            7
        }
    } else if name.len() == 8 {
        if name[0] == 'a' {
            8
        } else if name[1] == 'o' {
            2
        } else {
            3
        }
    } else if name.len() == 10 {
        4
    } else if name.len() == 12 {
        5
    } else if name.len() == 15 {
        6
    } else if name.len() == 13 {
        9
    } else if name.len() == 18 {
        if name[0] == 'm' {
            11
        } else if name[6] == 'm' {
            10
        } else if name[6] == 's' {
            14
        } else {
            18
        }
    } else if name.len() == 20 {
        12
    } else if name.len() == 25 {
        15
    } else if name.len() == 27 {
        if name[0] == 's' {
            16
        } else {
            22
        }
    } else if name.len() == 16 {
        19
    } else if name.len() == 22 {
        20
    } else {
        21
    }
}

/// The number of the field of each setting. The carried titles have the fields
/// of the titles.
spec fn number_at(index: int) -> int {
    if index == 13 {
        11
    } else if index == 17 {
        15
    } else {
        index
    }
}

proof fn lemma_field_numbers()
    ensures
        field_number("private"@) == 0,
        field_number("description"@) == 1,
        field_number("homepage"@) == 2,
        field_number("has_wiki"@) == 3,
        field_number("has_issues"@) == 4,
        field_number("has_projects"@) == 5,
        field_number("has_discussions"@) == 6,
        field_number("is_template"@) == 7,
        field_number("archived"@) == 8,
        field_number("allow_forking"@) == 9,
        field_number("allow_merge_commit"@) == 10,
        field_number("merge_commit_title"@) == 11,
        field_number("merge_commit_message"@) == 12,
        field_number("allow_squash_merge"@) == 14,
        field_number("squash_merge_commit_title"@) == 15,
        field_number("squash_merge_commit_message"@) == 16,
        field_number("allow_rebase_merge"@) == 18,
        field_number("allow_auto_merge"@) == 19,
        field_number("delete_branch_on_merge"@) == 20,
        field_number("allow_update_branch"@) == 21,
        field_number("web_commit_signoff_required"@) == 22,
{
    reveal_strlit("private");
    reveal_strlit("description");
    reveal_strlit("homepage");
    reveal_strlit("has_wiki");
    reveal_strlit("has_issues");
    reveal_strlit("has_projects");
    reveal_strlit("has_discussions");
    reveal_strlit("is_template");
    reveal_strlit("archived");
    reveal_strlit("allow_forking");
    reveal_strlit("allow_merge_commit");
    reveal_strlit("merge_commit_title");
    reveal_strlit("merge_commit_message");
    reveal_strlit("allow_squash_merge");
    reveal_strlit("squash_merge_commit_title");
    reveal_strlit("squash_merge_commit_message");
    reveal_strlit("allow_rebase_merge");
    reveal_strlit("allow_auto_merge");
    reveal_strlit("delete_branch_on_merge");
    reveal_strlit("allow_update_branch");
    reveal_strlit("web_commit_signoff_required");
}

/// Two settings have one field only where the second carries the title.
proof fn lemma_fields_apart(cfg: RepoConfig, repo: RepoView)
    ensures
        settings(cfg, repo).len() == 23,
        forall|i: int|
            0 <= i < 23 ==> field_number((#[trigger] settings(cfg, repo)[i]).api_field) == number_at(
                i,
            ),
{
    lemma_field_numbers();
    let general = general_settings(cfg, repo);
    let merge = merge_settings(cfg, repo);
    let squash = squash_settings(cfg, repo);
    let pull = pull_settings(cfg, repo);
    assert(general.len() == 10 && merge.len() == 4 && squash.len() == 4 && pull.len() == 5);
    assert forall|i: int| 0 <= i < 23 implies field_number(
        (#[trigger] settings(cfg, repo)[i]).api_field,
    ) == number_at(i) by {
        if i < 10 {
            assert(settings(cfg, repo)[i] == general[i]);
        } else if i < 14 {
            assert(settings(cfg, repo)[i] == merge[i - 10]);
        } else if i < 18 {
            assert(settings(cfg, repo)[i] == squash[i - 14]);
        } else {
            assert(settings(cfg, repo)[i] == pull[i - 18]);
        }
    }
}

// --- What a patch holds -----------------------------------------------------

/// A field is sent where some setting of that field has a value.
proof fn lemma_sent_from_setting(rows: Seq<Setting>, key: Seq<char>)
    ensures
        match lookup(sent_fields(rows), key) {
            Some(value) => exists|i: int|
                0 <= i < rows.len() && (#[trigger] rows[i]).api_field == key && rows[i].value
                    == Some(value),
            None => forall|i: int|
                0 <= i < rows.len() && (#[trigger] rows[i]).api_field == key ==> rows[i].value is None,
        },
    decreases rows.len(),
{
    if rows.len() > 0 {
        let rest = rows.drop_last();
        lemma_sent_from_setting(rest, key);
        if let Some(value) = rows.last().value {
            lemma_lookup_with_entry(sent_fields(rest), rows.last().api_field, value, key);
        }
        if rows.last().api_field == key && rows.last().value is Some {
            assert(rows[rows.len() - 1] == rows.last());
        } else {
            match lookup(sent_fields(rest), key) {
                Some(value) => {
                    let i = choose|i: int|
                        0 <= i < rest.len() && (#[trigger] rest[i]).api_field == key && rest[i].value
                            == Some(value);
                    assert(rows[i] == rest[i]);
                },
                None => {
                    assert forall|i: int|
                        0 <= i < rows.len() && (#[trigger] rows[i]).api_field == key implies rows[i].value is None by {
                        if i < rest.len() {
                            assert(rest[i] == rows[i]);
                        }
                    }
                },
            }
        }
    }
}

/// The value of the only setting of a field that may have one is the value
/// that is sent.
proof fn lemma_sent_value(rows: Seq<Setting>, index: int)
    requires
        0 <= index < rows.len(),
        forall|j: int|
            0 <= j < rows.len() && j != index && (#[trigger] rows[j]).api_field
                == rows[index].api_field ==> rows[j].value is None,
    ensures
        lookup(sent_fields(rows), rows[index].api_field) == rows[index].value,
{
    lemma_sent_from_setting(rows, rows[index].api_field);
}

/// Each setting is sent as it is, the two titles with their settings or else
/// as they are carried along.
proof fn lemma_sent_values(cfg: RepoConfig, repo: RepoView)
    ensures
        forall|i: int|
            0 <= i < 23 && i != 11 && i != 13 && i != 15 && i != 17 ==> lookup(
                sent_fields(settings(cfg, repo)),
                (#[trigger] settings(cfg, repo)[i]).api_field,
            ) == settings(cfg, repo)[i].value,
        lookup(sent_fields(settings(cfg, repo)), "merge_commit_title"@) == (if merge_title(
            cfg,
            repo,
        ).value is Some {
            merge_title(cfg, repo).value
        } else {
            settings(cfg, repo)[13].value
        }),
        lookup(sent_fields(settings(cfg, repo)), "squash_merge_commit_title"@) == (if squash_title(
            cfg,
            repo,
        ).value is Some {
            squash_title(cfg, repo).value
        } else {
            settings(cfg, repo)[17].value
        }),
{
    let rows = settings(cfg, repo);
    lemma_fields_apart(cfg, repo);
    assert forall|i: int| 0 <= i < 23 && i != 11 && i != 13 && i != 15 && i != 17 implies lookup(
        sent_fields(rows),
        (#[trigger] rows[i]).api_field,
    ) == rows[i].value by {
        assert(field_number(rows[i].api_field) == number_at(i));
        assert forall|j: int|
            0 <= j < rows.len() && j != i && (#[trigger] rows[j]).api_field == rows[i].api_field implies rows[j].value is None by {
            assert(field_number(rows[j].api_field) == number_at(j));
        }
        lemma_sent_value(rows, i);
    }
    assert(rows[11] == merge_settings(cfg, repo)[1]);
    assert(rows[13] == merge_settings(cfg, repo)[3]);
    assert(rows[15] == squash_settings(cfg, repo)[1]);
    assert(rows[17] == squash_settings(cfg, repo)[3]);
    let merge: int = if merge_title(cfg, repo).value is Some {
        11
    } else {
        13
    };
    assert forall|j: int|
        0 <= j < rows.len() && j != merge && (#[trigger] rows[j]).api_field
            == rows[merge].api_field implies rows[j].value is None by {
        assert(field_number(rows[j].api_field) == number_at(j));
        assert(field_number(rows[merge].api_field) == number_at(merge));
    }
    lemma_sent_value(rows, merge);
    let squash: int = if squash_title(cfg, repo).value is Some {
        15
    } else {
        17
    };
    assert forall|j: int|
        0 <= j < rows.len() && j != squash && (#[trigger] rows[j]).api_field
            == rows[squash].api_field implies rows[j].value is None by {
        assert(field_number(rows[j].api_field) == number_at(j));
        assert(field_number(rows[squash].api_field) == number_at(squash));
    }
    lemma_sent_value(rows, squash);
}

// --- Laws ------------------------------------------------------------------

/// Whether the configuration declares the setting that GitHub keeps in the
/// given field. A declared commit message speaks for the title that it needs.
pub open spec fn declared(cfg: RepoConfig, field: Seq<char>) -> bool {
    ||| field == "private"@ && cfg.visibility is Some
    ||| field == "description"@ && cfg.description is Some
    ||| field == "homepage"@ && cfg.homepage is Some
    ||| field == "has_wiki"@ && feature(cfg, |f: FeaturesConfig| f.wiki) is Some
    ||| field == "has_issues"@ && feature(cfg, |f: FeaturesConfig| f.issues) is Some
    ||| field == "has_projects"@ && feature(cfg, |f: FeaturesConfig| f.projects) is Some
    ||| field == "has_discussions"@ && feature(cfg, |f: FeaturesConfig| f.discussions) is Some
    ||| field == "is_template"@ && cfg.is_template is Some
    ||| field == "archived"@ && cfg.is_archived is Some
    ||| field == "allow_forking"@ && cfg.allow_forking is Some
    ||| field == "allow_merge_commit"@ && merge_of(cfg).enable is Some
    ||| field == "merge_commit_title"@
        && (merge_of(cfg).commit_title is Some || merge_of(cfg).commit_message is Some)
    ||| field == "merge_commit_message"@ && merge_of(cfg).commit_message is Some
    ||| field == "allow_squash_merge"@ && squash_of(cfg).enable is Some
    ||| field == "squash_merge_commit_title"@
        && (squash_of(cfg).commit_title is Some || squash_of(cfg).commit_message is Some)
    ||| field == "squash_merge_commit_message"@ && squash_of(cfg).commit_message is Some
    ||| field == "allow_rebase_merge"@
        && pull_flag(cfg, |p: PullRequestConfig| toggled(p.rebase)) is Some
    ||| field == "allow_auto_merge"@ && pull_flag(cfg, |p: PullRequestConfig| p.auto_merge) is Some
    ||| field == "delete_branch_on_merge"@
        && pull_flag(cfg, |p: PullRequestConfig| p.delete_branch_on_merge) is Some
    ||| field == "allow_update_branch"@
        && pull_flag(cfg, |p: PullRequestConfig| p.update_branch) is Some
    ||| field == "web_commit_signoff_required"@
        && pull_flag(cfg, |p: PullRequestConfig| p.web_commit_signoff_required) is Some
}

/// An absent option means "leave it alone": a field is sent only where the
/// configuration declares its setting.
pub proof fn law_undeclared_settings_are_left_alone(
    cfg: RepoConfig,
    repo: RepoView,
    field: Seq<char>,
)
    requires
        lookup(sent_fields(settings(cfg, repo)), field) is Some,
    ensures
        declared(cfg, field),
{
    let rows = settings(cfg, repo);
    lemma_fields_apart(cfg, repo);
    lemma_sent_from_setting(rows, field);
    let i = choose|i: int|
        0 <= i < rows.len() && (#[trigger] rows[i]).api_field == field && rows[i].value is Some;
    if i < 10 {
        assert(rows[i] == general_settings(cfg, repo)[i]);
    } else if i < 14 {
        assert(rows[i] == merge_settings(cfg, repo)[i - 10]);
    } else if i < 18 {
        assert(rows[i] == squash_settings(cfg, repo)[i - 14]);
    } else {
        assert(rows[i] == pull_settings(cfg, repo)[i - 18]);
    }
}

/// A declared flag is sent where it differs.
pub open spec fn flag_sent(declared: Option<bool>, current: bool) -> Option<JsonView> {
    if declared is Some && declared->0 != current {
        Some(JsonView::Bool(declared->0))
    } else {
        None
    }
}

/// A declared text is sent where it differs.
pub open spec fn text_sent(
    declared: Option<Seq<char>>,
    current: Option<Seq<char>>,
) -> Option<JsonView> {
    if declared is Some && declared != current {
        Some(JsonView::String(declared->0))
    } else {
        None
    }
}

/// A commit title is sent where it differs, or else as it is where the message
/// is sent.
pub open spec fn title_sent(
    declared: Option<Seq<char>>,
    current: Option<Seq<char>>,
    message: Option<JsonView>,
) -> Option<JsonView> {
    if text_sent(declared, current) is Some {
        text_sent(declared, current)
    } else if message is Some && current is Some {
        Some(JsonView::String(current->0))
    } else {
        None
    }
}

/// What is declared is sent where it differs: each flag and each text of the
/// patch has the declared value.
pub proof fn law_fields_of_the_patch(cfg: RepoConfig, repo: RepoView)
    ensures
        ({
            let patch = sent_fields(settings(cfg, repo));
            let merge_text = match merge_of(cfg).commit_title {
                Some(t) => Some(t.api_text()),
                None => None,
            };
            let squash_text = match squash_of(cfg).commit_title {
                Some(t) => Some(t.api_text()),
                None => None,
            };
            &&& lookup(patch, "private"@) == (match cfg.visibility {
                Some(visibility) => flag_sent(
                    Some(visibility == Visibility::Private),
                    repo.private,
                ),
                None => None,
            })
            &&& lookup(patch, "description"@) == text_sent(
                opt_text(cfg.description),
                repo.description,
            )
            &&& lookup(patch, "homepage"@) == text_sent(opt_text(cfg.homepage), repo.homepage)
            &&& lookup(patch, "has_wiki"@) == flag_sent(
                feature(cfg, |f: FeaturesConfig| f.wiki),
                flag_or(repo.has_wiki, true),
            )
            &&& lookup(patch, "has_issues"@) == flag_sent(
                feature(cfg, |f: FeaturesConfig| f.issues),
                flag_or(repo.has_issues, true),
            )
            &&& lookup(patch, "has_projects"@) == flag_sent(
                feature(cfg, |f: FeaturesConfig| f.projects),
                flag_or(repo.has_projects, true),
            )
            &&& lookup(patch, "has_discussions"@) == flag_sent(
                feature(cfg, |f: FeaturesConfig| f.discussions),
                flag_or(repo.has_discussions, false),
            )
            &&& lookup(patch, "is_template"@) == flag_sent(
                cfg.is_template,
                flag_or(repo.is_template, false),
            )
            &&& lookup(patch, "archived"@) == flag_sent(
                cfg.is_archived,
                flag_or(repo.archived, false),
            )
            &&& lookup(patch, "allow_forking"@) == flag_sent(
                cfg.allow_forking,
                flag_or(repo.allow_forking, true),
            )
            &&& lookup(patch, "allow_merge_commit"@) == flag_sent(
                merge_of(cfg).enable,
                flag_or(repo.allow_merge_commit, true),
            )
            &&& lookup(patch, "allow_squash_merge"@) == flag_sent(
                squash_of(cfg).enable,
                flag_or(repo.allow_squash_merge, true),
            )
            &&& lookup(patch, "allow_rebase_merge"@) == flag_sent(
                pull_flag(cfg, |p: PullRequestConfig| toggled(p.rebase)),
                flag_or(repo.allow_rebase_merge, true),
            )
            &&& lookup(patch, "allow_auto_merge"@) == flag_sent(
                pull_flag(cfg, |p: PullRequestConfig| p.auto_merge),
                flag_or(repo.allow_auto_merge, false),
            )
            &&& lookup(patch, "delete_branch_on_merge"@) == flag_sent(
                pull_flag(cfg, |p: PullRequestConfig| p.delete_branch_on_merge),
                flag_or(repo.delete_branch_on_merge, false),
            )
            &&& lookup(patch, "allow_update_branch"@) == flag_sent(
                pull_flag(cfg, |p: PullRequestConfig| p.update_branch),
                flag_or(repo.allow_update_branch, false),
            )
            &&& lookup(patch, "web_commit_signoff_required"@) == flag_sent(
                pull_flag(cfg, |p: PullRequestConfig| p.web_commit_signoff_required),
                flag_or(repo.web_commit_signoff_required, false),
            )
            &&& lookup(patch, "merge_commit_message"@) == text_sent(
                match merge_of(cfg).commit_message {
                    Some(m) => Some(m.api_text()),
                    None => None,
                },
                repo.merge_commit_message,
            )
            &&& lookup(patch, "merge_commit_title"@) == title_sent(
                merge_text,
                repo.merge_commit_title,
                lookup(patch, "merge_commit_message"@),
            )
            &&& lookup(patch, "squash_merge_commit_message"@) == text_sent(
                match squash_of(cfg).commit_message {
                    Some(m) => Some(m.api_text()),
                    None => None,
                },
                repo.squash_merge_commit_message,
            )
            &&& lookup(patch, "squash_merge_commit_title"@) == title_sent(
                squash_text,
                repo.squash_merge_commit_title,
                lookup(patch, "squash_merge_commit_message"@),
            )
        }),
{
    let rows = settings(cfg, repo);
    let general = general_settings(cfg, repo);
    let pull = pull_settings(cfg, repo);
    let patch = sent_fields(rows);
    lemma_settings_in_patch(cfg, repo);
    lemma_commit_text_in_patch(cfg, repo);
    assert(lookup(patch, general[0].api_field) == general[0].value);
    assert(lookup(patch, general[1].api_field) == general[1].value);
    assert(lookup(patch, general[2].api_field) == general[2].value);
    assert(lookup(patch, general[3].api_field) == general[3].value);
    assert(lookup(patch, general[4].api_field) == general[4].value);
    assert(lookup(patch, general[5].api_field) == general[5].value);
    assert(lookup(patch, general[6].api_field) == general[6].value);
    assert(lookup(patch, general[7].api_field) == general[7].value);
    assert(lookup(patch, general[8].api_field) == general[8].value);
    assert(lookup(patch, general[9].api_field) == general[9].value);
    assert(lookup(patch, pull[0].api_field) == pull[0].value);
    assert(lookup(patch, pull[1].api_field) == pull[1].value);
    assert(lookup(patch, pull[2].api_field) == pull[2].value);
    assert(lookup(patch, pull[3].api_field) == pull[3].value);
    assert(lookup(patch, pull[4].api_field) == pull[4].value);
}

/// A flag of a repository after a patch.
pub open spec fn flag_after(
    patch: Seq<(Seq<char>, JsonView)>,
    field: Seq<char>,
    before: Option<bool>,
) -> Option<bool> {
    match lookup(patch, field) {
        Some(JsonView::Bool(flag)) => Some(flag),
        _ => before,
    }
}

/// A text of a repository after a patch.
pub open spec fn text_after(
    patch: Seq<(Seq<char>, JsonView)>,
    field: Seq<char>,
    before: Option<Seq<char>>,
) -> Option<Seq<char>> {
    match lookup(patch, field) {
        Some(JsonView::String(text)) => Some(text),
        _ => before,
    }
}

/// A repository after GitHub took a patch: the fields of the patch have its
/// values, and everything else stays as it was.
pub open spec fn patched(repo: RepoView, patch: Seq<(Seq<char>, JsonView)>) -> RepoView {
    RepoView {
        name: repo.name,
        topics: repo.topics,
        private: match lookup(patch, "private"@) {
            Some(JsonView::Bool(private)) => private,
            _ => repo.private,
        },
        description: text_after(patch, "description"@, repo.description),
        homepage: text_after(patch, "homepage"@, repo.homepage),
        merge_commit_title: text_after(patch, "merge_commit_title"@, repo.merge_commit_title),
        merge_commit_message: text_after(patch, "merge_commit_message"@, repo.merge_commit_message),
        squash_merge_commit_title: text_after(
            patch,
            "squash_merge_commit_title"@,
            repo.squash_merge_commit_title,
        ),
        squash_merge_commit_message: text_after(
            patch,
            "squash_merge_commit_message"@,
            repo.squash_merge_commit_message,
        ),
        has_issues: flag_after(patch, "has_issues"@, repo.has_issues),
        has_wiki: flag_after(patch, "has_wiki"@, repo.has_wiki),
        has_projects: flag_after(patch, "has_projects"@, repo.has_projects),
        has_discussions: flag_after(patch, "has_discussions"@, repo.has_discussions),
        allow_merge_commit: flag_after(patch, "allow_merge_commit"@, repo.allow_merge_commit),
        allow_squash_merge: flag_after(patch, "allow_squash_merge"@, repo.allow_squash_merge),
        allow_rebase_merge: flag_after(patch, "allow_rebase_merge"@, repo.allow_rebase_merge),
        allow_auto_merge: flag_after(patch, "allow_auto_merge"@, repo.allow_auto_merge),
        delete_branch_on_merge: flag_after(
            patch,
            "delete_branch_on_merge"@,
            repo.delete_branch_on_merge,
        ),
        allow_update_branch: flag_after(patch, "allow_update_branch"@, repo.allow_update_branch),
        web_commit_signoff_required: flag_after(
            patch,
            "web_commit_signoff_required"@,
            repo.web_commit_signoff_required,
        ),
        allow_forking: flag_after(patch, "allow_forking"@, repo.allow_forking),
        is_template: flag_after(patch, "is_template"@, repo.is_template),
        archived: flag_after(patch, "archived"@, repo.archived),
    }
}

/// The settings of a repository that needs no change.
spec fn settled(rows: Seq<Setting>) -> bool {
    forall|i: int| 0 <= i < rows.len() ==> (#[trigger] rows[i]).value is None && rows[i].change is None
}

proof fn lemma_settled(rows: Seq<Setting>)
    requires
        settled(rows),
    ensures
        sent_fields(rows).len() == 0,
        reported(rows).len() == 0,
    decreases rows.len(),
{
    if rows.len() > 0 {
        let rest = rows.drop_last();
        assert forall|i: int| 0 <= i < rest.len() implies (#[trigger] rest[i]).value is None
            && rest[i].change is None by {
            assert(rest[i] == rows[i]);
        }
        lemma_settled(rest);
        assert(rows[rows.len() - 1] == rows.last());
    }
}

/// Whether each of the given settings is in the patch as it is.
spec fn in_patch(rows: Seq<Setting>, patch: Seq<(Seq<char>, JsonView)>) -> bool {
    forall|i: int|
        0 <= i < rows.len() ==> lookup(patch, (#[trigger] rows[i]).api_field) == rows[i].value
}

proof fn lemma_settings_in_patch(cfg: RepoConfig, repo: RepoView)
    ensures
        in_patch(general_settings(cfg, repo), sent_fields(settings(cfg, repo))),
        in_patch(pull_settings(cfg, repo), sent_fields(settings(cfg, repo))),
{
    let rows = settings(cfg, repo);
    let general = general_settings(cfg, repo);
    let pull = pull_settings(cfg, repo);
    lemma_sent_values(cfg, repo);
    assert forall|i: int| 0 <= i < general.len() implies lookup(
        sent_fields(rows),
        (#[trigger] general[i]).api_field,
    ) == general[i].value by {
        assert(rows[i] == general[i]);
    }
    assert forall|i: int| 0 <= i < pull.len() implies lookup(
        sent_fields(rows),
        (#[trigger] pull[i]).api_field,
    ) == pull[i].value by {
        assert(rows[i + 18] == pull[i]);
    }
}

proof fn lemma_commit_text_in_patch(cfg: RepoConfig, repo: RepoView)
    ensures
        ({
            let patch = sent_fields(settings(cfg, repo));
            &&& lookup(patch, "allow_merge_commit"@) == merge_settings(cfg, repo)[0].value
            &&& lookup(patch, "merge_commit_message"@) == merge_message(cfg, repo).value
            &&& lookup(patch, "merge_commit_title"@) == (if merge_title(cfg, repo).value is Some {
                merge_title(cfg, repo).value
            } else {
                merge_settings(cfg, repo)[3].value
            })
            &&& lookup(patch, "allow_squash_merge"@) == squash_settings(cfg, repo)[0].value
            &&& lookup(patch, "squash_merge_commit_message"@) == squash_message(cfg, repo).value
            &&& lookup(patch, "squash_merge_commit_title"@) == (if squash_title(
                cfg,
                repo,
            ).value is Some {
                squash_title(cfg, repo).value
            } else {
                squash_settings(cfg, repo)[3].value
            })
        }),
{
    let rows = settings(cfg, repo);
    let merge = merge_settings(cfg, repo);
    let squash = squash_settings(cfg, repo);
    lemma_sent_values(cfg, repo);
    assert(rows[10] == merge[0] && rows[12] == merge[2] && rows[13] == merge[3]);
    assert(rows[14] == squash[0] && rows[16] == squash[2] && rows[17] == squash[3]);
}

proof fn lemma_all_settled(cfg: RepoConfig, repo: RepoView)
    requires
        settled(general_settings(cfg, repo)),
        settled(merge_settings(cfg, repo)),
        settled(squash_settings(cfg, repo)),
        settled(pull_settings(cfg, repo)),
    ensures
        sent_fields(settings(cfg, repo)).len() == 0,
        reported(settings(cfg, repo)).len() == 0,
{
    let rows = settings(cfg, repo);
    let general = general_settings(cfg, repo);
    let merge = merge_settings(cfg, repo);
    let squash = squash_settings(cfg, repo);
    let pull = pull_settings(cfg, repo);
    assert forall|i: int| 0 <= i < rows.len() implies (#[trigger] rows[i]).value is None
        && rows[i].change is None by {
        if i < 10 {
            assert(rows[i] == general[i]);
        } else if i < 14 {
            assert(rows[i] == merge[i - 10]);
        } else if i < 18 {
            assert(rows[i] == squash[i - 14]);
        } else {
            assert(rows[i] == pull[i - 18]);
        }
    }
    lemma_settled(rows);
}

proof fn lemma_general_settled(
    cfg: RepoConfig,
    repo: RepoView,
    after: RepoView,
    patch: Seq<(Seq<char>, JsonView)>,
)
    requires
        after == patched(repo, patch),
        in_patch(general_settings(cfg, repo), patch),
    ensures
        settled(general_settings(cfg, after)),
{
    let rows = general_settings(cfg, repo);
    assert forall|i: int| 0 <= i < 10 implies (#[trigger] general_settings(cfg, after)[i]).value is None
        && general_settings(cfg, after)[i].change is None by {
        assert(lookup(patch, rows[i].api_field) == rows[i].value);
    }
}

proof fn lemma_merge_settled(
    cfg: RepoConfig,
    repo: RepoView,
    after: RepoView,
    patch: Seq<(Seq<char>, JsonView)>,
)
    requires
        after == patched(repo, patch),
        lookup(patch, "allow_merge_commit"@) == merge_settings(cfg, repo)[0].value,
        lookup(patch, "merge_commit_message"@) == merge_message(cfg, repo).value,
        lookup(patch, "merge_commit_title"@) == (if merge_title(cfg, repo).value is Some {
            merge_title(cfg, repo).value
        } else {
            merge_settings(cfg, repo)[3].value
        }),
        lookup(patch, "allow_squash_merge"@) == squash_settings(cfg, repo)[0].value,
        lookup(patch, "squash_merge_commit_message"@) == squash_message(cfg, repo).value,
        lookup(patch, "squash_merge_commit_title"@) == (if squash_title(cfg, repo).value is Some {
            squash_title(cfg, repo).value
        } else {
            squash_settings(cfg, repo)[3].value
        }),
    ensures
        settled(merge_settings(cfg, after)),
        settled(squash_settings(cfg, after)),
{
}

proof fn lemma_pull_settled(
    cfg: RepoConfig,
    repo: RepoView,
    after: RepoView,
    patch: Seq<(Seq<char>, JsonView)>,
)
    requires
        after == patched(repo, patch),
        in_patch(pull_settings(cfg, repo), patch),
    ensures
        settled(pull_settings(cfg, after)),
{
    let rows = pull_settings(cfg, repo);
    assert forall|i: int| 0 <= i < 5 implies (#[trigger] pull_settings(cfg, after)[i]).value is None
        && pull_settings(cfg, after)[i].change is None by {
        assert(lookup(patch, rows[i].api_field) == rows[i].value);
    }
}

/// Settings converge: once GitHub took the patch, nothing is sent and nothing
/// is reported any more.
pub proof fn law_settings_converge(cfg: RepoConfig, repo: RepoView)
    ensures
        sent_fields(settings(cfg, patched(repo, sent_fields(settings(cfg, repo))))).len() == 0,
        reported(settings(cfg, patched(repo, sent_fields(settings(cfg, repo))))).len() == 0,
{
    let patch = sent_fields(settings(cfg, repo));
    let after = patched(repo, patch);
    lemma_settings_in_patch(cfg, repo);
    lemma_commit_text_in_patch(cfg, repo);
    lemma_general_settled(cfg, repo, after, patch);
    lemma_merge_settled(cfg, repo, after, patch);
    lemma_pull_settled(cfg, repo, after, patch);
    lemma_all_settled(cfg, after);
}

/// GitHub requires the commit title whenever the commit message is set: with a
/// message goes a title, wherever one is declared or known.
pub proof fn law_message_comes_with_a_title(cfg: RepoConfig, repo: RepoView)
    ensures
        lookup(sent_fields(settings(cfg, repo)), "merge_commit_message"@) is Some && (merge_of(
            cfg,
        ).commit_title is Some || repo.merge_commit_title is Some) ==> lookup(
            sent_fields(settings(cfg, repo)),
            "merge_commit_title"@,
        ) is Some,
        lookup(sent_fields(settings(cfg, repo)), "squash_merge_commit_message"@) is Some && (
        squash_of(cfg).commit_title is Some || repo.squash_merge_commit_title is Some) ==> lookup(
            sent_fields(settings(cfg, repo)),
            "squash_merge_commit_title"@,
        ) is Some,
{
    lemma_sent_values(cfg, repo);
    let rows = settings(cfg, repo);
    assert(rows[12] == merge_settings(cfg, repo)[2]);
    assert(rows[13] == merge_settings(cfg, repo)[3]);
    assert(rows[16] == squash_settings(cfg, repo)[2]);
    assert(rows[17] == squash_settings(cfg, repo)[3]);
}

/// Something is sent where some setting has a value, and something is reported
/// where some setting differs.
proof fn lemma_nothing_iff_none(rows: Seq<Setting>)
    ensures
        sent_fields(rows).len() == 0 <==> forall|i: int|
            0 <= i < rows.len() ==> (#[trigger] rows[i]).value is None,
        reported(rows).len() == 0 <==> forall|i: int|
            0 <= i < rows.len() ==> (#[trigger] rows[i]).change is None,
    decreases rows.len(),
{
    if rows.len() > 0 {
        let rest = rows.drop_last();
        lemma_nothing_iff_none(rest);
        assert(forall|i: int| 0 <= i < rest.len() ==> #[trigger] rest[i] == rows[i]);
        assert(forall|i: int| 0 <= i < rest.len() ==> rest[i] == #[trigger] rows[i]);
        assert(rows[rows.len() - 1] == rows.last());
        if let Some(value) = rows.last().value {
            assert(with_entry(sent_fields(rest), rows.last().api_field, value).len() > 0);
        }
    }
}

/// A patch is sent exactly where a difference is reported: a dry run shows
/// whatever a real run would change, and nothing else.
pub proof fn law_sent_where_reported(cfg: RepoConfig, repo: RepoView)
    ensures
        sent_fields(settings(cfg, repo)).len() == 0 <==> reported(settings(cfg, repo)).len() == 0,
{
    let rows = settings(cfg, repo);
    lemma_nothing_iff_none(rows);
    let general = general_settings(cfg, repo);
    let merge = merge_settings(cfg, repo);
    let squash = squash_settings(cfg, repo);
    let pull = pull_settings(cfg, repo);
    assert forall|i: int| 0 <= i < rows.len() && i != 13 && i != 17 implies ((
    #[trigger] rows[i]).value is None <==> rows[i].change is None) by {
        if i < 10 {
            assert(rows[i] == general[i]);
        } else if i < 14 {
            assert(rows[i] == merge[i - 10]);
        } else if i < 18 {
            assert(rows[i] == squash[i - 14]);
        } else {
            assert(rows[i] == pull[i - 18]);
        }
    }
    assert(rows[12] == merge[2] && rows[13] == merge[3]);
    assert(rows[16] == squash[2] && rows[17] == squash[3]);
}

/// Nothing is sent and nothing is reported of settings that are not declared.
pub proof fn lemma_nothing_declared(cfg: RepoConfig, repo: RepoView)
    requires
        cfg.description is None,
        cfg.homepage is None,
        cfg.visibility is None,
        cfg.features is None,
        cfg.is_template is None,
        cfg.is_archived is None,
        cfg.allow_forking is None,
        cfg.pull is None,
    ensures
        sent_fields(settings(cfg, repo)).len() == 0,
        reported(settings(cfg, repo)).len() == 0,
{
    lemma_all_settled(cfg, repo);
}

} // verus!
