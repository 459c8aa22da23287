//! Reconciling the settings that `PATCH /repos/{owner}/{repo}` takes.

use vstd::prelude::*;

use crate::change::{add_change, change_views, Change, ChangeView};
use crate::config::{
    FeaturesConfig, MergeConfig, PullRequestConfig, RepoConfig, SquashConfig, Toggle, Visibility,
};
use crate::github::{Repo, RepoView};
use crate::json::{object_view, put, Json, JsonView};
use crate::keymap::KeyMap;
use crate::rulesets::{no_fields, with_optional};
use crate::text::{lowercased, opt_text, same, truth, truth_text};

verus! {

// --- Models -------------------------------------------------------------

/// One setting: the field of the API, the value to send where one has to be
/// sent, and the difference to report where there is one.
pub struct Setting {
    pub api_field: Seq<char>,
    pub value: Option<JsonView>,
    pub change: Option<ChangeView>,
}

/// The fields to send for some settings.
pub open spec fn sent_fields(settings: Seq<Setting>) -> Seq<(Seq<char>, JsonView)>
    decreases settings.len(),
{
    if settings.len() == 0 {
        no_fields()
    } else {
        with_optional(
            sent_fields(settings.drop_last()),
            settings.last().api_field,
            settings.last().value,
        )
    }
}

/// The differences to report for some settings.
pub open spec fn reported(settings: Seq<Setting>) -> Seq<ChangeView>
    decreases settings.len(),
{
    if settings.len() == 0 {
        Seq::empty()
    } else {
        match settings.last().change {
            Some(change) => reported(settings.drop_last()).push(change),
            None => reported(settings.drop_last()),
        }
    }
}

/// The name of a visibility.
pub open spec fn visibility_text(visibility: Visibility) -> Seq<char> {
    match visibility {
        Visibility::Public => "public"@,
        Visibility::Private => "private"@,
        Visibility::Internal => "internal"@,
    }
}

/// A repository is private or not.
pub open spec fn visibility_setting(declared: Option<Visibility>, private: bool) -> Setting {
    let differs = declared is Some && (declared->0 == Visibility::Private) != private;
    Setting {
        api_field: "private"@,
        value: if differs {
            Some(JsonView::Bool(declared->0 == Visibility::Private))
        } else {
            None
        },
        change: if differs {
            Some(
                ChangeView {
                    scope: ""@,
                    field: "visibility"@,
                    from: Some(
                        if private {
                            "private"@
                        } else {
                            "public"@
                        },
                    ),
                    to: visibility_text(declared->0),
                },
            )
        } else {
            None
        },
    }
}

/// A flag.
pub open spec fn flag_setting(
    scope: Seq<char>,
    field: Seq<char>,
    api_field: Seq<char>,
    declared: Option<bool>,
    current: bool,
) -> Setting {
    let differs = declared is Some && declared->0 != current;
    Setting {
        api_field: api_field,
        value: if differs {
            Some(JsonView::Bool(declared->0))
        } else {
            None
        },
        change: if differs {
            Some(
                ChangeView {
                    scope: scope,
                    field: field,
                    from: Some(truth(current)),
                    to: truth(declared->0),
                },
            )
        } else {
            None
        },
    }
}

/// A text.
pub open spec fn text_setting(
    field: Seq<char>,
    declared: Option<Seq<char>>,
    current: Option<Seq<char>>,
) -> Setting {
    let differs = declared is Some && declared != current;
    Setting {
        api_field: field,
        value: if differs {
            Some(JsonView::String(declared->0))
        } else {
            None
        },
        change: if differs {
            Some(ChangeView { scope: ""@, field: field, from: current, to: declared->0 })
        } else {
            None
        },
    }
}

/// A choice among the values of the API, which are shown in lower case.
pub open spec fn choice_setting(
    scope: Seq<char>,
    field: Seq<char>,
    api_field: Seq<char>,
    declared: Option<Seq<char>>,
    current: Option<Seq<char>>,
) -> Setting {
    let differs = declared is Some && declared != current;
    Setting {
        api_field: api_field,
        value: if differs {
            Some(JsonView::String(declared->0))
        } else {
            None
        },
        change: if differs {
            Some(
                ChangeView {
                    scope: scope,
                    field: field,
                    from: match current {
                        Some(text) => Some(lowercased(text)),
                        None => None,
                    },
                    to: lowercased(declared->0),
                },
            )
        } else {
            None
        },
    }
}

/// The current title, sent along where the message is sent and the title is
/// not. This is no difference.
pub open spec fn carried_title(
    api_field: Seq<char>,
    title: Setting,
    message: Setting,
    current: Option<Seq<char>>,
) -> Setting {
    Setting {
        api_field: api_field,
        value: if message.value is Some && title.value is None && current is Some {
            Some(JsonView::String(current->0))
        } else {
            None
        },
        change: None,
    }
}

/// Whether a toggle is declared, and how.
pub open spec fn toggled(toggle: Option<Toggle>) -> Option<bool> {
    match toggle {
        Some(t) => t.enable,
        None => None,
    }
}

/// A feature toggle of a repository, if features are declared.
pub open spec fn feature(
    cfg: RepoConfig,
    choice: spec_fn(FeaturesConfig) -> Option<Toggle>,
) -> Option<bool> {
    match cfg.features {
        Some(features) => toggled(choice(features)),
        None => None,
    }
}

/// A flag of the pull request settings, if those are declared.
pub open spec fn pull_flag(
    cfg: RepoConfig,
    choice: spec_fn(PullRequestConfig) -> Option<bool>,
) -> Option<bool> {
    match cfg.pull {
        Some(pull) => choice(pull),
        None => None,
    }
}

/// The declared merge commit options.
pub open spec fn merge_of(cfg: RepoConfig) -> MergeConfig {
    match cfg.pull {
        Some(PullRequestConfig { merge: Some(merge), .. }) => merge,
        _ => MergeConfig { enable: None, commit_title: None, commit_message: None },
    }
}

/// The declared squash merge options.
pub open spec fn squash_of(cfg: RepoConfig) -> SquashConfig {
    match cfg.pull {
        Some(PullRequestConfig { squash: Some(squash), .. }) => squash,
        _ => SquashConfig { enable: None, commit_title: None, commit_message: None },
    }
}

/// The value of a flag that GitHub may not name.
pub open spec fn flag_or(flag: Option<bool>, default: bool) -> bool {
    match flag {
        Some(f) => f,
        None => default,
    }
}

/// The settings that come before those on pull requests, in the order in which
/// they are reported.
pub open spec fn general_settings(cfg: RepoConfig, repo: RepoView) -> Seq<Setting> {
    seq![
        visibility_setting(cfg.visibility, repo.private),
        text_setting("description"@, opt_text(cfg.description), repo.description),
        text_setting("homepage"@, opt_text(cfg.homepage), repo.homepage),
        flag_setting(
            "features.wiki"@,
            "enable"@,
            "has_wiki"@,
            feature(cfg, |f: FeaturesConfig| f.wiki),
            flag_or(repo.has_wiki, true),
        ),
        flag_setting(
            "features.issues"@,
            "enable"@,
            "has_issues"@,
            feature(cfg, |f: FeaturesConfig| f.issues),
            flag_or(repo.has_issues, true),
        ),
        flag_setting(
            "features.projects"@,
            "enable"@,
            "has_projects"@,
            feature(cfg, |f: FeaturesConfig| f.projects),
            flag_or(repo.has_projects, true),
        ),
        flag_setting(
            "features.discussions"@,
            "enable"@,
            "has_discussions"@,
            feature(cfg, |f: FeaturesConfig| f.discussions),
            flag_or(repo.has_discussions, false),
        ),
        flag_setting(
            ""@,
            "is_template"@,
            "is_template"@,
            cfg.is_template,
            flag_or(repo.is_template, false),
        ),
        flag_setting(
            ""@,
            "is_archived"@,
            "archived"@,
            cfg.is_archived,
            flag_or(repo.archived, false),
        ),
        flag_setting(
            ""@,
            "allow_forking"@,
            "allow_forking"@,
            cfg.allow_forking,
            flag_or(repo.allow_forking, true),
        ),
    ]
}

/// The title of merge commits.
pub open spec fn merge_title(cfg: RepoConfig, repo: RepoView) -> Setting {
    choice_setting(
        "pull.merge"@,
        "commit_title"@,
        "merge_commit_title"@,
        match merge_of(cfg).commit_title {
            Some(t) => Some(t.api_text()),
            None => None,
        },
        repo.merge_commit_title,
    )
}

/// The message of merge commits.
pub open spec fn merge_message(cfg: RepoConfig, repo: RepoView) -> Setting {
    choice_setting(
        "pull.merge"@,
        "commit_message"@,
        "merge_commit_message"@,
        match merge_of(cfg).commit_message {
            Some(m) => Some(m.api_text()),
            None => None,
        },
        repo.merge_commit_message,
    )
}

/// The title of squash commits.
pub open spec fn squash_title(cfg: RepoConfig, repo: RepoView) -> Setting {
    choice_setting(
        "pull.squash"@,
        "commit_title"@,
        "squash_merge_commit_title"@,
        match squash_of(cfg).commit_title {
            Some(t) => Some(t.api_text()),
            None => None,
        },
        repo.squash_merge_commit_title,
    )
}

/// The message of squash commits.
pub open spec fn squash_message(cfg: RepoConfig, repo: RepoView) -> Setting {
    choice_setting(
        "pull.squash"@,
        "commit_message"@,
        "squash_merge_commit_message"@,
        match squash_of(cfg).commit_message {
            Some(m) => Some(m.api_text()),
            None => None,
        },
        repo.squash_merge_commit_message,
    )
}

/// The settings on merge commits, in the order in which they are reported.
pub open spec fn merge_settings(cfg: RepoConfig, repo: RepoView) -> Seq<Setting> {
    seq![
        flag_setting(
            "pull.merge"@,
            "enable"@,
            "allow_merge_commit"@,
            merge_of(cfg).enable,
            flag_or(repo.allow_merge_commit, true),
        ),
        merge_title(cfg, repo),
        merge_message(cfg, repo),
        carried_title(
            "merge_commit_title"@,
            merge_title(cfg, repo),
            merge_message(cfg, repo),
            repo.merge_commit_title,
        ),
    ]
}

/// The settings on squash commits, in the order in which they are reported.
pub open spec fn squash_settings(cfg: RepoConfig, repo: RepoView) -> Seq<Setting> {
    seq![
        flag_setting(
            "pull.squash"@,
            "enable"@,
            "allow_squash_merge"@,
            squash_of(cfg).enable,
            flag_or(repo.allow_squash_merge, true),
        ),
        squash_title(cfg, repo),
        squash_message(cfg, repo),
        carried_title(
            "squash_merge_commit_title"@,
            squash_title(cfg, repo),
            squash_message(cfg, repo),
            repo.squash_merge_commit_title,
        ),
    ]
}

/// The remaining settings on pull requests, in the order in which they are
/// reported.
pub open spec fn pull_settings(cfg: RepoConfig, repo: RepoView) -> Seq<Setting> {
    seq![
        flag_setting(
            "pull.rebase"@,
            "enable"@,
            "allow_rebase_merge"@,
            pull_flag(cfg, |p: PullRequestConfig| toggled(p.rebase)),
            flag_or(repo.allow_rebase_merge, true),
        ),
        flag_setting(
            "pull"@,
            "auto_merge"@,
            "allow_auto_merge"@,
            pull_flag(cfg, |p: PullRequestConfig| p.auto_merge),
            flag_or(repo.allow_auto_merge, false),
        ),
        flag_setting(
            "pull"@,
            "delete_branch_on_merge"@,
            "delete_branch_on_merge"@,
            pull_flag(cfg, |p: PullRequestConfig| p.delete_branch_on_merge),
            flag_or(repo.delete_branch_on_merge, false),
        ),
        flag_setting(
            "pull"@,
            "update_branch"@,
            "allow_update_branch"@,
            pull_flag(cfg, |p: PullRequestConfig| p.update_branch),
            flag_or(repo.allow_update_branch, false),
        ),
        flag_setting(
            "pull"@,
            "web_commit_signoff_required"@,
            "web_commit_signoff_required"@,
            pull_flag(cfg, |p: PullRequestConfig| p.web_commit_signoff_required),
            flag_or(repo.web_commit_signoff_required, false),
        ),
    ]
}

/// Every setting of a repository, in the order in which they are reported.
pub open spec fn settings(cfg: RepoConfig, repo: RepoView) -> Seq<Setting> {
    general_settings(cfg, repo) + merge_settings(cfg, repo) + squash_settings(cfg, repo)
        + pull_settings(cfg, repo)
}

// --- Operations ----------------------------------------------------------

/// The name of a visibility.
pub fn visibility_str(v: Visibility) -> (text: String)
    ensures
        text@ == visibility_text(v),
{
    match v {
        Visibility::Public => "public".to_owned(),
        Visibility::Private => "private".to_owned(),
        Visibility::Internal => "internal".to_owned(),
    }
}

/// Whether a patch and a list of differences are those of some settings.
#[verifier::opaque]
pub open spec fn tells(patch: KeyMap<Json>, changes: Seq<Change>, settings: Seq<Setting>) -> bool {
    &&& object_view(patch) == sent_fields(settings)
    &&& change_views(changes) == reported(settings)
    &&& patch.wf()
}

fn push_visibility(
    patch: &mut KeyMap<Json>,
    changes: &mut Vec<Change>,
    Ghost(settings): Ghost<Seq<Setting>>,
    declared: Option<Visibility>,
    private: bool,
) -> (more: Ghost<Seq<Setting>>)
    requires
        tells(*old(patch), old(changes)@, settings),
    ensures
        more@ == settings.push(visibility_setting(declared, private)),
        tells(*final(patch), final(changes)@, more@),
{
    proof {
        reveal(tells);
        lemma_one_more(settings, visibility_setting(declared, private));
    }
    if let Some(visibility) = declared {
        let desired = visibility == Visibility::Private;
        if desired != private {
            put(patch, "private", Json::Bool(desired));
            let from = if private {
                "private".to_owned()
            } else {
                "public".to_owned()
            };
            add_change(
                changes,
                Change::new("", "visibility", Some(from), visibility_str(visibility)),
            );
        }
    }
    Ghost(settings.push(visibility_setting(declared, private)))
}

fn push_bool(
    patch: &mut KeyMap<Json>,
    changes: &mut Vec<Change>,
    Ghost(settings): Ghost<Seq<Setting>>,
    scope: &str,
    config_field: &str,
    api_field: &str,
    declared: Option<bool>,
    current: bool,
) -> (more: Ghost<Seq<Setting>>)
    requires
        tells(*old(patch), old(changes)@, settings),
    ensures
        more@ == settings.push(flag_setting(scope@, config_field@, api_field@, declared, current)),
        tells(*final(patch), final(changes)@, more@),
{
    proof {
        reveal(tells);
        lemma_one_more(
            settings,
            flag_setting(scope@, config_field@, api_field@, declared, current),
        );
    }
    if let Some(desired) = declared {
        if desired != current {
            put(patch, api_field, Json::Bool(desired));
            add_change(
                changes,
                Change::new(scope, config_field, Some(truth_text(current)), truth_text(desired)),
            );
        }
    }
    Ghost(settings.push(flag_setting(scope@, config_field@, api_field@, declared, current)))
}

fn push_toggle(
    patch: &mut KeyMap<Json>,
    changes: &mut Vec<Change>,
    Ghost(settings): Ghost<Seq<Setting>>,
    scope: &str,
    declared: Option<bool>,
    api_field: &str,
    current: bool,
) -> (more: Ghost<Seq<Setting>>)
    requires
        tells(*old(patch), old(changes)@, settings),
    ensures
        more@ == settings.push(flag_setting(scope@, "enable"@, api_field@, declared, current)),
        tells(*final(patch), final(changes)@, more@),
{
    push_bool(patch, changes, Ghost(settings), scope, "enable", api_field, declared, current)
}

/// Whether a declared text is there and differs from the current one.
fn differs(declared: Option<&str>, current: &Option<String>) -> (r: bool)
    ensures
        r == (declared is Some && Some(declared->0@) != opt_text(*current)),
{
    match declared {
        Some(text) => match current {
            Some(c) => !same(c.as_str(), text),
            None => true,
        },
        None => false,
    }
}

fn push_string(
    patch: &mut KeyMap<Json>,
    changes: &mut Vec<Change>,
    Ghost(settings): Ghost<Seq<Setting>>,
    field: &str,
    declared: &Option<String>,
    current: &Option<String>,
) -> (more: Ghost<Seq<Setting>>)
    requires
        tells(*old(patch), old(changes)@, settings),
    ensures
        more@ == settings.push(text_setting(field@, opt_text(*declared), opt_text(*current))),
        tells(*final(patch), final(changes)@, more@),
{
    proof {
        reveal(tells);
        lemma_one_more(settings, text_setting(field@, opt_text(*declared), opt_text(*current)));
    }
    if let Some(desired) = declared {
        if differs(Some(desired.as_str()), current) {
            put(patch, field, Json::String(desired.clone()));
            add_change(changes, Change::new("", field, current.clone(), desired.clone()));
        }
    }
    Ghost(settings.push(text_setting(field@, opt_text(*declared), opt_text(*current))))
}

/// Returns whether the field was put into the patch.
fn push_choice(
    patch: &mut KeyMap<Json>,
    changes: &mut Vec<Change>,
    Ghost(settings): Ghost<Seq<Setting>>,
    scope: &str,
    config_field: &str,
    api_field: &str,
    declared: Option<&'static str>,
    current: &Option<String>,
) -> (r: (bool, Ghost<Seq<Setting>>))
    requires
        tells(*old(patch), old(changes)@, settings),
    ensures
        ({
            let setting = choice_setting(
                scope@,
                config_field@,
                api_field@,
                match declared {
                    Some(d) => Some(d@),
                    None => None,
                },
                opt_text(*current),
            );
            &&& r.1@ == settings.push(setting)
            &&& tells(*final(patch), final(changes)@, r.1@)
            &&& r.0 == (setting.value is Some)
        }),
{
    let ghost setting = choice_setting(
            scope@,
            config_field@,
            api_field@,
            match declared {
                Some(d) => Some(d@),
                None => None,
            },
            opt_text(*current),
        );
    proof {
        reveal(tells);
        lemma_one_more(settings, setting);
    }
    if let Some(desired) = declared {
        if differs(Some(desired), current) {
            put(patch, api_field, Json::String(desired.to_owned()));
            let from = match current {
                Some(text) => Some(text.as_str().to_lowercase()),
                None => None,
            };
            add_change(
                changes,
                Change::new(scope, config_field, from, desired.to_lowercase()),
            );
            return (true, Ghost(settings.push(setting)));
        }
    }
    (false, Ghost(settings.push(setting)))
}

/// GitHub requires the commit title whenever the commit message is set, so the
/// current title is carried along when only the message was put in.
fn pair_title_with_message(
    patch: &mut KeyMap<Json>,
    changes: &Vec<Change>,
    Ghost(settings): Ghost<Seq<Setting>>,
    title_field: &str,
    Ghost(title): Ghost<Setting>,
    title_sent: bool,
    Ghost(message): Ghost<Setting>,
    message_sent: bool,
    current_title: &Option<String>,
) -> (more: Ghost<Seq<Setting>>)
    requires
        tells(*old(patch), changes@, settings),
        title_sent == (title.value is Some),
        message_sent == (message.value is Some),
    ensures
        more@ == settings.push(
            carried_title(title_field@, title, message, opt_text(*current_title)),
        ),
        tells(*final(patch), changes@, more@),
{
    let ghost setting = carried_title(title_field@, title, message, opt_text(*current_title));
    proof {
        reveal(tells);
        lemma_one_more(settings, setting);
    }
    if message_sent && !title_sent {
        if let Some(title) = current_title {
            put(patch, title_field, Json::String(title.clone()));
        }
    }
    Ghost(settings.push(setting))
}

fn toggle_state(toggle: &Option<Toggle>) -> (r: Option<bool>)
    ensures
        r == toggled(*toggle),
{
    match toggle {
        Some(t) => t.enable,
        None => None,
    }
}

fn flag_with(flag: Option<bool>, default: bool) -> (r: bool)
    ensures
        r == flag_or(flag, default),
{
    match flag {
        Some(f) => f,
        None => default,
    }
}

/// One more setting at the end.
proof fn lemma_one_more(settings: Seq<Setting>, setting: Setting)
    ensures
        sent_fields(settings.push(setting)) == with_optional(
            sent_fields(settings),
            setting.api_field,
            setting.value,
        ),
        reported(settings.push(setting)) == match setting.change {
            Some(change) => reported(settings).push(change),
            None => reported(settings),
        },
{
    assert(settings.push(setting).drop_last() =~= settings);
}

/// Adds the settings that come before those on pull requests.
fn push_general(
    patch: &mut KeyMap<Json>,
    changes: &mut Vec<Change>,
    cfg: &RepoConfig,
    repo: &Repo,
)
    requires
        tells(*old(patch), old(changes)@, Seq::empty()),
    ensures
        tells(*final(patch), final(changes)@, general_settings(*cfg, repo@)),
{
    let ghost r0: Seq<Setting> = Seq::empty();
    let Ghost(r1) = push_visibility(patch, changes, Ghost(r0), cfg.visibility, repo.private);
    let Ghost(r2) = push_string(
        patch,
        changes,
        Ghost(r1),
        "description",
        &cfg.description,
        &repo.description,
    );
    let Ghost(r3) = push_string(
        patch,
        changes,
        Ghost(r2),
        "homepage",
        &cfg.homepage,
        &repo.homepage,
    );
    let wiki = match &cfg.features {
        Some(features) => toggle_state(&features.wiki),
        None => None,
    };
    let Ghost(r4) = push_toggle(
        patch,
        changes,
        Ghost(r3),
        "features.wiki",
        wiki,
        "has_wiki",
        flag_with(repo.has_wiki, true),
    );
    let issues = match &cfg.features {
        Some(features) => toggle_state(&features.issues),
        None => None,
    };
    let Ghost(r5) = push_toggle(
        patch,
        changes,
        Ghost(r4),
        "features.issues",
        issues,
        "has_issues",
        flag_with(repo.has_issues, true),
    );
    let projects = match &cfg.features {
        Some(features) => toggle_state(&features.projects),
        None => None,
    };
    let Ghost(r6) = push_toggle(
        patch,
        changes,
        Ghost(r5),
        "features.projects",
        projects,
        "has_projects",
        flag_with(repo.has_projects, true),
    );
    let discussions = match &cfg.features {
        Some(features) => toggle_state(&features.discussions),
        None => None,
    };
    let Ghost(r7) = push_toggle(
        patch,
        changes,
        Ghost(r6),
        "features.discussions",
        discussions,
        "has_discussions",
        flag_with(repo.has_discussions, false),
    );
    let Ghost(r8) = push_bool(
        patch,
        changes,
        Ghost(r7),
        "",
        "is_template",
        "is_template",
        cfg.is_template,
        flag_with(repo.is_template, false),
    );
    let Ghost(r9) = push_bool(
        patch,
        changes,
        Ghost(r8),
        "",
        "is_archived",
        "archived",
        cfg.is_archived,
        flag_with(repo.archived, false),
    );
    let Ghost(r10) = push_bool(
        patch,
        changes,
        Ghost(r9),
        "",
        "allow_forking",
        "allow_forking",
        cfg.allow_forking,
        flag_with(repo.allow_forking, true),
    );
    assert(r10 == general_settings(*cfg, repo@));
}

/// Adds the settings on merge commits.
fn push_merge(
    patch: &mut KeyMap<Json>,
    changes: &mut Vec<Change>,
    Ghost(r0): Ghost<Seq<Setting>>,
    cfg: &RepoConfig,
    repo: &Repo,
)
    requires
        tells(*old(patch), old(changes)@, r0),
    ensures
        tells(*final(patch), final(changes)@, r0 + merge_settings(*cfg, repo@)),
{
    let declared: Option<&MergeConfig> = match &cfg.pull {
        Some(pull) => pull.merge.as_ref(),
        None => None,
    };
    let enable = match declared {
        Some(m) => m.enable,
        None => None,
    };
    let Ghost(r1) = push_toggle(
        patch,
        changes,
        Ghost(r0),
        "pull.merge",
        enable,
        "allow_merge_commit",
        flag_with(repo.allow_merge_commit, true),
    );
    let title: Option<&'static str> = match declared {
        Some(m) => match m.commit_title {
            Some(t) => Some(t.api_str()),
            None => None,
        },
        None => None,
    };
    let (title_sent, Ghost(r2)) = push_choice(
        patch,
        changes,
        Ghost(r1),
        "pull.merge",
        "commit_title",
        "merge_commit_title",
        title,
        &repo.merge_commit_title,
    );
    let message: Option<&'static str> = match declared {
        Some(m) => match m.commit_message {
            Some(t) => Some(t.api_str()),
            None => None,
        },
        None => None,
    };
    let (message_sent, Ghost(r3)) = push_choice(
        patch,
        changes,
        Ghost(r2),
        "pull.merge",
        "commit_message",
        "merge_commit_message",
        message,
        &repo.merge_commit_message,
    );
    let Ghost(r4) = pair_title_with_message(
        patch,
        changes,
        Ghost(r3),
        "merge_commit_title",
        Ghost(merge_title(*cfg, repo@)),
        title_sent,
        Ghost(merge_message(*cfg, repo@)),
        message_sent,
        &repo.merge_commit_title,
    );
    assert(r4 =~= r0 + merge_settings(*cfg, repo@));
}

/// Adds the settings on squash commits.
fn push_squash(
    patch: &mut KeyMap<Json>,
    changes: &mut Vec<Change>,
    Ghost(r0): Ghost<Seq<Setting>>,
    cfg: &RepoConfig,
    repo: &Repo,
)
    requires
        tells(*old(patch), old(changes)@, r0),
    ensures
        tells(*final(patch), final(changes)@, r0 + squash_settings(*cfg, repo@)),
{
    let declared: Option<&SquashConfig> = match &cfg.pull {
        Some(pull) => pull.squash.as_ref(),
        None => None,
    };
    let enable = match declared {
        Some(m) => m.enable,
        None => None,
    };
    let Ghost(r1) = push_toggle(
        patch,
        changes,
        Ghost(r0),
        "pull.squash",
        enable,
        "allow_squash_merge",
        flag_with(repo.allow_squash_merge, true),
    );
    let title: Option<&'static str> = match declared {
        Some(m) => match m.commit_title {
            Some(t) => Some(t.api_str()),
            None => None,
        },
        None => None,
    };
    let (title_sent, Ghost(r2)) = push_choice(
        patch,
        changes,
        Ghost(r1),
        "pull.squash",
        "commit_title",
        "squash_merge_commit_title",
        title,
        &repo.squash_merge_commit_title,
    );
    let message: Option<&'static str> = match declared {
        Some(m) => match m.commit_message {
            Some(t) => Some(t.api_str()),
            None => None,
        },
        None => None,
    };
    let (message_sent, Ghost(r3)) = push_choice(
        patch,
        changes,
        Ghost(r2),
        "pull.squash",
        "commit_message",
        "squash_merge_commit_message",
        message,
        &repo.squash_merge_commit_message,
    );
    let Ghost(r4) = pair_title_with_message(
        patch,
        changes,
        Ghost(r3),
        "squash_merge_commit_title",
        Ghost(squash_title(*cfg, repo@)),
        title_sent,
        Ghost(squash_message(*cfg, repo@)),
        message_sent,
        &repo.squash_merge_commit_title,
    );
    assert(r4 =~= r0 + squash_settings(*cfg, repo@));
}

/// Adds the remaining settings on pull requests.
fn push_pull(
    patch: &mut KeyMap<Json>,
    changes: &mut Vec<Change>,
    Ghost(r0): Ghost<Seq<Setting>>,
    cfg: &RepoConfig,
    repo: &Repo,
)
    requires
        tells(*old(patch), old(changes)@, r0),
    ensures
        tells(*final(patch), final(changes)@, r0 + pull_settings(*cfg, repo@)),
{
    let rebase = match &cfg.pull {
        Some(pull) => toggle_state(&pull.rebase),
        None => None,
    };
    let Ghost(r1) = push_toggle(
        patch,
        changes,
        Ghost(r0),
        "pull.rebase",
        rebase,
        "allow_rebase_merge",
        flag_with(repo.allow_rebase_merge, true),
    );
    let auto_merge = match &cfg.pull {
        Some(pull) => pull.auto_merge,
        None => None,
    };
    let Ghost(r2) = push_bool(
        patch,
        changes,
        Ghost(r1),
        "pull",
        "auto_merge",
        "allow_auto_merge",
        auto_merge,
        flag_with(repo.allow_auto_merge, false),
    );
    let delete_branch_on_merge = match &cfg.pull {
        Some(pull) => pull.delete_branch_on_merge,
        None => None,
    };
    let Ghost(r3) = push_bool(
        patch,
        changes,
        Ghost(r2),
        "pull",
        "delete_branch_on_merge",
        "delete_branch_on_merge",
        delete_branch_on_merge,
        flag_with(repo.delete_branch_on_merge, false),
    );
    let update_branch = match &cfg.pull {
        Some(pull) => pull.update_branch,
        None => None,
    };
    let Ghost(r4) = push_bool(
        patch,
        changes,
        Ghost(r3),
        "pull",
        "update_branch",
        "allow_update_branch",
        update_branch,
        flag_with(repo.allow_update_branch, false),
    );
    let web_commit_signoff_required = match &cfg.pull {
        Some(pull) => pull.web_commit_signoff_required,
        None => None,
    };
    let Ghost(r5) = push_bool(
        patch,
        changes,
        Ghost(r4),
        "pull",
        "web_commit_signoff_required",
        "web_commit_signoff_required",
        web_commit_signoff_required,
        flag_with(repo.web_commit_signoff_required, false),
    );
    assert(r5 =~= r0 + pull_settings(*cfg, repo@));
}

/// Computes the `PATCH /repos` fields that differ from the live state, and the
/// differences to report.
pub fn settings_patch(cfg: &RepoConfig, repo: &Repo) -> (r: (KeyMap<Json>, Vec<Change>))
    ensures
        object_view(r.0) == sent_fields(settings(*cfg, repo@)),
        change_views(r.1@) == reported(settings(*cfg, repo@)),
        r.0.wf(),
{
    let mut patch: KeyMap<Json> = KeyMap::new();
    let mut changes: Vec<Change> = Vec::new();
    assert(object_view(patch) =~= no_fields());
    assert(change_views(changes@) =~= Seq::empty());
    proof {
        reveal(tells);
    }
    push_general(&mut patch, &mut changes, cfg, repo);
    let ghost general = general_settings(*cfg, repo@);
    push_merge(&mut patch, &mut changes, Ghost(general), cfg, repo);
    let ghost merge = general + merge_settings(*cfg, repo@);
    push_squash(&mut patch, &mut changes, Ghost(merge), cfg, repo);
    let ghost squash = merge + squash_settings(*cfg, repo@);
    push_pull(&mut patch, &mut changes, Ghost(squash), cfg, repo);
    (patch, changes)
}

} // verus!
