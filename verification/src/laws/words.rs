//! Laws of the words: how each choice is written for GitHub and shown to the
//! user.

use vstd::prelude::*;

use crate::actions::{allowed_actions_text, workflow_permission_text};
use crate::config::{
    AllowedActions, BypassActorType, BypassMode, Enforcement, MergeCommitMessage, MergeCommitTitle,
    RulesetTarget, SquashCommitMessage, SquashCommitTitle, Visibility, WorkflowPermission,
};
use crate::requests::Method;
use crate::settings::visibility_text;
use crate::text::truth;

verus! {

/// What two texts are told apart by: their length or a character.
spec fn differ_at(a: Seq<char>, b: Seq<char>, place: int) -> bool {
    a.len() != b.len() || (0 <= place < a.len() && a[place] != b[place])
}

/// The commit titles and messages are written as the API names them, and no
/// two choices for one setting are written alike.
pub proof fn law_commit_texts(
    merge_title: MergeCommitTitle,
    merge_message: MergeCommitMessage,
    squash_title: SquashCommitTitle,
    squash_message: SquashCommitMessage,
)
    ensures
        merge_title is PrTitle <==> merge_title.api_text() == "PR_TITLE"@,
        merge_title is MergeMessage <==> merge_title.api_text() == "MERGE_MESSAGE"@,
        merge_message is PrBody <==> merge_message.api_text() == "PR_BODY"@,
        merge_message is PrTitle <==> merge_message.api_text() == "PR_TITLE"@,
        merge_message is Blank <==> merge_message.api_text() == "BLANK"@,
        squash_title is PrTitle <==> squash_title.api_text() == "PR_TITLE"@,
        squash_title is CommitOrPrTitle <==> squash_title.api_text() == "COMMIT_OR_PR_TITLE"@,
        squash_message is PrBody <==> squash_message.api_text() == "PR_BODY"@,
        squash_message is CommitMessages <==> squash_message.api_text() == "COMMIT_MESSAGES"@,
        squash_message is Blank <==> squash_message.api_text() == "BLANK"@,
{
    reveal_strlit("PR_TITLE");
    reveal_strlit("MERGE_MESSAGE");
    reveal_strlit("PR_BODY");
    reveal_strlit("BLANK");
    reveal_strlit("COMMIT_OR_PR_TITLE");
    reveal_strlit("COMMIT_MESSAGES");
    assert("PR_TITLE"@.len() != "MERGE_MESSAGE"@.len());
    assert("PR_TITLE"@.len() != "PR_BODY"@.len());
    assert("PR_TITLE"@.len() != "BLANK"@.len());
    assert("PR_BODY"@.len() != "BLANK"@.len());
    assert("PR_TITLE"@.len() != "COMMIT_OR_PR_TITLE"@.len());
    assert("PR_BODY"@.len() != "COMMIT_MESSAGES"@.len());
    assert("BLANK"@.len() != "COMMIT_MESSAGES"@.len());
}

/// The choices of a ruleset are written as the API names them, and no two
/// choices for one field are written alike.
pub proof fn law_ruleset_texts(
    target: RulesetTarget,
    enforcement: Enforcement,
    actor: BypassActorType,
    mode: BypassMode,
)
    ensures
        target is Branch <==> target.api_text() == "branch"@,
        target is Tag <==> target.api_text() == "tag"@,
        target is Push <==> target.api_text() == "push"@,
        enforcement is Disabled <==> enforcement.api_text() == "disabled"@,
        enforcement is Active <==> enforcement.api_text() == "active"@,
        enforcement is Evaluate <==> enforcement.api_text() == "evaluate"@,
        actor is Integration <==> actor.api_text() == "Integration"@,
        actor is OrganizationAdmin <==> actor.api_text() == "OrganizationAdmin"@,
        actor is RepositoryRole <==> actor.api_text() == "RepositoryRole"@,
        actor is Team <==> actor.api_text() == "Team"@,
        actor is DeployKey <==> actor.api_text() == "DeployKey"@,
        actor is User <==> actor.api_text() == "User"@,
        mode is Always <==> mode.api_text() == "always"@,
        mode is PullRequest <==> mode.api_text() == "pull_request"@,
        mode is Exempt <==> mode.api_text() == "exempt"@,
{
    reveal_strlit("branch");
    reveal_strlit("tag");
    reveal_strlit("push");
    reveal_strlit("disabled");
    reveal_strlit("active");
    reveal_strlit("evaluate");
    reveal_strlit("Integration");
    reveal_strlit("OrganizationAdmin");
    reveal_strlit("RepositoryRole");
    reveal_strlit("Team");
    reveal_strlit("DeployKey");
    reveal_strlit("User");
    reveal_strlit("always");
    reveal_strlit("pull_request");
    reveal_strlit("exempt");
    assert(differ_at("branch"@, "tag"@, 0) && differ_at("branch"@, "push"@, 0));
    assert(differ_at("tag"@, "push"@, 0));
    assert(differ_at("disabled"@, "active"@, 0) && differ_at("active"@, "evaluate"@, 0));
    assert(differ_at("disabled"@, "evaluate"@, 0));
    assert(differ_at("Integration"@, "OrganizationAdmin"@, 0));
    assert(differ_at("Integration"@, "RepositoryRole"@, 0));
    assert(differ_at("Integration"@, "Team"@, 0));
    assert(differ_at("Integration"@, "DeployKey"@, 0));
    assert(differ_at("Integration"@, "User"@, 0));
    assert(differ_at("OrganizationAdmin"@, "RepositoryRole"@, 0));
    assert(differ_at("OrganizationAdmin"@, "Team"@, 0));
    assert(differ_at("OrganizationAdmin"@, "DeployKey"@, 0));
    assert(differ_at("OrganizationAdmin"@, "User"@, 0));
    assert(differ_at("RepositoryRole"@, "Team"@, 0));
    assert(differ_at("RepositoryRole"@, "DeployKey"@, 0));
    assert(differ_at("RepositoryRole"@, "User"@, 0));
    assert(differ_at("Team"@, "DeployKey"@, 0));
    assert(differ_at("Team"@, "User"@, 0));
    assert(differ_at("DeployKey"@, "User"@, 0));
    assert(differ_at("always"@, "pull_request"@, 0) && differ_at("always"@, "exempt"@, 0));
    assert(differ_at("pull_request"@, "exempt"@, 0));
}

/// An actor is told apart by an ID unless there is only one of its type.
pub proof fn law_identified_actors(actor: BypassActorType)
    ensures
        !actor.identified() <==> actor is OrganizationAdmin || actor is DeployKey,
{
}

/// The choices of a repository are written as the API names them, and no two
/// choices for one setting are written alike.
pub proof fn law_repository_texts(
    visibility: Visibility,
    policy: AllowedActions,
    permission: WorkflowPermission,
    flag: bool,
)
    ensures
        visibility is Public <==> visibility_text(visibility) == "public"@,
        visibility is Private <==> visibility_text(visibility) == "private"@,
        visibility is Internal <==> visibility_text(visibility) == "internal"@,
        policy is All <==> allowed_actions_text(policy) == "all"@,
        policy is LocalOnly <==> allowed_actions_text(policy) == "local_only"@,
        policy is Selected <==> allowed_actions_text(policy) == "selected"@,
        permission is Read <==> workflow_permission_text(permission) == "read"@,
        permission is Write <==> workflow_permission_text(permission) == "write"@,
        flag <==> truth(flag) == "true"@,
        !flag <==> truth(flag) == "false"@,
{
    reveal_strlit("public");
    reveal_strlit("private");
    reveal_strlit("internal");
    reveal_strlit("all");
    reveal_strlit("local_only");
    reveal_strlit("selected");
    reveal_strlit("read");
    reveal_strlit("write");
    reveal_strlit("true");
    reveal_strlit("false");
    assert(differ_at("public"@, "private"@, 1) && differ_at("public"@, "internal"@, 0));
    assert(differ_at("private"@, "internal"@, 0));
    assert(differ_at("all"@, "local_only"@, 0) && differ_at("all"@, "selected"@, 0));
    assert(differ_at("local_only"@, "selected"@, 0));
    assert(differ_at("read"@, "write"@, 0) && differ_at("true"@, "false"@, 0));
}

/// Each method is called by its own name.
pub proof fn law_method_names(method: Method)
    ensures
        method is Get <==> method.name() == "GET"@,
        method is Post <==> method.name() == "POST"@,
        method is Put <==> method.name() == "PUT"@,
        method is Patch <==> method.name() == "PATCH"@,
        method is Delete <==> method.name() == "DELETE"@,
{
    reveal_strlit("GET");
    reveal_strlit("POST");
    reveal_strlit("PUT");
    reveal_strlit("PATCH");
    reveal_strlit("DELETE");
    assert(differ_at("GET"@, "POST"@, 0) && differ_at("GET"@, "PUT"@, 0));
    assert(differ_at("GET"@, "PATCH"@, 0) && differ_at("GET"@, "DELETE"@, 0));
    assert(differ_at("POST"@, "PUT"@, 0) && differ_at("POST"@, "PATCH"@, 0));
    assert(differ_at("POST"@, "DELETE"@, 0) && differ_at("PUT"@, "PATCH"@, 0));
    assert(differ_at("PUT"@, "DELETE"@, 0) && differ_at("PATCH"@, "DELETE"@, 0));
}

} // verus!
