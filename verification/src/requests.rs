//! The requests that the GitHub REST API is sent.

use vstd::prelude::*;
use vstd::string::*;

use crate::bodies::{
    actions_permissions_body, branch_protection_body, create_body, creation_body, permissions_body,
    protection_body, selected_actions_body, selected_body, topic_names_body, topics_body,
    workflow_body, workflow_permissions_body,
};
use crate::github::{
    ActionsPermissions, BranchProtection, CreateRepo, CreateRepoView, SelectedActions,
    WorkflowPermissions,
};
use crate::json::{clone_object, lemma_object_view, object_view, opt_json, Json, JsonView};
use crate::keymap::KeyMap;
use crate::reading::ReadView;
use crate::text::{decimal, number_text, texts};

verus! {

/// An HTTP method.
#[derive(Debug, Clone, Copy, PartialEq, Eq, Structural)]
pub enum Method {
    Get,
    Post,
    Put,
    Patch,
    Delete,
}

impl Method {
    /// The name of the method.
    pub open spec fn name(self) -> Seq<char> {
        match self {
            Method::Get => "GET"@,
            Method::Post => "POST"@,
            Method::Put => "PUT"@,
            Method::Patch => "PATCH"@,
            Method::Delete => "DELETE"@,
        }
    }

    /// The name of the method.
    pub fn as_str(self) -> (text: &'static str)
        ensures
            text@ == self.name(),
    {
        match self {
            Method::Get => "GET",
            Method::Post => "POST",
            Method::Put => "PUT",
            Method::Patch => "PATCH",
            Method::Delete => "DELETE",
        }
    }
}

/// A prepared API call that remembers its method and path for error messages.
#[derive(Debug)]
pub struct ApiRequest {
    pub method: Method,
    pub path: String,
    pub url: String,
    pub body: Option<Json>,
}

/// The model of an API call.
pub struct ApiRequestView {
    pub method: Method,
    pub path: Seq<char>,
    pub url: Seq<char>,
    pub body: Option<JsonView>,
}

impl View for ApiRequest {
    type V = ApiRequestView;

    open spec fn view(&self) -> ApiRequestView {
        ApiRequestView {
            method: self.method,
            path: self.path@,
            url: self.url@,
            body: opt_json(self.body),
        }
    }
}

/// GitHub as it is talked to: the endpoint and the token.
pub struct HttpApi {
    pub token: String,
    pub base: String,
}

// --- Models -------------------------------------------------------------

/// An API call to the endpoint at `base`.
pub open spec fn call(
    base: Seq<char>,
    method: Method,
    path: Seq<char>,
    body: Option<JsonView>,
) -> ApiRequestView {
    ApiRequestView { method: method, path: path, url: base + path, body: body }
}

/// The path of a repository.
pub open spec fn repo_path(owner: Seq<char>, repo: Seq<char>) -> Seq<char> {
    "/repos/"@ + owner + "/"@ + repo
}

/// The path of a branch.
pub open spec fn branch_path(owner: Seq<char>, repo: Seq<char>, branch: Seq<char>) -> Seq<char> {
    repo_path(owner, repo) + "/branches/"@ + branch
}

/// The path of a ruleset.
pub open spec fn ruleset_path(owner: Seq<char>, repo: Seq<char>, id: u64) -> Seq<char> {
    repo_path(owner, repo) + "/rulesets/"@ + decimal(id as nat)
}

/// The call that asks for the authenticated user.
pub open spec fn user_request(base: Seq<char>) -> ApiRequestView {
    call(base, Method::Get, "/user"@, None)
}

/// The call that creates a repository for the authenticated user.
pub open spec fn creation_request(base: Seq<char>, creation: CreateRepoView) -> ApiRequestView {
    call(base, Method::Post, "/user/repos"@, Some(creation_body(creation)))
}

/// The call that asks for a part of the live state of a repository.
pub open spec fn read_request(
    base: Seq<char>,
    owner: Seq<char>,
    repo: Seq<char>,
    read: ReadView,
) -> ApiRequestView {
    let path = match read {
        ReadView::Repository => repo_path(owner, repo),
        ReadView::ActionsPermissions => repo_path(owner, repo) + "/actions/permissions"@,
        ReadView::WorkflowPermissions => repo_path(owner, repo)
            + "/actions/permissions/workflow"@,
        ReadView::SelectedActions => repo_path(owner, repo)
            + "/actions/permissions/selected-actions"@,
        ReadView::BranchExists(branch) => branch_path(owner, repo, branch),
        ReadView::BranchProtection(branch) => branch_path(owner, repo, branch) + "/protection"@,
        ReadView::Rulesets => repo_path(owner, repo) + "/rulesets"@,
        ReadView::Ruleset(id) => ruleset_path(owner, repo, id),
    };
    call(base, Method::Get, path, None)
}

// --- Operations ----------------------------------------------------------

/// The path of a repository.
fn path_of_repo(owner: &str, repo: &str) -> (path: String)
    ensures
        path@ == repo_path(owner@, repo@),
{
    "/repos/".to_owned().concat(owner).concat("/").concat(repo)
}

/// The path of a branch.
fn path_of_branch(owner: &str, repo: &str, branch: &str) -> (path: String)
    ensures
        path@ == branch_path(owner@, repo@, branch@),
{
    path_of_repo(owner, repo).concat("/branches/").concat(branch)
}

/// The path of a ruleset.
fn path_of_ruleset(owner: &str, repo: &str, id: u64) -> (path: String)
    ensures
        path@ == ruleset_path(owner@, repo@, id),
{
    path_of_repo(owner, repo).concat("/rulesets/").concat(number_text(id).as_str())
}

impl ApiRequest {
    /// The method and the path, for error messages.
    pub open spec fn endpoint(self) -> Seq<char> {
        self.method.name() + " "@ + self.path@
    }

    /// The method and the path, for error messages.
    pub fn context(&self) -> (text: String)
        ensures
            text@ == self.endpoint(),
    {
        self.method.as_str().to_owned().concat(" ").concat(self.path.as_str())
    }
}

impl HttpApi {
    /// An API at `base`, normally `https://api.github.com`.
    pub fn new(token: String, base: String) -> (api: Self)
        ensures
            api.token@ == token@,
            api.base@ == base@,
    {
        HttpApi { token: token, base: base }
    }

    fn request(&self, method: Method, path: String, body: Option<Json>) -> (request: ApiRequest)
        ensures
            request@ == call(self.base@, method, path@, opt_json(body)),
    {
        let url = self.base.clone().concat(path.as_str());
        ApiRequest { method: method, path: path, url: url, body: body }
    }

    /// Asks for the authenticated user.
    pub fn login(&self) -> (request: ApiRequest)
        ensures
            request@ == call(self.base@, Method::Get, "/user"@, None),
            request@ == user_request(self.base@),
    {
        self.request(Method::Get, "/user".to_owned(), None)
    }

    /// Asks for a repository.
    pub fn get_repo(&self, owner: &str, repo: &str) -> (request: ApiRequest)
        ensures
            request@ == call(self.base@, Method::Get, repo_path(owner@, repo@), None),
            request@ == read_request(self.base@, owner@, repo@, ReadView::Repository),
    {
        self.request(Method::Get, path_of_repo(owner, repo), None)
    }

    /// Creates a repository for the authenticated user.
    pub fn create_repo(&self, creation: &CreateRepo) -> (request: ApiRequest)
        ensures
            request@ == call(
                self.base@,
                Method::Post,
                "/user/repos"@,
                Some(creation_body(creation@)),
            ),
            request@ == creation_request(self.base@, creation@),
    {
        self.request(Method::Post, "/user/repos".to_owned(), Some(create_body(creation)))
    }

    /// Changes the given settings of a repository.
    pub fn update_repo(
        &self,
        owner: &str,
        repo: &str,
        patch: &KeyMap<Json>,
    ) -> (request: ApiRequest)
        ensures
            request@ == call(
                self.base@,
                Method::Patch,
                repo_path(owner@, repo@),
                Some(JsonView::Object(object_view(*patch))),
            ),
    {
        let fields = clone_object(patch);
        proof {
            lemma_object_view(fields);
        }
        self.request(Method::Patch, path_of_repo(owner, repo), Some(Json::Object(fields)))
    }

    /// Sets the topics of a repository.
    pub fn set_topics(&self, owner: &str, repo: &str, topics: &Vec<String>) -> (request: ApiRequest)
        ensures
            request@ == call(
                self.base@,
                Method::Put,
                repo_path(owner@, repo@) + "/topics"@,
                Some(topics_body(texts(topics@))),
            ),
    {
        self.request(
            Method::Put,
            path_of_repo(owner, repo).concat("/topics"),
            Some(topic_names_body(topics)),
        )
    }

    /// Asks for every ruleset in the repository.
    pub fn list_rulesets(&self, owner: &str, repo: &str) -> (request: ApiRequest)
        ensures
            request@ == call(
                self.base@,
                Method::Get,
                repo_path(owner@, repo@) + "/rulesets"@,
                None,
            ),
            request@ == read_request(self.base@, owner@, repo@, ReadView::Rulesets),
    {
        self.request(Method::Get, path_of_repo(owner, repo).concat("/rulesets"), None)
    }

    /// Asks for one ruleset, with its rules, conditions and bypass actors.
    pub fn get_ruleset(&self, owner: &str, repo: &str, id: u64) -> (request: ApiRequest)
        ensures
            request@ == call(self.base@, Method::Get, ruleset_path(owner@, repo@, id), None),
            request@ == read_request(self.base@, owner@, repo@, ReadView::Ruleset(id)),
    {
        self.request(Method::Get, path_of_ruleset(owner, repo, id), None)
    }

    /// Creates a ruleset.
    pub fn create_ruleset(&self, owner: &str, repo: &str, body: &Json) -> (request: ApiRequest)
        ensures
            request@ == call(
                self.base@,
                Method::Post,
                repo_path(owner@, repo@) + "/rulesets"@,
                Some(body@),
            ),
    {
        self.request(
            Method::Post,
            path_of_repo(owner, repo).concat("/rulesets"),
            Some(body.copied()),
        )
    }

    /// Replaces a ruleset. The body is the full ruleset definition.
    pub fn update_ruleset(
        &self,
        owner: &str,
        repo: &str,
        id: u64,
        body: &Json,
    ) -> (request: ApiRequest)
        ensures
            request@ == call(self.base@, Method::Put, ruleset_path(owner@, repo@, id), Some(body@)),
    {
        self.request(Method::Put, path_of_ruleset(owner, repo, id), Some(body.copied()))
    }

    /// Asks for the Actions permissions.
    pub fn get_actions_permissions(&self, owner: &str, repo: &str) -> (request: ApiRequest)
        ensures
            request@ == call(
                self.base@,
                Method::Get,
                repo_path(owner@, repo@) + "/actions/permissions"@,
                None,
            ),
            request@ == read_request(self.base@, owner@, repo@, ReadView::ActionsPermissions),
    {
        self.request(Method::Get, path_of_repo(owner, repo).concat("/actions/permissions"), None)
    }

    /// Sets the Actions permissions.
    pub fn set_actions_permissions(
        &self,
        owner: &str,
        repo: &str,
        perms: ActionsPermissions,
    ) -> (request: ApiRequest)
        ensures
            request@ == call(
                self.base@,
                Method::Put,
                repo_path(owner@, repo@) + "/actions/permissions"@,
                Some(permissions_body(perms)),
            ),
    {
        self.request(
            Method::Put,
            path_of_repo(owner, repo).concat("/actions/permissions"),
            Some(actions_permissions_body(perms)),
        )
    }

    /// Asks for the workflow permissions.
    pub fn get_workflow_permissions(&self, owner: &str, repo: &str) -> (request: ApiRequest)
        ensures
            request@ == call(
                self.base@,
                Method::Get,
                repo_path(owner@, repo@) + "/actions/permissions/workflow"@,
                None,
            ),
            request@ == read_request(self.base@, owner@, repo@, ReadView::WorkflowPermissions),
    {
        self.request(
            Method::Get,
            path_of_repo(owner, repo).concat("/actions/permissions/workflow"),
            None,
        )
    }

    /// Sets the workflow permissions.
    pub fn set_workflow_permissions(
        &self,
        owner: &str,
        repo: &str,
        perms: WorkflowPermissions,
    ) -> (request: ApiRequest)
        ensures
            request@ == call(
                self.base@,
                Method::Put,
                repo_path(owner@, repo@) + "/actions/permissions/workflow"@,
                Some(workflow_body(perms)),
            ),
    {
        self.request(
            Method::Put,
            path_of_repo(owner, repo).concat("/actions/permissions/workflow"),
            Some(workflow_permissions_body(perms)),
        )
    }

    /// Asks for the allow-list of actions.
    pub fn get_selected_actions(&self, owner: &str, repo: &str) -> (request: ApiRequest)
        ensures
            request@ == call(
                self.base@,
                Method::Get,
                repo_path(owner@, repo@) + "/actions/permissions/selected-actions"@,
                None,
            ),
            request@ == read_request(self.base@, owner@, repo@, ReadView::SelectedActions),
    {
        self.request(
            Method::Get,
            path_of_repo(owner, repo).concat("/actions/permissions/selected-actions"),
            None,
        )
    }

    /// Sets the allow-list of actions.
    pub fn set_selected_actions(
        &self,
        owner: &str,
        repo: &str,
        selected: &SelectedActions,
    ) -> (request: ApiRequest)
        ensures
            request@ == call(
                self.base@,
                Method::Put,
                repo_path(owner@, repo@) + "/actions/permissions/selected-actions"@,
                Some(selected_body(selected@)),
            ),
    {
        self.request(
            Method::Put,
            path_of_repo(owner, repo).concat("/actions/permissions/selected-actions"),
            Some(selected_actions_body(selected)),
        )
    }

    /// Asks for a branch.
    pub fn branch_exists(&self, owner: &str, repo: &str, branch: &str) -> (request: ApiRequest)
        ensures
            request@ == call(self.base@, Method::Get, branch_path(owner@, repo@, branch@), None),
            request@ == read_request(self.base@, owner@, repo@, ReadView::BranchExists(branch@)),
    {
        self.request(Method::Get, path_of_branch(owner, repo, branch), None)
    }

    /// Asks for the protection of a branch.
    pub fn get_branch_protection(
        &self,
        owner: &str,
        repo: &str,
        branch: &str,
    ) -> (request: ApiRequest)
        ensures
            request@ == call(
                self.base@,
                Method::Get,
                branch_path(owner@, repo@, branch@) + "/protection"@,
                None,
            ),
            request@ == read_request(self.base@, owner@, repo@, ReadView::BranchProtection(branch@)),
    {
        self.request(Method::Get, path_of_branch(owner, repo, branch).concat("/protection"), None)
    }

    /// Protects a branch. The body is the full protection.
    pub fn set_branch_protection(
        &self,
        owner: &str,
        repo: &str,
        branch: &str,
        protection: &BranchProtection,
    ) -> (request: ApiRequest)
        ensures
            request@ == call(
                self.base@,
                Method::Put,
                branch_path(owner@, repo@, branch@) + "/protection"@,
                Some(protection_body(protection@)),
            ),
    {
        self.request(
            Method::Put,
            path_of_branch(owner, repo, branch).concat("/protection"),
            Some(branch_protection_body(protection)),
        )
    }

    /// Requires signed commits on a protected branch, or no longer requires
    /// them.
    pub fn set_required_signatures(
        &self,
        owner: &str,
        repo: &str,
        branch: &str,
        enabled: bool,
    ) -> (request: ApiRequest)
        ensures
            request@ == call(
                self.base@,
                if enabled {
                    Method::Post
                } else {
                    Method::Delete
                },
                branch_path(owner@, repo@, branch@) + "/protection/required_signatures"@,
                None,
            ),
    {
        let method = if enabled {
            Method::Post
        } else {
            Method::Delete
        };
        self.request(
            method,
            path_of_branch(owner, repo, branch).concat("/protection/required_signatures"),
            None,
        )
    }
}

} // verus!
