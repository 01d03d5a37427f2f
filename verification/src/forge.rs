//! What the forges are asked: the addresses of their interfaces and the
//! requests that are sent to them. Sending is left to the caller.

use crate::bot::{pull_request_title, pull_request_title_of};
use crate::text::{
    join, joined_of, signed_decimal, signed_decimal_of, split, split_of, strs_view,
};
use vstd::prelude::*;

verus! {

/// The labels that a setting names: the pieces between its commas.
pub open spec fn labels_of(setting: Seq<char>) -> Seq<Seq<char>> {
    split_of(setting, ',')
}

/// The labels that a setting names: the pieces between its commas.
pub fn split_labels(setting: &str) -> (out: Vec<String>)
    ensures
        strs_view(out@) == labels_of(setting@),
{
    split(setting, ',')
}

/// The mathematical value of a [`GitLab`].
pub ghost struct GitLabView {
    pub api_url: Seq<char>,
    pub project_id: Seq<char>,
    pub default_branch: Seq<char>,
    pub labels: Seq<Seq<char>>,
    pub token: Seq<char>,
}

/// A project on GitLab, as the bot sees it.
pub struct GitLab {
    api_url: String,
    project_id: String,
    default_branch: String,
    labels: Vec<String>,
    token: String,
}

impl View for GitLab {
    type V = GitLabView;

    closed spec fn view(&self) -> GitLabView {
        GitLabView {
            api_url: self.api_url@,
            project_id: self.project_id@,
            default_branch: self.default_branch@,
            labels: strs_view(self.labels@),
            token: self.token@,
        }
    }
}

/// What GitLab is sent for a merge request.
#[derive(Debug)]
pub struct MergeRequest {
    pub source_branch: String,
    pub target_branch: String,
    pub title: String,
    pub remove_source_branch: bool,
    pub allow_collaboration: bool,
    pub labels: String,
}

/// The address of a project's interface.
pub open spec fn project_api_url_of(api_url: Seq<char>, project_id: Seq<char>) -> Seq<char> {
    api_url + "/projects/"@ + project_id
}

impl GitLab {
    /// The project `project_id` at the interface `api_url`, whose merge
    /// requests go to `default_branch` with the labels that `labels` names.
    pub fn new(api_url: &str, project_id: &str, default_branch: &str, labels: &str, token: &str)
        -> (out: Self)
        ensures
            out@ == (GitLabView {
                api_url: api_url@,
                project_id: project_id@,
                default_branch: default_branch@,
                labels: labels_of(labels@),
                token: token@,
            }),
    {
        GitLab {
            api_url: api_url.to_owned(),
            project_id: project_id.to_owned(),
            default_branch: default_branch.to_owned(),
            labels: split_labels(labels),
            token: token.to_owned(),
        }
    }

    /// The address of the project's interface.
    pub fn project_api_url(&self) -> (out: String)
        ensures
            out@ == project_api_url_of(self@.api_url, self@.project_id),
    {
        let mut out = self.api_url.clone();
        out.append("/projects/");
        out.append(self.project_id.as_str());
        out
    }

    /// The address to which merge requests are sent.
    pub fn merge_requests_url(&self) -> (out: String)
        ensures
            out@ == project_api_url_of(self@.api_url, self@.project_id) + "/merge_requests"@,
    {
        let mut out = self.project_api_url();
        out.append("/merge_requests");
        out
    }

    /// The token that authorizes the requests.
    pub fn token(&self) -> (out: &str)
        ensures
            out@ == self@.token,
    {
        self.token.as_str()
    }

    /// The merge request for the update of the source `name` on `branch`: to the
    /// default branch, with the labels on one line, the branch to be removed
    /// after the merge and open to changes by the maintainers.
    pub fn merge_request(&self, branch: &str, name: &str) -> (out: MergeRequest)
        ensures
            out.source_branch@ == branch@,
            out.target_branch@ == self@.default_branch,
            out.title@ == pull_request_title_of(name@),
            out.remove_source_branch,
            out.allow_collaboration,
            out.labels@ == joined_of(self@.labels, ","@),
    {
        MergeRequest {
            source_branch: branch.to_owned(),
            target_branch: self.default_branch.clone(),
            title: pull_request_title(name),
            remove_source_branch: true,
            allow_collaboration: true,
            labels: join(&self.labels, ","),
        }
    }
}

/// What a forge answers to a pull request that it opened.
#[derive(Debug)]
pub struct PullRequestResponse {
    pub html_url: String,
    pub number: i64,
}

/// The address of a repository's interface on GitHub.
pub open spec fn repo_api_url_of(repo: Seq<char>) -> Seq<char> {
    "https://api.github.com/repos/"@ + repo
}

/// The address of a repository's interface on a forge that speaks as GitHub does.
pub open spec fn forge_repo_api_url_of(api_url: Seq<char>, repo: Seq<char>) -> Seq<char> {
    api_url + "/repos/"@ + repo
}

/// The address of a repository's interface on a forge that speaks as GitHub does.
pub fn forge_repo_api_url(api_url: &str, repo: &str) -> (out: String)
    ensures
        out@ == forge_repo_api_url_of(api_url@, repo@),
{
    let mut out = api_url.to_owned();
    out.append("/repos/");
    out.append(repo);
    out
}

/// The mathematical value of a [`GitHubRepoApiBuilder`].
pub ghost struct BuilderView {
    pub repository: Seq<char>,
    pub token: Option<Seq<char>>,
}

/// What is needed to speak to a repository on GitHub: its name, and a token
/// where the requests are to be authorized.
pub struct GitHubRepoApiBuilder {
    repository: String,
    token: Option<String>,
}

impl View for GitHubRepoApiBuilder {
    type V = BuilderView;

    closed spec fn view(&self) -> BuilderView {
        BuilderView {
            repository: self.repository@,
            token: match self.token {
                Some(t) => Some(t@),
                None => None,
            },
        }
    }
}

impl GitHubRepoApiBuilder {
    /// For the repository `repository`, written as owner, slash, name; without
    /// a token.
    pub fn new(repository: &str) -> (out: Self)
        ensures
            out@ == (BuilderView { repository: repository@, token: None }),
    {
        GitHubRepoApiBuilder { repository: repository.to_owned(), token: None }
    }

    /// The same with this token, in place of any that was there.
    pub fn token(self, token: &str) -> (out: Self)
        ensures
            out@ == (BuilderView { token: Some(token@), ..self@ }),
    {
        let mut out = self;
        out.token = Some(token.to_owned());
        out
    }

    /// The address of a repository's interface.
    pub fn repo_api_url(repo: &str) -> (out: String)
        ensures
            out@ == repo_api_url_of(repo@),
    {
        let mut out = "https://api.github.com/repos/".to_owned();
        out.append(repo);
        out
    }

    /// The address of this repository's interface.
    pub fn api_url(&self) -> (out: String)
        ensures
            out@ == repo_api_url_of(self@.repository),
    {
        Self::repo_api_url(self.repository.as_str())
    }

    /// The line that authorizes the requests, where there is a token.
    pub fn authorization(&self) -> (out: Option<String>)
        ensures
            match (out, self@.token) {
                (Some(line), Some(token)) => line@ == "Bearer "@ + token,
                (None, None) => true,
                _ => false,
            },
    {
        match &self.token {
            Some(token) => {
                let mut line = "Bearer ".to_owned();
                line.append(token.as_str());
                Some(line)
            },
            None => None,
        }
    }
}

/// The address at which two revisions of a repository are compared.
pub open spec fn compare_url_of(
    repo_api_url: Seq<char>,
    old_revision: Seq<char>,
    new_revision: Seq<char>,
) -> Seq<char> {
    repo_api_url + "/compare/"@ + old_revision + "..."@ + new_revision
}

/// The address at which two revisions of a repository are compared.
pub fn compare_url(repo_api_url: &str, old_revision: &str, new_revision: &str) -> (out: String)
    ensures
        out@ == compare_url_of(repo_api_url@, old_revision@, new_revision@),
{
    let mut out = repo_api_url.to_owned();
    out.append("/compare/");
    out.append(old_revision);
    out.append("...");
    out.append(new_revision);
    out
}

/// The address to which pull requests are sent.
pub fn pulls_url(repo_api_url: &str) -> (out: String)
    ensures
        out@ == repo_api_url@ + "/pulls"@,
{
    let mut out = repo_api_url.to_owned();
    out.append("/pulls");
    out
}

/// The address at which the labels of an issue, or of a pull request, are set.
pub open spec fn labels_url_of(repo_api_url: Seq<char>, number: i64) -> Seq<char> {
    repo_api_url + "/issues/"@ + signed_decimal_of(number as int) + "/labels"@
}

/// The address at which the labels of an issue, or of a pull request, are set.
pub fn labels_url(repo_api_url: &str, number: i64) -> (out: String)
    ensures
        out@ == labels_url_of(repo_api_url@, number),
{
    let mut out = repo_api_url.to_owned();
    out.append("/issues/");
    out.append(signed_decimal(number).as_str());
    out.append("/labels");
    out
}

} // verus!
