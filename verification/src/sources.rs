//! The sources of a lock, the registry that holds them, and how a source is
//! brought to a newer revision.

use crate::error::{Error, ErrorView};
use crate::git::{
    commits_view, find_newest_revision, newest_of_output, rev_list_of_output, Commit, CommitView,
    RevList, Revision,
};
use crate::lock;
use crate::lock::v1::{record_of, records_view, FetchType, RecordView};
use crate::text::{
    lemma_lt_asymmetric, lemma_lt_irreflexive, lemma_lt_total, lemma_lt_transitive, lt_of,
    parse_u64, parse_u64_of, str_lt, trim_end, trim_end_of,
};
use vstd::prelude::*;

verus! {

/// The mathematical value of an [`UpdateSummary`].
pub ghost struct UpdateSummaryView {
    pub old_revision: Seq<char>,
    pub new_revision: Seq<char>,
    pub rev_list: Option<Seq<CommitView>>,
}

/// What one update of one source did: the revision before, the revision after,
/// and, where it was asked for, the commits between them.
#[derive(Debug)]
pub struct UpdateSummary {
    pub old_revision: Revision,
    pub new_revision: Revision,
    pub rev_list: Option<RevList>,
}

impl View for UpdateSummary {
    type V = UpdateSummaryView;

    open spec fn view(&self) -> UpdateSummaryView {
        UpdateSummaryView {
            old_revision: self.old_revision@,
            new_revision: self.new_revision@,
            rev_list: match self.rev_list {
                Some(list) => Some(list@),
                None => None,
            },
        }
    }
}

impl Clone for UpdateSummary {
    fn clone(&self) -> (out: Self)
        ensures
            out@ == self@,
    {
        UpdateSummary {
            old_revision: self.old_revision.clone(),
            new_revision: self.new_revision.clone(),
            rev_list: match &self.rev_list {
                Some(list) => Some(list.clone()),
                None => None,
            },
        }
    }
}

impl UpdateSummary {
    /// The summary of an update from `old_revision` to `new_revision`, without a
    /// list of commits.
    pub fn new(old_revision: Revision, new_revision: Revision) -> (out: Self)
        ensures
            out@ == (UpdateSummaryView {
                old_revision: old_revision@,
                new_revision: new_revision@,
                rev_list: None,
            }),
    {
        UpdateSummary { old_revision, new_revision, rev_list: None }
    }

    /// Attaches the list of commits, in place of any that was there.
    pub fn add_rev_list(&mut self, rev_list: RevList)
        ensures
            final(self)@ == (UpdateSummaryView { rev_list: Some(rev_list@), ..old(self)@ }),
    {
        self.rev_list = Some(rev_list);
    }
}

/// A content hash, kept as the text in which it was given.
#[derive(Debug)]
pub struct SriHash(String);

impl View for SriHash {
    type V = Seq<char>;

    closed spec fn view(&self) -> Seq<char> {
        self.0@
    }
}

impl Clone for SriHash {
    fn clone(&self) -> (out: Self)
        ensures
            out@ == self@,
    {
        SriHash(self.0.clone())
    }
}

impl SriHash {
    /// The hash that `s` writes.
    pub fn new(s: &str) -> (out: Self)
        ensures
            out@ == s@,
    {
        SriHash(s.to_owned())
    }

    /// The hash's text.
    pub fn as_str(&self) -> (out: &str)
        ensures
            out@ == self@,
    {
        self.0.as_str()
    }
}

/// The address of the tarball that GitHub serves for a revision of a repository.
pub open spec fn tarball_url_of(owner: Seq<char>, repo: Seq<char>, revision: Seq<char>) -> Seq<
    char,
> {
    "https://github.com/"@ + owner + "/"@ + repo + "/archive/"@ + revision + ".tar.gz"@
}

/// The address of a GitHub repository for git.
pub open spec fn github_git_url_of(owner: Seq<char>, repo: Seq<char>) -> Seq<char> {
    "https://github.com/"@ + owner + "/"@ + repo + ".git"@
}

/// The address of the tarball that GitHub serves for a revision of a repository.
pub fn tarball_url(owner: &str, repo: &str, revision: &str) -> (out: String)
    ensures
        out@ == tarball_url_of(owner@, repo@, revision@),
{
    let mut out = "https://github.com/".to_owned();
    out.append(owner);
    out.append("/");
    out.append(repo);
    out.append("/archive/");
    out.append(revision);
    out.append(".tar.gz");
    out
}

/// The address of a GitHub repository for git.
pub fn github_git_url(owner: &str, repo: &str) -> (out: String)
    ensures
        out@ == github_git_url_of(owner@, repo@),
{
    let mut out = "https://github.com/".to_owned();
    out.append(owner);
    out.append("/");
    out.append(repo);
    out.append(".git");
    out
}

/// The mathematical value of a [`GitSource`].
pub ghost struct GitSourceView {
    pub url: Seq<char>,
    pub branch: Seq<char>,
    pub revision: Seq<char>,
    pub hash: Seq<char>,
    pub last_modified: Option<u64>,
    pub submodules: bool,
    pub frozen: bool,
}

/// A source that is fetched by checking out a git repository.
#[derive(Debug)]
pub struct GitSource {
    url: String,
    branch: String,
    revision: Revision,
    hash: SriHash,
    last_modified: Option<u64>,
    /// Whether to fetch submodules
    submodules: bool,
    frozen: bool,
}

impl View for GitSource {
    type V = GitSourceView;

    closed spec fn view(&self) -> GitSourceView {
        GitSourceView {
            url: self.url@,
            branch: self.branch@,
            revision: self.revision@,
            hash: self.hash@,
            last_modified: self.last_modified,
            submodules: self.submodules,
            frozen: self.frozen,
        }
    }
}

impl Clone for GitSource {
    fn clone(&self) -> (out: Self)
        ensures
            out@ == self@,
    {
        GitSource {
            url: self.url.clone(),
            branch: self.branch.clone(),
            revision: self.revision.clone(),
            hash: self.hash.clone(),
            last_modified: self.last_modified,
            submodules: self.submodules,
            frozen: self.frozen,
        }
    }
}

impl GitSource {
    /// The source with these values, as they were locked.
    pub fn new(
        url: &str,
        branch: &str,
        revision: Revision,
        hash: SriHash,
        last_modified: Option<u64>,
        submodules: bool,
        frozen: bool,
    ) -> (out: Self)
        ensures
            out@ == (GitSourceView {
                url: url@,
                branch: branch@,
                revision: revision@,
                hash: hash@,
                last_modified,
                submodules,
                frozen,
            }),
    {
        GitSource {
            url: url.to_owned(),
            branch: branch.to_owned(),
            revision,
            hash,
            last_modified,
            submodules,
            frozen,
        }
    }

    /// The repository's address.
    pub fn url(&self) -> (out: &str)
        ensures
            out@ == self@.url,
    {
        self.url.as_str()
    }

    /// The branch that is tracked.
    pub fn branch(&self) -> (out: &str)
        ensures
            out@ == self@.branch,
    {
        self.branch.as_str()
    }

    /// The locked revision.
    pub fn revision(&self) -> (out: &Revision)
        ensures
            out@ == self@.revision,
    {
        &self.revision
    }

    /// The hash of the locked revision's content.
    pub fn hash(&self) -> (out: &SriHash)
        ensures
            out@ == self@.hash,
    {
        &self.hash
    }

    /// When the locked revision was committed, in seconds since the epoch.
    pub fn last_modified(&self) -> (out: Option<u64>)
        ensures
            out == self@.last_modified,
    {
        self.last_modified
    }

    /// Whether submodules are fetched too.
    pub fn submodules(&self) -> (out: bool)
        ensures
            out == self@.submodules,
    {
        self.submodules
    }

    /// Whether the source is exempt from updates.
    pub fn frozen(&self) -> (out: bool)
        ensures
            out == self@.frozen,
    {
        self.frozen
    }
}

/// The mathematical value of a [`GitHubSource`].
pub ghost struct GitHubSourceView {
    pub owner: Seq<char>,
    pub repo: Seq<char>,
    pub branch: Seq<char>,
    pub revision: Seq<char>,
    pub url: Seq<char>,
    pub hash: Seq<char>,
    pub frozen: bool,
}

/// A source that is fetched as a tarball from GitHub.
#[derive(Debug)]
pub struct GitHubSource {
    owner: String,
    repo: String,
    branch: String,
    revision: Revision,
    url: String,
    hash: SriHash,
    frozen: bool,
}

impl View for GitHubSource {
    type V = GitHubSourceView;

    closed spec fn view(&self) -> GitHubSourceView {
        GitHubSourceView {
            owner: self.owner@,
            repo: self.repo@,
            branch: self.branch@,
            revision: self.revision@,
            url: self.url@,
            hash: self.hash@,
            frozen: self.frozen,
        }
    }
}

impl Clone for GitHubSource {
    fn clone(&self) -> (out: Self)
        ensures
            out@ == self@,
    {
        GitHubSource {
            owner: self.owner.clone(),
            repo: self.repo.clone(),
            branch: self.branch.clone(),
            revision: self.revision.clone(),
            url: self.url.clone(),
            hash: self.hash.clone(),
            frozen: self.frozen,
        }
    }
}

impl GitHubSource {
    /// The source with these values, as they were locked. Its tarball address is
    /// the one that belongs to the revision.
    pub fn new(owner: &str, repo: &str, branch: &str, revision: Revision, hash: SriHash, frozen: bool)
        -> (out: Self)
        ensures
            out@ == (GitHubSourceView {
                owner: owner@,
                repo: repo@,
                branch: branch@,
                revision: revision@,
                url: tarball_url_of(owner@, repo@, revision@),
                hash: hash@,
                frozen,
            }),
    {
        let url = tarball_url(owner, repo, revision.as_str());
        GitHubSource {
            owner: owner.to_owned(),
            repo: repo.to_owned(),
            branch: branch.to_owned(),
            revision,
            url,
            hash,
            frozen,
        }
    }

    /// The source with these values, as a lock recorded them: the tarball
    /// address is taken as it stands.
    pub fn recorded(
        owner: &str,
        repo: &str,
        branch: &str,
        revision: Revision,
        url: &str,
        hash: SriHash,
        frozen: bool,
    ) -> (out: Self)
        ensures
            out@ == (GitHubSourceView {
                owner: owner@,
                repo: repo@,
                branch: branch@,
                revision: revision@,
                url: url@,
                hash: hash@,
                frozen,
            }),
    {
        GitHubSource {
            owner: owner.to_owned(),
            repo: repo.to_owned(),
            branch: branch.to_owned(),
            revision,
            url: url.to_owned(),
            hash,
            frozen,
        }
    }

    /// The repository's owner.
    pub fn owner(&self) -> (out: &str)
        ensures
            out@ == self@.owner,
    {
        self.owner.as_str()
    }

    /// The repository's name.
    pub fn repo(&self) -> (out: &str)
        ensures
            out@ == self@.repo,
    {
        self.repo.as_str()
    }

    /// The branch that is tracked.
    pub fn branch(&self) -> (out: &str)
        ensures
            out@ == self@.branch,
    {
        self.branch.as_str()
    }

    /// The locked revision.
    pub fn revision(&self) -> (out: &Revision)
        ensures
            out@ == self@.revision,
    {
        &self.revision
    }

    /// The address of the locked revision's tarball.
    pub fn url(&self) -> (out: &str)
        ensures
            out@ == self@.url,
    {
        self.url.as_str()
    }

    /// The hash of the locked revision's content.
    pub fn hash(&self) -> (out: &SriHash)
        ensures
            out@ == self@.hash,
    {
        &self.hash
    }

    /// Whether the source is exempt from updates.
    pub fn frozen(&self) -> (out: bool)
        ensures
            out == self@.frozen,
    {
        self.frozen
    }
}

/// The mathematical value of a [`Source`].
pub ghost enum SourceView {
    Git(GitSourceView),
    GitHub(GitHubSourceView),
}

impl SourceView {
    /// Whether the source is exempt from updates.
    pub open spec fn frozen(self) -> bool {
        match self {
            SourceView::Git(s) => s.frozen,
            SourceView::GitHub(s) => s.frozen,
        }
    }

    /// The same source, exempt from updates or not.
    pub open spec fn with_frozen(self, frozen: bool) -> SourceView {
        match self {
            SourceView::Git(s) => SourceView::Git(GitSourceView { frozen, ..s }),
            SourceView::GitHub(s) => SourceView::GitHub(GitHubSourceView { frozen, ..s }),
        }
    }

    /// The same source, tracking another branch.
    pub open spec fn with_branch(self, branch: Seq<char>) -> SourceView {
        match self {
            SourceView::Git(s) => SourceView::Git(GitSourceView { branch, ..s }),
            SourceView::GitHub(s) => SourceView::GitHub(GitHubSourceView { branch, ..s }),
        }
    }

    /// The locked revision.
    pub open spec fn revision(self) -> Seq<char> {
        match self {
            SourceView::Git(s) => s.revision,
            SourceView::GitHub(s) => s.revision,
        }
    }

    /// The branch that is tracked.
    pub open spec fn branch(self) -> Seq<char> {
        match self {
            SourceView::Git(s) => s.branch,
            SourceView::GitHub(s) => s.branch,
        }
    }

    /// The hash of the locked revision's content.
    pub open spec fn hash(self) -> Seq<char> {
        match self {
            SourceView::Git(s) => s.hash,
            SourceView::GitHub(s) => s.hash,
        }
    }

    /// The address at which git reaches the repository.
    pub open spec fn location(self) -> Seq<char> {
        match self {
            SourceView::Git(s) => s.url,
            SourceView::GitHub(s) => github_git_url_of(s.owner, s.repo),
        }
    }

    /// The source locked to `revision`: the revision, the hash of its content and
    /// what else follows from the revision change together. A git source takes
    /// the time of the commit; a GitHub source the address of the revision's
    /// tarball.
    pub open spec fn relocked(
        self,
        revision: Seq<char>,
        hash: Seq<char>,
        last_modified: Option<u64>,
    ) -> SourceView {
        match self {
            SourceView::Git(s) => SourceView::Git(
                GitSourceView { revision, hash, last_modified, ..s },
            ),
            SourceView::GitHub(s) => SourceView::GitHub(
                GitHubSourceView {
                    revision,
                    hash,
                    url: tarball_url_of(s.owner, s.repo, revision),
                    ..s
                },
            ),
        }
    }
}

/// A source of one of the two kinds.
#[derive(Debug)]
pub enum Source {
    Git(GitSource),
    GitHub(GitHubSource),
}

impl View for Source {
    type V = SourceView;

    open spec fn view(&self) -> SourceView {
        match self {
            Source::Git(s) => SourceView::Git(s@),
            Source::GitHub(s) => SourceView::GitHub(s@),
        }
    }
}

impl Clone for Source {
    fn clone(&self) -> (out: Self)
        ensures
            out@ == self@,
    {
        match self {
            Source::Git(s) => Source::Git(s.clone()),
            Source::GitHub(s) => Source::GitHub(s.clone()),
        }
    }
}

impl Source {
    /// Exempts the source from updates.
    pub fn freeze(&mut self)
        ensures
            final(self)@ == old(self)@.with_frozen(true),
    {
        match self {
            Source::Git(s) => {
                s.frozen = true;
            },
            Source::GitHub(s) => {
                s.frozen = true;
            },
        }
    }

    /// Ends the source's exemption from updates.
    pub fn unfreeze(&mut self)
        ensures
            final(self)@ == old(self)@.with_frozen(false),
    {
        match self {
            Source::Git(s) => {
                s.frozen = false;
            },
            Source::GitHub(s) => {
                s.frozen = false;
            },
        }
    }

    /// Whether the source is exempt from updates.
    pub fn frozen(&self) -> (out: bool)
        ensures
            out == self@.frozen(),
    {
        match self {
            Source::Git(s) => s.frozen,
            Source::GitHub(s) => s.frozen,
        }
    }

    /// The locked revision.
    pub fn revision(&self) -> (out: &Revision)
        ensures
            out@ == self@.revision(),
    {
        match self {
            Source::Git(s) => &s.revision,
            Source::GitHub(s) => &s.revision,
        }
    }

    /// The branch that is tracked.
    pub fn branch(&self) -> (out: &str)
        ensures
            out@ == self@.branch(),
    {
        match self {
            Source::Git(s) => s.branch.as_str(),
            Source::GitHub(s) => s.branch.as_str(),
        }
    }

    /// The address at which git reaches the repository.
    pub fn location(&self) -> (out: String)
        ensures
            out@ == self@.location(),
    {
        match self {
            Source::Git(s) => s.url.clone(),
            Source::GitHub(s) => github_git_url(s.owner.as_str(), s.repo.as_str()),
        }
    }

    /// Locks the source to `revision`, whose content has the hash `hash`: the
    /// revision, the hash and what follows from the revision change together.
    pub fn lock(&mut self, revision: Revision, hash: SriHash, last_modified: Option<u64>)
        ensures
            final(self)@ == old(self)@.relocked(revision@, hash@, last_modified),
    {
        match self {
            Source::Git(s) => {
                s.revision = revision;
                s.hash = hash;
                s.last_modified = last_modified;
            },
            Source::GitHub(s) => {
                s.url = tarball_url(s.owner.as_str(), s.repo.as_str(), revision.as_str());
                s.revision = revision;
                s.hash = hash;
            },
        }
    }
}

/// A question to the world outside, which the caller answers.
#[derive(Debug)]
pub enum Query {
    /// What `git ls-remote --refs` prints for the branch's reference at `url`.
    NewestRevision { url: String, branch: String },
    /// The hash of the content of a revision of a git repository.
    GitHash { url: String, revision: String, submodules: bool },
    /// The hash of the unpacked content of a tarball.
    TarballHash { url: String },
    /// What `git log -1 --format=%ct` prints for a revision of the repository.
    LastModified { url: String, revision: String },
    /// What `git rev-list --oneline` prints for the commits after `old_revision`
    /// up to `new_revision`, at most `max_count` of them.
    GitHistory { url: String, old_revision: String, new_revision: String, max_count: usize },
    /// The commits that GitHub reports between the two revisions of `owner/repo`.
    GitHubHistory {
        owner: String,
        repo: String,
        old_revision: String,
        new_revision: String,
        max_count: usize,
    },
}

/// The mathematical value of a [`Query`].
pub ghost enum QueryView {
    NewestRevision { url: Seq<char>, branch: Seq<char> },
    GitHash { url: Seq<char>, revision: Seq<char>, submodules: bool },
    TarballHash { url: Seq<char> },
    LastModified { url: Seq<char>, revision: Seq<char> },
    GitHistory {
        url: Seq<char>,
        old_revision: Seq<char>,
        new_revision: Seq<char>,
        max_count: usize,
    },
    GitHubHistory {
        owner: Seq<char>,
        repo: Seq<char>,
        old_revision: Seq<char>,
        new_revision: Seq<char>,
        max_count: usize,
    },
}

impl View for Query {
    type V = QueryView;

    open spec fn view(&self) -> QueryView {
        match self {
            Query::NewestRevision { url, branch } => QueryView::NewestRevision {
                url: url@,
                branch: branch@,
            },
            Query::GitHash { url, revision, submodules } => QueryView::GitHash {
                url: url@,
                revision: revision@,
                submodules: *submodules,
            },
            Query::TarballHash { url } => QueryView::TarballHash { url: url@ },
            Query::LastModified { url, revision } => QueryView::LastModified {
                url: url@,
                revision: revision@,
            },
            Query::GitHistory { url, old_revision, new_revision, max_count } => QueryView::GitHistory {
                url: url@,
                old_revision: old_revision@,
                new_revision: new_revision@,
                max_count: *max_count,
            },
            Query::GitHubHistory {
                owner,
                repo,
                old_revision,
                new_revision,
                max_count,
            } => QueryView::GitHubHistory {
                owner: owner@,
                repo: repo@,
                old_revision: old_revision@,
                new_revision: new_revision@,
                max_count: *max_count,
            },
        }
    }
}

/// The answer to a [`Query`].
#[derive(Debug)]
pub enum Answer {
    /// What a command printed.
    Text(String),
    /// A hash that was computed.
    Hash(SriHash),
    /// Commits that were reported, the most recent first.
    Commits(Vec<Commit>),
    /// The question could not be answered.
    Failed(Error),
}

/// The mathematical value of an [`Answer`].
pub ghost enum AnswerView {
    Text(Seq<char>),
    Hash(Seq<char>),
    Commits(Seq<CommitView>),
    Failed(ErrorView),
}

impl View for Answer {
    type V = AnswerView;

    open spec fn view(&self) -> AnswerView {
        match self {
            Answer::Text(s) => AnswerView::Text(s@),
            Answer::Hash(h) => AnswerView::Hash(h@),
            Answer::Commits(c) => AnswerView::Commits(commits_view(c@)),
            Answer::Failed(e) => AnswerView::Failed(e@),
        }
    }
}

/// How far the locking of a source has come: what was asked last.
#[derive(Debug)]
pub enum Progress {
    /// The newest revision of the branch was asked for.
    AwaitNewest,
    /// The hash of `revision` was asked for.
    AwaitHash { revision: Revision },
    /// The time of `revision` was asked for; its hash is `hash`.
    AwaitLastModified { revision: Revision, hash: SriHash },
}

/// The mathematical value of a [`Progress`].
pub ghost enum ProgressView {
    AwaitNewest,
    AwaitHash { revision: Seq<char> },
    AwaitLastModified { revision: Seq<char>, hash: Seq<char> },
}

impl View for Progress {
    type V = ProgressView;

    open spec fn view(&self) -> ProgressView {
        match self {
            Progress::AwaitNewest => ProgressView::AwaitNewest,
            Progress::AwaitHash { revision } => ProgressView::AwaitHash { revision: revision@ },
            Progress::AwaitLastModified { revision, hash } => ProgressView::AwaitLastModified {
                revision: revision@,
                hash: hash@,
            },
        }
    }
}

/// What the locking of a source does next.
#[derive(Debug)]
pub enum Step {
    /// It asks a question; the answer is handed back together with the progress.
    Ask(Query, Progress),
    /// It is done: with `None` the source was left as it was, else it was locked
    /// to a new revision.
    Done(Option<UpdateSummary>),
    /// It failed, and the source was left as it was.
    Failed(Error),
}

/// The mathematical value of a [`Step`].
pub ghost enum StepView {
    Ask(QueryView, ProgressView),
    Done(Option<UpdateSummaryView>),
    Failed(ErrorView),
}

impl View for Step {
    type V = StepView;

    open spec fn view(&self) -> StepView {
        match self {
            Step::Ask(q, p) => StepView::Ask(q@, p@),
            Step::Done(s) => StepView::Done(
                match s {
                    Some(u) => Some(u@),
                    None => None,
                },
            ),
            Step::Failed(e) => StepView::Failed(e@),
        }
    }
}

/// The error for an answer of a kind that was not asked for.
pub open spec fn unexpected_answer() -> ErrorView {
    ErrorView::Decode { message: "Unexpected answer"@ }
}

/// The error for a time that is no number.
pub open spec fn bad_last_modified() -> ErrorView {
    ErrorView::Decode { message: "Failed to parse last modified timestamp."@ }
}

/// The time that `git log -1 --format=%ct` printed: the number before the white
/// space at the end of its output.
pub open spec fn last_modified_of_output(output: Seq<char>) -> Option<u64> {
    parse_u64_of(trim_end_of(output))
}

/// The summary of an update from `old_revision` to `new_revision` without a list
/// of commits.
pub open spec fn summary_of(old_revision: Seq<char>, new_revision: Seq<char>) -> UpdateSummaryView {
    UpdateSummaryView { old_revision, new_revision, rev_list: None }
}

/// The question for the hash of `revision` of the source.
pub open spec fn hash_query_of(s: SourceView, revision: Seq<char>) -> QueryView {
    match s {
        SourceView::Git(g) => QueryView::GitHash {
            url: g.url,
            revision,
            submodules: g.submodules,
        },
        SourceView::GitHub(g) => QueryView::TarballHash {
            url: tarball_url_of(g.owner, g.repo, revision),
        },
    }
}

/// How an update begins: a frozen source is done at once and asks nothing; any
/// other asks for the newest revision of its branch.
pub open spec fn begin_update_of(s: SourceView) -> StepView {
    if s.frozen() {
        StepView::Done(None)
    } else {
        StepView::Ask(
            QueryView::NewestRevision { url: s.location(), branch: s.branch() },
            ProgressView::AwaitNewest,
        )
    }
}

/// How locking to the newest revision of the branch begins, for a source that
/// is being added: with the question for that revision, frozen or not.
pub open spec fn begin_locate_of(s: SourceView) -> StepView {
    StepView::Ask(
        QueryView::NewestRevision { url: s.location(), branch: s.branch() },
        ProgressView::AwaitNewest,
    )
}

/// How locking to `revision` begins: with the question for its hash.
pub open spec fn begin_lock_of(s: SourceView, revision: Seq<char>) -> StepView {
    StepView::Ask(hash_query_of(s, revision), ProgressView::AwaitHash { revision })
}

/// What an answer does to a source and its locking: the source after it and the
/// next step.
///
/// The newest revision of the branch ends the update where it is the locked
/// one, and else is locked to. The hash of a revision completes the locking of
/// a GitHub source; a git source asks for the revision's time first. A failure,
/// an answer that cannot be read and an answer of another kind than was asked
/// for fail the locking. The source changes only when the locking completes.
pub open spec fn resume_of(s: SourceView, progress: ProgressView, answer: AnswerView) -> (
    SourceView,
    StepView,
) {
    match (progress, answer) {
        (_, AnswerView::Failed(e)) => (s, StepView::Failed(e)),
        (ProgressView::AwaitNewest, AnswerView::Text(output)) => match newest_of_output(
            s.location(),
            s.branch(),
            output,
        ) {
            Err(e) => (s, StepView::Failed(e)),
            Ok(newest) => if newest == s.revision() {
                (s, StepView::Done(None))
            } else {
                (s, begin_lock_of(s, newest))
            },
        },
        (ProgressView::AwaitHash { revision }, AnswerView::Hash(hash)) => match s {
            SourceView::Git(g) => (
                s,
                StepView::Ask(
                    QueryView::LastModified { url: g.url, revision },
                    ProgressView::AwaitLastModified { revision, hash },
                ),
            ),
            SourceView::GitHub(_) => (
                s.relocked(revision, hash, None),
                StepView::Done(Some(summary_of(s.revision(), revision))),
            ),
        },
        (
            ProgressView::AwaitLastModified { revision, hash },
            AnswerView::Text(output),
        ) => match last_modified_of_output(output) {
            None => (s, StepView::Failed(bad_last_modified())),
            Some(time) => (
                s.relocked(revision, hash, Some(time)),
                StepView::Done(Some(summary_of(s.revision(), revision))),
            ),
        },
        _ => (s, StepView::Failed(unexpected_answer())),
    }
}

/// What changing the branch or the revision of a source asks for next.
#[derive(Debug)]
pub enum Goal {
    /// Nothing more.
    Nothing,
    /// An update to the newest revision of the branch.
    Update,
    /// Locking to this revision.
    LockTo(Revision),
}

/// The mathematical value of a [`Goal`].
pub ghost enum GoalView {
    Nothing,
    Update,
    LockTo(Seq<char>),
}

impl View for Goal {
    type V = GoalView;

    open spec fn view(&self) -> GoalView {
        match self {
            Goal::Nothing => GoalView::Nothing,
            Goal::Update => GoalView::Update,
            Goal::LockTo(r) => GoalView::LockTo(r@),
        }
    }
}

/// The source after `modify`: it tracks the new branch where one is given.
pub open spec fn modified_of(s: SourceView, branch: Option<Seq<char>>) -> SourceView {
    match branch {
        Some(b) => s.with_branch(b),
        None => s,
    }
}

/// What `modify` asks for next: locking to the revision where one is given that
/// is not the locked one; without a revision, an update where the branch changed.
pub open spec fn goal_of(s: SourceView, branch: Option<Seq<char>>, revision: Option<Seq<char>>)
    -> GoalView {
    match revision {
        Some(r) => if r == s.revision() {
            GoalView::Nothing
        } else {
            GoalView::LockTo(r)
        },
        None => match branch {
            Some(b) => if b == s.branch() {
                GoalView::Nothing
            } else {
                GoalView::Update
            },
            None => GoalView::Nothing,
        },
    }
}

/// The question for the commits of an update of the source.
pub open spec fn rev_list_query_of(s: SourceView, u: UpdateSummaryView, max_count: usize)
    -> QueryView {
    match s {
        SourceView::Git(g) => QueryView::GitHistory {
            url: g.url,
            old_revision: u.old_revision,
            new_revision: u.new_revision,
            max_count,
        },
        SourceView::GitHub(g) => QueryView::GitHubHistory {
            owner: g.owner,
            repo: g.repo,
            old_revision: u.old_revision,
            new_revision: u.new_revision,
            max_count,
        },
    }
}

/// The first `max_count` of the commits, or all where there are fewer.
pub open spec fn bounded(commits: Seq<CommitView>, max_count: usize) -> Seq<CommitView> {
    commits.take(
        if max_count <= commits.len() {
            max_count as int
        } else {
            commits.len() as int
        },
    )
}

/// The commits of an update that an answer holds, at most `max_count` of them.
/// A git source reads them from what `git rev-list --oneline` printed; a GitHub
/// source takes them as they were reported.
pub open spec fn rev_list_of(s: SourceView, max_count: usize, answer: AnswerView) -> Result<
    Seq<CommitView>,
    ErrorView,
> {
    match (s, answer) {
        (_, AnswerView::Failed(e)) => Err(e),
        (SourceView::Git(_), AnswerView::Text(output)) => Ok(
            bounded(rev_list_of_output(trim_end_of(output)), max_count),
        ),
        (SourceView::GitHub(_), AnswerView::Commits(commits)) => Ok(bounded(commits, max_count)),
        _ => Err(unexpected_answer()),
    }
}

pub(crate) fn unexpected() -> (out: Error)
    ensures
        out@ == unexpected_answer(),
{
    Error::Decode { message: "Unexpected answer".to_owned() }
}

/// Reads the time that `git log -1 --format=%ct` printed.
pub fn parse_last_modified(output: &str) -> (out: Result<u64, Error>)
    ensures
        match (out, last_modified_of_output(output@)) {
            (Ok(got), Some(want)) => got == want,
            (Err(got), None) => got@ == bad_last_modified(),
            _ => false,
        },
{
    let trimmed = trim_end(output);
    match parse_u64(trimmed.as_str()) {
        Some(time) => Ok(time),
        None => Err(
            Error::Decode { message: "Failed to parse last modified timestamp.".to_owned() },
        ),
    }
}

impl Source {
    /// The question for the hash of `revision` of this source.
    pub fn hash_query(&self, revision: &Revision) -> (out: Query)
        ensures
            out@ == hash_query_of(self@, revision@),
    {
        match self {
            Source::Git(s) => Query::GitHash {
                url: s.url.clone(),
                revision: revision.to_string(),
                submodules: s.submodules,
            },
            Source::GitHub(s) => Query::TarballHash {
                url: tarball_url(s.owner.as_str(), s.repo.as_str(), revision.as_str()),
            },
        }
    }

    /// Begins an update to the newest revision of the branch. A frozen source
    /// is done at once, without a question.
    pub fn update(&self) -> (out: Step)
        ensures
            out@ == begin_update_of(self@),
            self@.frozen() ==> out@ == StepView::Done(None),
    {
        if self.frozen() {
            Step::Done(None)
        } else {
            Step::Ask(
                Query::NewestRevision { url: self.location(), branch: self.branch().to_owned() },
                Progress::AwaitNewest,
            )
        }
    }

    /// Begins locking to the newest revision of the branch, whether the source
    /// is frozen or not: this is how a source that is being added finds its
    /// first revision.
    pub fn locate(&self) -> (out: Step)
        ensures
            out@ == begin_locate_of(self@),
    {
        Step::Ask(
            Query::NewestRevision { url: self.location(), branch: self.branch().to_owned() },
            Progress::AwaitNewest,
        )
    }

    /// Begins locking to `revision`, whether the source is frozen or not.
    pub fn lock_to(&self, revision: Revision) -> (out: Step)
        ensures
            out@ == begin_lock_of(self@, revision@),
    {
        let query = self.hash_query(&revision);
        Step::Ask(query, Progress::AwaitHash { revision })
    }

    /// Takes the answer to the question that was asked last and goes on from
    /// there. The source changes only when the locking completes, and then the
    /// revision, its hash and what follows from the revision change together.
    pub fn resume(&mut self, progress: Progress, answer: Answer) -> (out: Step)
        ensures
            (final(self)@, out@) == resume_of(old(self)@, progress@, answer@),
    {
        match (progress, answer) {
            (_, Answer::Failed(e)) => Step::Failed(e),
            (Progress::AwaitNewest, Answer::Text(output)) => {
                let location = self.location();
                match find_newest_revision(location.as_str(), self.branch(), output.as_str()) {
                    Err(e) => Step::Failed(e),
                    Ok(newest) => {
                        if newest == *self.revision() {
                            Step::Done(None)
                        } else {
                            self.lock_to(newest)
                        }
                    },
                }
            },
            (Progress::AwaitHash { revision }, Answer::Hash(hash)) => {
                match self {
                    Source::Git(s) => Step::Ask(
                        Query::LastModified { url: s.url.clone(), revision: revision.to_string() },
                        Progress::AwaitLastModified { revision, hash },
                    ),
                    Source::GitHub(_) => {
                        let summary = UpdateSummary::new(self.revision().clone(), revision.clone());
                        self.lock(revision, hash, None);
                        Step::Done(Some(summary))
                    },
                }
            },
            (Progress::AwaitLastModified { revision, hash }, Answer::Text(output)) => {
                match parse_last_modified(output.as_str()) {
                    Err(e) => Step::Failed(e),
                    Ok(time) => {
                        let summary = UpdateSummary::new(self.revision().clone(), revision.clone());
                        self.lock(revision, hash, Some(time));
                        Step::Done(Some(summary))
                    },
                }
            },
            _ => Step::Failed(unexpected()),
        }
    }

    /// Changes the branch that the source tracks, and says what has to follow: a
    /// given revision that is not the locked one is to be locked to; without a
    /// revision, a changed branch is to be updated from.
    pub fn modify(&mut self, branch: Option<&String>, revision: Option<&String>) -> (out: Goal)
        ensures
            final(self)@ == modified_of(
                old(self)@,
                match branch {
                    Some(b) => Some(b@),
                    None => None,
                },
            ),
            out@ == goal_of(
                old(self)@,
                match branch {
                    Some(b) => Some(b@),
                    None => None,
                },
                match revision {
                    Some(r) => Some(r@),
                    None => None,
                },
            ),
    {
        let mut changed = false;
        if let Some(b) = branch {
            match self {
                Source::Git(s) => {
                    changed = !(s.branch == *b);
                    s.branch = b.clone();
                },
                Source::GitHub(s) => {
                    changed = !(s.branch == *b);
                    s.branch = b.clone();
                },
            }
        }
        match revision {
            Some(r) => {
                let given = Revision::new(r.as_str());
                if given == *self.revision() {
                    Goal::Nothing
                } else {
                    Goal::LockTo(given)
                }
            },
            None => {
                if changed {
                    Goal::Update
                } else {
                    Goal::Nothing
                }
            },
        }
    }

    /// The question for the commits of an update of this source, at most
    /// `num_commits` of them.
    pub fn rev_list_query(&self, summary: &UpdateSummary, num_commits: usize) -> (out: Query)
        ensures
            out@ == rev_list_query_of(self@, summary@, num_commits),
    {
        match self {
            Source::Git(s) => Query::GitHistory {
                url: s.url.clone(),
                old_revision: summary.old_revision.to_string(),
                new_revision: summary.new_revision.to_string(),
                max_count: num_commits,
            },
            Source::GitHub(s) => Query::GitHubHistory {
                owner: s.owner.clone(),
                repo: s.repo.clone(),
                old_revision: summary.old_revision.to_string(),
                new_revision: summary.new_revision.to_string(),
                max_count: num_commits,
            },
        }
    }

    /// The commits of an update that the answer to [`Source::rev_list_query`]
    /// holds, the most recent first and at most `num_commits` of them.
    pub fn rev_list(&self, num_commits: usize, answer: Answer) -> (out: Result<RevList, Error>)
        ensures
            match (out, rev_list_of(self@, num_commits, answer@)) {
                (Ok(got), Ok(want)) => got@ == want,
                (Err(got), Err(want)) => got@ == want,
                _ => false,
            },
            out is Ok ==> out->Ok_0@.len() <= num_commits,
    {
        match (self, answer) {
            (_, Answer::Failed(e)) => Err(e),
            (Source::Git(_), Answer::Text(output)) => {
                let trimmed = trim_end(output.as_str());
                let list = RevList::from_git_output(trimmed.as_str());
                Ok(list.bounded(num_commits))
            },
            (Source::GitHub(_), Answer::Commits(commits)) => Ok(
                RevList::from_commits_bounded(commits, num_commits),
            ),
            _ => Err(unexpected()),
        }
    }
}

/// An update from its beginning to its end, with the answers that the world
/// outside gives to the questions for the newest revision, for a hash and for a
/// time: the source after it, and the step at which it ends.
pub open spec fn run_update_of(
    s: SourceView,
    newest: AnswerView,
    hash: AnswerView,
    time: AnswerView,
) -> (SourceView, StepView) {
    match begin_update_of(s) {
        StepView::Ask(_, first) => {
            let (s1, step1) = resume_of(s, first, newest);
            match step1 {
                StepView::Ask(_, second) => {
                    let (s2, step2) = resume_of(s1, second, hash);
                    match step2 {
                        StepView::Ask(_, third) => resume_of(s2, third, time),
                        _ => (s2, step2),
                    }
                },
                _ => (s1, step1),
            }
        },
        step => (s, step),
    }
}

/// A frozen source is never updated: its update is done at once with no change
/// to report, and asks nothing of the world outside, whatever that world holds.
pub proof fn lemma_frozen_is_never_updated(
    s: SourceView,
    newest: AnswerView,
    hash: AnswerView,
    time: AnswerView,
)
    requires
        s.frozen(),
    ensures
        begin_update_of(s) == StepView::Done(None),
        run_update_of(s, newest, hash, time) == (s, StepView::Done(None)),
{
}

/// Locking is one step. An answer either leaves the source as it was, or it
/// completes the locking, and then the source holds the new revision together
/// with the hash that was given for that revision, and with the time that was
/// read for it (a git source) or the address of its tarball (a GitHub source).
pub proof fn lemma_lock_is_atomic(s: SourceView, progress: ProgressView, answer: AnswerView)
    ensures
        ({
            let (after, step) = resume_of(s, progress, answer);
            match step {
                StepView::Done(Some(u)) => {
                    &&& u.old_revision == s.revision()
                    &&& u.rev_list is None
                    &&& after.revision() == u.new_revision
                    &&& match progress {
                        ProgressView::AwaitHash { revision } => {
                            &&& revision == u.new_revision
                            &&& answer == AnswerView::Hash(after.hash())
                            &&& after == s.relocked(revision, after.hash(), None)
                        },
                        ProgressView::AwaitLastModified { revision, hash } => {
                            &&& revision == u.new_revision
                            &&& hash == after.hash()
                            &&& answer is Text
                            &&& after == s.relocked(
                                revision,
                                hash,
                                last_modified_of_output(answer->Text_0),
                            )
                        },
                        ProgressView::AwaitNewest => false,
                    }
                    &&& match after {
                        SourceView::Git(g) => g.last_modified == match progress {
                            ProgressView::AwaitLastModified { .. } => last_modified_of_output(
                                answer->Text_0,
                            ),
                            _ => None,
                        },
                        SourceView::GitHub(g) => g.url == tarball_url_of(
                            g.owner,
                            g.repo,
                            g.revision,
                        ),
                    }
                },
                _ => after == s,
            }
        }),
{
}

/// An update that has run to its end leaves nothing for a second one to do: as
/// long as the repository reports the same, the second update ends with no
/// change to report and leaves the source, with its hash and all that belongs to
/// its revision, as the first one left it.
pub proof fn lemma_update_is_idempotent(
    s: SourceView,
    newest: AnswerView,
    hash: AnswerView,
    time: AnswerView,
    second_hash: AnswerView,
    second_time: AnswerView,
)
    requires
        run_update_of(s, newest, hash, time).1 is Done,
    ensures
        ({
            let after = run_update_of(s, newest, hash, time).0;
            run_update_of(after, newest, second_hash, second_time) == (after, StepView::Done(None))
        }),
{
    let after = run_update_of(s, newest, hash, time).0;
    if !s.frozen() {
        assert(after.location() == s.location());
        assert(after.branch() == s.branch());
        assert(after.frozen() == s.frozen());
    }
}

/// The views of a sequence of named sources.
pub open spec fn entries_view(v: Seq<(String, Source)>) -> Seq<(Seq<char>, SourceView)> {
    v.map_values(|e: (String, Source)| (e.0@, e.1@))
}

/// Whether the entries stand in the order of their names, no name twice.
pub open spec fn sorted_by_name(entries: Seq<(Seq<char>, SourceView)>) -> bool {
    forall|i: int, j: int|
        0 <= i < j < entries.len() ==> lt_of(#[trigger] entries[i].0, #[trigger] entries[j].0)
}

/// The position of the first entry at or after `from` that has this name, or the
/// number of entries where there is none.
pub open spec fn find_name(entries: Seq<(Seq<char>, SourceView)>, name: Seq<char>, from: int) -> int
    decreases entries.len() - from,
{
    if from < 0 || from >= entries.len() {
        entries.len() as int
    } else if entries[from].0 == name {
        from
    } else {
        find_name(entries, name, from + 1)
    }
}

/// Whether an entry has this name.
pub open spec fn has_name(entries: Seq<(Seq<char>, SourceView)>, name: Seq<char>) -> bool {
    find_name(entries, name, 0) < entries.len()
}

/// The source with this name.
pub open spec fn get_of(entries: Seq<(Seq<char>, SourceView)>, name: Seq<char>) -> Option<
    SourceView,
> {
    if has_name(entries, name) {
        Some(entries[find_name(entries, name, 0)].1)
    } else {
        None
    }
}

/// The entries without the one that has this name.
pub open spec fn removed_of(entries: Seq<(Seq<char>, SourceView)>, name: Seq<char>) -> Seq<
    (Seq<char>, SourceView),
> {
    if has_name(entries, name) {
        entries.remove(find_name(entries, name, 0))
    } else {
        entries
    }
}

/// The position of the first entry at or after `from` whose name does not come
/// before `name`, or the number of entries where there is none.
pub open spec fn rank_of(entries: Seq<(Seq<char>, SourceView)>, name: Seq<char>, from: int) -> int
    decreases entries.len() - from,
{
    if from < 0 || from >= entries.len() {
        entries.len() as int
    } else if !lt_of(entries[from].0, name) {
        from
    } else {
        rank_of(entries, name, from + 1)
    }
}

/// The entries with one more, at its place in the order of names.
pub open spec fn added_of(
    entries: Seq<(Seq<char>, SourceView)>,
    name: Seq<char>,
    source: SourceView,
) -> Seq<(Seq<char>, SourceView)> {
    entries.insert(rank_of(entries, name, 0), (name, source))
}

/// The entries with another source under a name that is there.
pub open spec fn replaced_of(
    entries: Seq<(Seq<char>, SourceView)>,
    name: Seq<char>,
    source: SourceView,
) -> Seq<(Seq<char>, SourceView)> {
    if has_name(entries, name) {
        entries.update(find_name(entries, name, 0), (name, source))
    } else {
        entries
    }
}

/// The names of the entries, in the entries' order.
pub open spec fn names_of(entries: Seq<(Seq<char>, SourceView)>) -> Seq<Seq<char>> {
    entries.map_values(|e: (Seq<char>, SourceView)| e.0)
}

/// `find_name` returns the first entry with the name, at or after `from`.
pub proof fn lemma_find_name(entries: Seq<(Seq<char>, SourceView)>, name: Seq<char>, from: int)
    requires
        0 <= from <= entries.len(),
    ensures
        from <= find_name(entries, name, from) <= entries.len(),
        find_name(entries, name, from) < entries.len() ==> entries[find_name(
            entries,
            name,
            from,
        )].0 == name,
        forall|j: int| from <= j < find_name(entries, name, from) ==> entries[j].0 != name,
    decreases entries.len() - from,
{
    if from < entries.len() && entries[from].0 != name {
        lemma_find_name(entries, name, from + 1);
    }
}

/// `rank_of` returns the place of a name in the order: the names before it come
/// before the name, and the name at it does not.
pub proof fn lemma_rank_of(entries: Seq<(Seq<char>, SourceView)>, name: Seq<char>, from: int)
    requires
        0 <= from <= entries.len(),
    ensures
        from <= rank_of(entries, name, from) <= entries.len(),
        rank_of(entries, name, from) < entries.len() ==> !lt_of(
            entries[rank_of(entries, name, from)].0,
            name,
        ),
        forall|j: int| from <= j < rank_of(entries, name, from) ==> lt_of(entries[j].0, name),
    decreases entries.len() - from,
{
    if from < entries.len() && lt_of(entries[from].0, name) {
        lemma_rank_of(entries, name, from + 1);
    }
}

/// Entries in the order of their names stay so with one more at its place.
pub proof fn lemma_added_is_sorted(
    entries: Seq<(Seq<char>, SourceView)>,
    name: Seq<char>,
    source: SourceView,
)
    requires
        sorted_by_name(entries),
        !has_name(entries, name),
    ensures
        sorted_by_name(added_of(entries, name, source)),
        get_of(added_of(entries, name, source), name) == Some(source),
{
    let r = rank_of(entries, name, 0);
    let after = added_of(entries, name, source);
    lemma_rank_of(entries, name, 0);
    lemma_find_name(entries, name, 0);
    assert forall|j: int| r <= j < entries.len() implies lt_of(name, entries[j].0) by {
        lemma_lt_total(entries[r].0, name);
        if j > r {
            assert(lt_of(entries[r].0, entries[j].0));
            lemma_lt_transitive(name, entries[r].0, entries[j].0);
        }
    }
    assert forall|i: int, j: int| 0 <= i < j < after.len() implies lt_of(
        #[trigger] after[i].0,
        #[trigger] after[j].0,
    ) by {
        if i < r {
            assert(after[i] == entries[i]);
            if j < r {
                assert(after[j] == entries[j]);
                assert(lt_of(entries[i].0, entries[j].0));
            } else if j > r {
                assert(after[j] == entries[j - 1]);
                if j - 1 > i {
                    assert(lt_of(entries[i].0, entries[j - 1].0));
                }
            }
        } else if i == r {
            assert(after[j] == entries[j - 1]);
        } else {
            assert(after[i] == entries[i - 1]);
            assert(after[j] == entries[j - 1]);
            assert(lt_of(entries[i - 1].0, entries[j - 1].0));
        }
    }
    lemma_find_name(after, name, 0);
    assert(after[r].0 == name);
    assert forall|j: int| 0 <= j < r implies after[j].0 != name by {
        assert(after[j] == entries[j]);
    }
    assert(find_name(after, name, 0) == r);
}

/// The place of a name in the order is the one position with only smaller
/// names before it and no smaller name at it.
pub proof fn lemma_rank_is(entries: Seq<(Seq<char>, SourceView)>, name: Seq<char>, r: int)
    requires
        0 <= r <= entries.len(),
        forall|j: int| 0 <= j < r ==> lt_of(#[trigger] entries[j].0, name),
        r < entries.len() ==> !lt_of(entries[r].0, name),
    ensures
        rank_of(entries, name, 0) == r,
{
    lemma_rank_of(entries, name, 0);
    let q = rank_of(entries, name, 0);
    if q < r {
        assert(lt_of(entries[q].0, name));
    } else if q > r {
        assert(lt_of(entries[r].0, name));
    }
}

proof fn lemma_add_commutes_ordered(
    entries: Seq<(Seq<char>, SourceView)>,
    a: Seq<char>,
    x: SourceView,
    b: Seq<char>,
    y: SourceView,
)
    requires
        sorted_by_name(entries),
        lt_of(a, b),
    ensures
        added_of(added_of(entries, a, x), b, y) == added_of(added_of(entries, b, y), a, x),
{
    let ra = rank_of(entries, a, 0);
    let rb = rank_of(entries, b, 0);
    lemma_rank_of(entries, a, 0);
    lemma_rank_of(entries, b, 0);
    if rb < ra {
        assert(lt_of(entries[rb].0, a));
        lemma_lt_transitive(entries[rb].0, a, b);
    }
    let first = entries.insert(ra, (a, x));
    let second = entries.insert(rb, (b, y));
    assert forall|j: int| 0 <= j < rb + 1 implies lt_of(#[trigger] first[j].0, b) by {
        if j < ra {
            assert(first[j] == entries[j]);
            assert(lt_of(entries[j].0, b));
        } else if j > ra {
            assert(first[j] == entries[j - 1]);
            assert(lt_of(entries[j - 1].0, b));
        }
    }
    if rb + 1 < first.len() {
        assert(first[rb + 1] == entries[rb]);
    }
    lemma_rank_is(first, b, rb + 1);
    assert forall|j: int| 0 <= j < ra implies lt_of(#[trigger] second[j].0, a) by {
        assert(second[j] == entries[j]);
        assert(lt_of(entries[j].0, a));
    }
    if ra < rb {
        assert(second[ra] == entries[ra]);
    } else {
        assert(second[ra] == (b, y));
        lemma_lt_asymmetric(a, b);
    }
    lemma_rank_is(second, a, ra);
    assert(first.insert(rb + 1, (b, y)) =~= second.insert(ra, (a, x)));
}

/// The order in which sources are added does not matter: two sources with
/// different names give the same registry whichever is added first.
pub proof fn lemma_add_commutes(
    entries: Seq<(Seq<char>, SourceView)>,
    a: Seq<char>,
    x: SourceView,
    b: Seq<char>,
    y: SourceView,
)
    requires
        sorted_by_name(entries),
        a != b,
    ensures
        added_of(added_of(entries, a, x), b, y) == added_of(added_of(entries, b, y), a, x),
{
    lemma_lt_total(a, b);
    if lt_of(a, b) {
        lemma_add_commutes_ordered(entries, a, x, b, y);
    } else {
        lemma_add_commutes_ordered(entries, b, y, a, x);
    }
}

/// In entries that stand in the order of their names, a name stands only once.
pub proof fn lemma_names_are_unique(entries: Seq<(Seq<char>, SourceView)>, i: int, j: int)
    requires
        sorted_by_name(entries),
        0 <= i < entries.len(),
        0 <= j < entries.len(),
        entries[i].0 == entries[j].0,
    ensures
        i == j,
{
    lemma_lt_irreflexive(entries[i].0);
    if i < j {
        assert(lt_of(entries[i].0, entries[j].0));
    } else if j < i {
        assert(lt_of(entries[j].0, entries[i].0));
    }
}

/// The registry of sources: each under its name, no name twice, in the order of
/// the names.
#[derive(Debug)]
pub struct Sources {
    entries: Vec<(String, Source)>,
}

impl View for Sources {
    type V = Seq<(Seq<char>, SourceView)>;

    closed spec fn view(&self) -> Self::V {
        entries_view(self.entries@)
    }
}

impl Clone for Sources {
    fn clone(&self) -> (out: Self)
        ensures
            out@ == self@,
    {
        let mut entries: Vec<(String, Source)> = Vec::new();
        let mut i: usize = 0;
        while i < self.entries.len()
            invariant
                i <= self.entries@.len(),
                entries_view(entries@) == entries_view(self.entries@).take(i as int),
            decreases self.entries@.len() - i,
        {
            let name = self.entries[i].0.clone();
            let source = self.entries[i].1.clone();
            let ghost before = entries_view(entries@);
            entries.push((name, source));
            assert(entries_view(entries@) =~= before.push((name@, source@)));
            i = i + 1;
            assert(entries_view(self.entries@).take(i as int) =~= before.push((name@, source@)));
        }
        assert(entries_view(self.entries@).take(i as int) =~= entries_view(self.entries@));
        Sources { entries }
    }
}

impl Sources {
    /// Whether the registry is in order: see [`sorted_by_name`].
    pub open spec fn wf(&self) -> bool {
        sorted_by_name(self@)
    }

    /// The registry without a source.
    pub fn new() -> (out: Self)
        ensures
            out.wf(),
            out@ == Seq::<(Seq<char>, SourceView)>::empty(),
    {
        let out = Sources { entries: Vec::new() };
        assert(out@ =~= Seq::<(Seq<char>, SourceView)>::empty());
        out
    }

    /// The number of sources.
    pub fn len(&self) -> (n: usize)
        ensures
            n == self@.len(),
    {
        self.entries.len()
    }

    /// Whether the registry holds no source.
    pub fn is_empty(&self) -> (b: bool)
        ensures
            b == (self@.len() == 0),
    {
        self.entries.len() == 0
    }

    fn position(&self, name: &str) -> (i: usize)
        ensures
            i == find_name(self@, name@, 0),
            i <= self@.len(),
            i < self@.len() ==> self@[i as int].0 == name@,
    {
        let key = name.to_owned();
        let mut i: usize = 0;
        while i < self.entries.len() && !(self.entries[i].0 == key)
            invariant
                i <= self.entries@.len(),
                key@ == name@,
                find_name(self@, name@, 0) == find_name(self@, name@, i as int),
            decreases self.entries@.len() - i,
        {
            assert(self@[i as int].0 == self.entries@[i as int].0@);
            i = i + 1;
        }
        proof {
            if i < self.entries@.len() {
                assert(self@[i as int].0 == self.entries@[i as int].0@);
            }
        }
        i
    }

    /// Whether the registry is in order.
    pub fn check(&self) -> (b: bool)
        ensures
            b == self.wf(),
    {
        if self.entries.len() < 2 {
            return true;
        }
        let n: usize = self.entries.len();
        let mut i: usize = 0;
        while i + 1 < n
            invariant
                n == self.entries@.len(),
                i < n,
                forall|a: int, b: int|
                    0 <= a < b <= i ==> lt_of(#[trigger] self@[a].0, #[trigger] self@[b].0),
            decreases self.entries@.len() - i,
        {
            assert(self@[i as int].0 == self.entries@[i as int].0@);
            assert(self@[i + 1].0 == self.entries@[i + 1].0@);
            if !str_lt(self.entries[i].0.as_str(), self.entries[i + 1].0.as_str()) {
                return false;
            }
            proof {
                assert forall|a: int, b: int| 0 <= a < b <= i + 1 implies lt_of(
                    #[trigger] self@[a].0,
                    #[trigger] self@[b].0,
                ) by {
                    if b == i + 1 && a < i {
                        assert(lt_of(self@[a].0, self@[i as int].0));
                        lemma_lt_transitive(self@[a].0, self@[i as int].0, self@[i + 1].0);
                    }
                }
            }
            i = i + 1;
        }
        true
    }

    /// The name of the source at position `i` in the order of names.
    pub fn name_at(&self, i: usize) -> (out: &String)
        requires
            i < self@.len(),
        ensures
            out@ == self@[i as int].0,
    {
        &self.entries[i].0
    }

    /// The source at position `i` in the order of names.
    pub fn source_at(&self, i: usize) -> (out: &Source)
        requires
            i < self@.len(),
        ensures
            out@ == self@[i as int].1,
    {
        &self.entries[i].1
    }

    /// Whether a source has this name.
    pub fn contains(&self, name: &str) -> (b: bool)
        ensures
            b == has_name(self@, name@),
    {
        self.position(name) < self.entries.len()
    }

    /// The source with this name.
    pub fn get(&self, name: &str) -> (out: Option<&Source>)
        ensures
            match (out, get_of(self@, name@)) {
                (Some(got), Some(want)) => got@ == want,
                (None, None) => true,
                _ => false,
            },
    {
        let i = self.position(name);
        if i < self.entries.len() {
            assert(self@[i as int].1 == self.entries@[i as int].1@);
            Some(&self.entries[i].1)
        } else {
            None
        }
    }

    /// The source with this name, to be changed in place.
    pub fn get_mut(&mut self, name: &str) -> (out: Option<&mut Source>)
        ensures
            match out {
                Some(source) => {
                    &&& get_of(old(self)@, name@) == Some(source@)
                    &&& final(self)@ == replaced_of(old(self)@, name@, final(source)@)
                },
                None => get_of(old(self)@, name@) is None && final(self)@ == old(self)@,
            },
    {
        let i = self.position(name);
        if i < self.entries.len() {
            assert(self@[i as int].1 == self.entries@[i as int].1@);
            let entry = &mut self.entries[i];
            Some(&mut entry.1)
        } else {
            None
        }
    }

    /// Adds a source under a name that no source has yet.
    pub fn add(&mut self, name: &str, source: Source)
        requires
            old(self).wf(),
            !has_name(old(self)@, name@),
        ensures
            final(self).wf(),
            final(self)@ == added_of(old(self)@, name@, source@),
            get_of(final(self)@, name@) == Some(source@),
    {
        let mut i: usize = 0;
        while i < self.entries.len() && str_lt(self.entries[i].0.as_str(), name)
            invariant
                i <= self.entries@.len(),
                *self == *old(self),
                rank_of(self@, name@, 0) == rank_of(self@, name@, i as int),
            decreases self.entries@.len() - i,
        {
            assert(self@[i as int].0 == self.entries@[i as int].0@);
            i = i + 1;
        }
        proof {
            if i < self.entries@.len() {
                assert(self@[i as int].0 == self.entries@[i as int].0@);
            }
            lemma_added_is_sorted(old(self)@, name@, source@);
        }
        self.entries.insert(i, (name.to_owned(), source));
        assert(self@ =~= added_of(old(self)@, name@, source@));
    }

    /// Removes the source with this name, if there is one.
    pub fn remove(&mut self, name: &str)
        requires
            old(self).wf(),
        ensures
            final(self).wf(),
            final(self)@ == removed_of(old(self)@, name@),
            !has_name(final(self)@, name@),
    {
        let i = self.position(name);
        proof {
            lemma_find_name(self@, name@, 0);
        }
        if i < self.entries.len() {
            self.entries.remove(i);
            assert(self@ =~= old(self)@.remove(i as int));
            proof {
                let before = old(self)@;
                let after = self@;
                assert forall|a: int, b: int| 0 <= a < b < after.len() implies lt_of(
                    #[trigger] after[a].0,
                    #[trigger] after[b].0,
                ) by {
                    let a0 = if a < i {
                        a
                    } else {
                        a + 1
                    };
                    let b0 = if b < i {
                        b
                    } else {
                        b + 1
                    };
                    assert(after[a] == before[a0]);
                    assert(after[b] == before[b0]);
                    assert(lt_of(before[a0].0, before[b0].0));
                }
                lemma_find_name(after, name@, 0);
                let k = find_name(after, name@, 0);
                if k < after.len() {
                    let k0 = if k < i {
                        k
                    } else {
                        k + 1
                    };
                    assert(after[k] == before[k0]);
                    lemma_names_are_unique(before, k0, i as int);
                }
            }
        }
    }

    /// Puts another source under a name that is there; without that name the
    /// registry stays as it is.
    pub fn replace(&mut self, name: &str, source: Source)
        requires
            old(self).wf(),
        ensures
            final(self).wf(),
            final(self)@ == replaced_of(old(self)@, name@, source@),
    {
        let i = self.position(name);
        if i < self.entries.len() {
            self.entries.set(i, (name.to_owned(), source));
            assert(self@ =~= old(self)@.update(i as int, (name@, source@)));
            proof {
                let before = old(self)@;
                let after = self@;
                assert forall|a: int, b: int| 0 <= a < b < after.len() implies lt_of(
                    #[trigger] after[a].0,
                    #[trigger] after[b].0,
                ) by {
                    assert(after[a].0 == before[a].0);
                    assert(after[b].0 == before[b].0);
                    assert(lt_of(before[a].0, before[b].0));
                }
            }
        }
    }

    /// The names of the sources, in their order.
    pub fn names(&self) -> (out: Vec<&String>)
        ensures
            out@.map_values(|s: &String| s@) == names_of(self@),
    {
        let mut out: Vec<&String> = Vec::new();
        let mut i: usize = 0;
        while i < self.entries.len()
            invariant
                i <= self.entries@.len(),
                out@.map_values(|s: &String| s@) == names_of(self@).take(i as int),
            decreases self.entries@.len() - i,
        {
            let ghost before = out@.map_values(|s: &String| s@);
            let name = &self.entries[i].0;
            out.push(name);
            assert(out@.map_values(|s: &String| s@) =~= before.push(name@));
            i = i + 1;
            assert(names_of(self@).take(i as int) =~= before.push(name@));
        }
        assert(names_of(self@).take(i as int) =~= names_of(self@));
        out
    }
}

/// The registry that a lock's records give: each source under its name, in the
/// order of the names. Of two records with one name the later one stays.
pub open spec fn loaded_of(records: Seq<(Seq<char>, RecordView)>) -> Seq<(Seq<char>, SourceView)>
    decreases records.len(),
{
    if records.len() == 0 {
        Seq::empty()
    } else {
        let before = loaded_of(records.drop_last());
        let name = records.last().0;
        let source = records.last().1.source;
        if has_name(before, name) {
            replaced_of(before, name, source)
        } else {
            added_of(before, name, source)
        }
    }
}

/// The records that are written for a registry: one for each source, in the
/// registry's order, each naming the fetcher of its kind of source.
pub open spec fn written_of(entries: Seq<(Seq<char>, SourceView)>) -> Seq<(Seq<char>, RecordView)> {
    entries.map_values(|e: (Seq<char>, SourceView)| (e.0, record_of(e.1)))
}

/// Whether the records stand in the order of their names, no name twice.
pub open spec fn records_sorted(records: Seq<(Seq<char>, RecordView)>) -> bool {
    forall|i: int, j: int|
        0 <= i < j < records.len() ==> lt_of(#[trigger] records[i].0, #[trigger] records[j].0)
}

/// Whether each record names the fetcher of its kind of source.
pub open spec fn records_canonical(records: Seq<(Seq<char>, RecordView)>) -> bool {
    forall|i: int|
        0 <= i < records.len() ==> (#[trigger] records[i]).1 == record_of(records[i].1.source)
}

/// The sources of the records, each under its name.
pub open spec fn sources_of(records: Seq<(Seq<char>, RecordView)>) -> Seq<(Seq<char>, SourceView)> {
    records.map_values(|r: (Seq<char>, RecordView)| (r.0, r.1.source))
}

/// A registry replaces a source in place: the names and their order stay.
pub proof fn lemma_replaced_is_sorted(
    entries: Seq<(Seq<char>, SourceView)>,
    name: Seq<char>,
    source: SourceView,
)
    requires
        sorted_by_name(entries),
    ensures
        sorted_by_name(replaced_of(entries, name, source)),
        names_of(replaced_of(entries, name, source)) == names_of(entries),
{
    let after = replaced_of(entries, name, source);
    lemma_find_name(entries, name, 0);
    assert forall|a: int, b: int| 0 <= a < b < after.len() implies lt_of(
        #[trigger] after[a].0,
        #[trigger] after[b].0,
    ) by {
        assert(after[a].0 == entries[a].0);
        assert(after[b].0 == entries[b].0);
        assert(lt_of(entries[a].0, entries[b].0));
    }
    assert(names_of(after) =~= names_of(entries));
}

/// A registry replaces a source in place: every name is found where it was.
pub proof fn lemma_replaced_keeps_names(
    entries: Seq<(Seq<char>, SourceView)>,
    name: Seq<char>,
    source: SourceView,
    other: Seq<char>,
)
    ensures
        find_name(replaced_of(entries, name, source), other, 0) == find_name(entries, other, 0),
        has_name(replaced_of(entries, name, source), other) == has_name(entries, other),
{
    let after = replaced_of(entries, name, source);
    lemma_find_name(entries, name, 0);
    lemma_find_name(entries, other, 0);
    lemma_find_name(after, other, 0);
    let a = find_name(entries, other, 0);
    let b = find_name(after, other, 0);
    assert(after.len() == entries.len());
    assert forall|j: int| 0 <= j < entries.len() implies after[j].0 == entries[j].0 by {}
    if a < b {
        assert(after[a].0 == entries[a].0);
    } else if b < a {
        assert(after[b].0 == entries[b].0);
    }
}

/// What is loaded from any records is a registry in order.
pub proof fn lemma_loaded_is_sorted(records: Seq<(Seq<char>, RecordView)>)
    ensures
        sorted_by_name(loaded_of(records)),
    decreases records.len(),
{
    if records.len() > 0 {
        let before = loaded_of(records.drop_last());
        lemma_loaded_is_sorted(records.drop_last());
        let name = records.last().0;
        let source = records.last().1.source;
        if has_name(before, name) {
            lemma_replaced_is_sorted(before, name, source);
        } else {
            lemma_added_is_sorted(before, name, source);
        }
    }
}

/// Records in the order of their names are loaded as they stand.
pub proof fn lemma_loaded_of_sorted(records: Seq<(Seq<char>, RecordView)>)
    requires
        records_sorted(records),
    ensures
        loaded_of(records) == sources_of(records),
    decreases records.len(),
{
    if records.len() == 0 {
        assert(sources_of(records) =~= Seq::<(Seq<char>, SourceView)>::empty());
    } else {
        let head = records.drop_last();
        let before = loaded_of(head);
        let name = records.last().0;
        let source = records.last().1.source;
        assert forall|i: int, j: int| 0 <= i < j < head.len() implies lt_of(
            #[trigger] head[i].0,
            #[trigger] head[j].0,
        ) by {
            assert(head[i] == records[i]);
            assert(head[j] == records[j]);
        }
        lemma_loaded_of_sorted(head);
        assert forall|i: int| 0 <= i < before.len() implies lt_of(before[i].0, name) by {
            assert(before[i].0 == records[i].0);
            assert(lt_of(records[i].0, records[records.len() - 1].0));
        }
        lemma_find_name(before, name, 0);
        let k = find_name(before, name, 0);
        if k < before.len() {
            lemma_lt_irreflexive(name);
            assert(lt_of(before[k].0, name));
        }
        lemma_rank_of(before, name, 0);
        let r = rank_of(before, name, 0);
        if r < before.len() {
            assert(lt_of(before[r].0, name));
        }
        assert(before.insert(before.len() as int, (name, source)) =~= sources_of(records));
    }
}

/// Reading a lock and writing it again gives the same lock: the same records
/// in the same order, none added, lost or changed. This holds of every lock whose
/// records stand in the order of their names and name the fetcher of their kind
/// of source, which is how locks are written.
pub proof fn lemma_lock_round_trip(records: Seq<(Seq<char>, RecordView)>)
    requires
        records_sorted(records),
        records_canonical(records),
    ensures
        written_of(loaded_of(records)) == records,
{
    lemma_loaded_of_sorted(records);
    assert(written_of(sources_of(records)) =~= records);
}

/// Writing a registry and reading it again gives the same registry.
pub proof fn lemma_registry_round_trip(entries: Seq<(Seq<char>, SourceView)>)
    requires
        sorted_by_name(entries),
    ensures
        records_sorted(written_of(entries)),
        records_canonical(written_of(entries)),
        loaded_of(written_of(entries)) == entries,
{
    let records = written_of(entries);
    assert forall|i: int, j: int| 0 <= i < j < records.len() implies lt_of(
        #[trigger] records[i].0,
        #[trigger] records[j].0,
    ) by {
        assert(records[i].0 == entries[i].0);
        assert(records[j].0 == entries[j].0);
        assert(lt_of(entries[i].0, entries[j].0));
    }
    lemma_loaded_of_sorted(records);
    assert(sources_of(records) =~= entries);
}

fn source_of_record(record: &lock::v1::Source) -> (out: Source)
    ensures
        out@ == record@.source,
{
    match record {
        lock::v1::Source::Git(r) => Source::Git(
            GitSource {
                url: r.url.clone(),
                branch: r.branch.clone(),
                revision: Revision::new(r.revision.as_str()),
                hash: r.hash.clone(),
                last_modified: r.last_modified,
                submodules: r.submodules,
                frozen: r.frozen,
            },
        ),
        lock::v1::Source::GitHub(r) => Source::GitHub(
            GitHubSource {
                owner: r.owner.clone(),
                repo: r.repo.clone(),
                branch: r.branch.clone(),
                revision: Revision::new(r.revision.as_str()),
                url: r.url.clone(),
                hash: r.hash.clone(),
                frozen: r.frozen,
            },
        ),
    }
}

fn record_of_source(source: &Source) -> (out: lock::v1::Source)
    ensures
        out@ == record_of(source@),
{
    match source {
        Source::Git(s) => lock::v1::Source::Git(
            lock::v1::GitSource {
                fetch_type: FetchType::Git,
                frozen: s.frozen,
                branch: s.branch.clone(),
                revision: s.revision.to_string(),
                url: s.url.clone(),
                hash: s.hash.clone(),
                last_modified: s.last_modified,
                submodules: s.submodules,
            },
        ),
        Source::GitHub(s) => lock::v1::Source::GitHub(
            lock::v1::GitHubSource {
                fetch_type: FetchType::Tarball,
                frozen: s.frozen,
                owner: s.owner.clone(),
                repo: s.repo.clone(),
                branch: s.branch.clone(),
                revision: s.revision.to_string(),
                url: s.url.clone(),
                hash: s.hash.clone(),
            },
        ),
    }
}

impl Source {
    /// The source that a record of the lock holds.
    pub fn from_record(record: lock::v1::Source) -> (out: Self)
        ensures
            out@ == record@.source,
    {
        source_of_record(&record)
    }

    /// The record that the lock holds for this source.
    pub fn into_record(self) -> (out: lock::v1::Source)
        ensures
            out@ == record_of(self@),
    {
        record_of_source(&self)
    }
}

impl Sources {
    /// The registry that a lock of the first version holds.
    pub fn from_v1(value: lock::v1::Lock) -> (out: Self)
        ensures
            out.wf(),
            out@ == loaded_of(value@),
    {
        let mut out = Sources::new();
        let mut i: usize = 0;
        assert(value@.take(0) =~= Seq::<(Seq<char>, RecordView)>::empty());
        while i < value.sources.len()
            invariant
                i <= value.sources@.len(),
                out.wf(),
                out@ == loaded_of(value@.take(i as int)),
            decreases value.sources@.len() - i,
        {
            let name = &value.sources[i].0;
            let source = source_of_record(&value.sources[i].1);
            proof {
                assert(value@.take(i + 1).drop_last() =~= value@.take(i as int));
                assert(value@.take(i + 1).last() == (name@, value.sources@[i as int].1@));
            }
            if out.contains(name.as_str()) {
                out.replace(name.as_str(), source);
            } else {
                out.add(name.as_str(), source);
            }
            i = i + 1;
        }
        assert(value@.take(i as int) =~= value@);
        out
    }

    /// The registry that a lock holds, whatever the lock's version.
    pub fn from_lock(value: lock::Lock) -> (out: Self)
        ensures
            out.wf(),
            out@ == loaded_of(value@),
    {
        match value {
            lock::Lock::V1(l) => Sources::from_v1(l),
        }
    }

    /// The lock of the first version that holds this registry.
    pub fn into_v1(self) -> (out: lock::v1::Lock)
        ensures
            out@ == written_of(self@),
    {
        let mut records: Vec<(String, lock::v1::Source)> = Vec::new();
        let mut i: usize = 0;
        while i < self.entries.len()
            invariant
                i <= self.entries@.len(),
                records_view(records@) == written_of(self@).take(i as int),
            decreases self.entries@.len() - i,
        {
            let ghost before = records_view(records@);
            let name = self.entries[i].0.clone();
            let record = record_of_source(&self.entries[i].1);
            records.push((name, record));
            assert(records_view(records@) =~= before.push((name@, record@)));
            i = i + 1;
            assert(written_of(self@).take(i as int) =~= before.push((name@, record@)));
        }
        assert(written_of(self@).take(i as int) =~= written_of(self@));
        lock::v1::Lock { sources: records }
    }

    /// The lock of the version that is written that holds this registry.
    pub fn into_latest_lock(self) -> (out: lock::Lock)
        ensures
            out is V1,
            out@ == written_of(self@),
    {
        lock::Lock::V1(self.into_v1())
    }
}

} // verus!
