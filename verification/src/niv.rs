//! Locks of Niv: what they hold of each package, and the source that a package
//! becomes.

use crate::git::Revision;
use crate::sources::{
    tarball_url_of, GitHubSource, GitHubSourceView, GitSource, GitSourceView, Source, SourceView,
    SriHash,
};
use vstd::prelude::*;

verus! {

/// The mathematical value of a [`Package`].
pub ghost struct PackageView {
    pub owner: Option<Seq<char>>,
    pub repo: Seq<char>,
    pub branch: Seq<char>,
    pub rev: Seq<char>,
}

/// What a lock of Niv holds of a package.
#[derive(Debug)]
pub struct Package {
    owner: Option<String>,
    repo: String,
    branch: String,
    rev: String,
}

impl View for Package {
    type V = PackageView;

    closed spec fn view(&self) -> PackageView {
        PackageView {
            owner: match self.owner {
                Some(o) => Some(o@),
                None => None,
            },
            repo: self.repo@,
            branch: self.branch@,
            rev: self.rev@,
        }
    }
}

/// The source that a package becomes, before it is locked: a GitHub source
/// where the package names an owner, else a git source whose address is what the
/// package gives for the repository. It is not frozen, fetches no submodules, and
/// has no revision and no hash yet.
pub open spec fn unlocked_of(p: PackageView) -> SourceView {
    match p.owner {
        Some(owner) => SourceView::GitHub(
            GitHubSourceView {
                owner,
                repo: p.repo,
                branch: p.branch,
                revision: Seq::empty(),
                url: tarball_url_of(owner, p.repo, Seq::empty()),
                hash: Seq::empty(),
                frozen: false,
            },
        ),
        None => SourceView::Git(
            GitSourceView {
                url: p.repo,
                branch: p.branch,
                revision: Seq::empty(),
                hash: Seq::empty(),
                last_modified: None,
                submodules: false,
                frozen: false,
            },
        ),
    }
}

impl Package {
    /// The package with these values.
    pub fn new(owner: Option<&str>, repo: &str, branch: &str, rev: &str) -> (out: Self)
        ensures
            out@ == (PackageView {
                owner: crate::bot::text_view(owner),
                repo: repo@,
                branch: branch@,
                rev: rev@,
            }),
    {
        Package {
            owner: match owner {
                Some(o) => Some(o.to_owned()),
                None => None,
            },
            repo: repo.to_owned(),
            branch: branch.to_owned(),
            rev: rev.to_owned(),
        }
    }

    /// The source that the package becomes, before it is locked.
    pub fn unlocked(&self) -> (out: Source)
        ensures
            out@ == unlocked_of(self@),
    {
        let empty = String::new();
        match &self.owner {
            Some(owner) => Source::GitHub(
                GitHubSource::new(
                    owner.as_str(),
                    self.repo.as_str(),
                    self.branch.as_str(),
                    Revision::new(empty.as_str()),
                    SriHash::new(empty.as_str()),
                    false,
                ),
            ),
            None => Source::Git(
                GitSource::new(
                    self.repo.as_str(),
                    self.branch.as_str(),
                    Revision::new(empty.as_str()),
                    SriHash::new(empty.as_str()),
                    None,
                    false,
                    false,
                ),
            ),
        }
    }

    /// The revision to which the package is to be locked.
    pub fn revision(&self) -> (out: Revision)
        ensures
            out@ == self@.rev,
    {
        Revision::new(self.rev.as_str())
    }
}

/// The views of a sequence of named packages.
pub open spec fn packages_view(v: Seq<(String, Package)>) -> Seq<(Seq<char>, PackageView)> {
    v.map_values(|e: (String, Package)| (e.0@, e.1@))
}

/// A lock of Niv: its packages, each under its name.
#[derive(Debug)]
pub struct LockFile(Vec<(String, Package)>);

impl View for LockFile {
    type V = Seq<(Seq<char>, PackageView)>;

    closed spec fn view(&self) -> Self::V {
        packages_view(self.0@)
    }
}

impl LockFile {
    /// The lock with these packages.
    pub fn new(packages: Vec<(String, Package)>) -> (out: Self)
        ensures
            out@ == packages_view(packages@),
    {
        LockFile(packages)
    }

    /// The packages, each under its name.
    pub fn packages(&self) -> (out: &Vec<(String, Package)>)
        ensures
            packages_view(out@) == self@,
    {
        &self.0
    }
}

} // verus!
