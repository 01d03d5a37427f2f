//! The first version of the lock: what it records of each source.

use crate::sources::{GitHubSourceView, GitSourceView, SourceView, SriHash};
use vstd::prelude::*;

verus! {

/// Which fetcher downloads a source.
#[derive(Clone, Copy, Debug, PartialEq, Eq, Structural)]
pub enum FetchType {
    Git,
    Tarball,
}

/// What the lock records of a git source.
#[derive(Debug)]
pub struct GitSource {
    pub fetch_type: FetchType,
    pub frozen: bool,
    pub branch: String,
    pub revision: String,
    pub url: String,
    pub hash: SriHash,
    pub last_modified: Option<u64>,
    /// Whether to fetch submodules
    pub submodules: bool,
}

/// What the lock records of a GitHub source.
#[derive(Debug)]
pub struct GitHubSource {
    pub fetch_type: FetchType,
    pub frozen: bool,
    pub owner: String,
    pub repo: String,
    pub branch: String,
    pub revision: String,
    pub url: String,
    pub hash: SriHash,
}

/// What the lock records of a source.
#[derive(Debug)]
pub enum Source {
    Git(GitSource),
    GitHub(GitHubSource),
}

/// The mathematical value of a recorded source: the fetcher that the record
/// names, and the source.
pub ghost struct RecordView {
    pub fetch_type: FetchType,
    pub source: SourceView,
}

impl View for GitSource {
    type V = RecordView;

    open spec fn view(&self) -> RecordView {
        RecordView {
            fetch_type: self.fetch_type,
            source: SourceView::Git(
                GitSourceView {
                    url: self.url@,
                    branch: self.branch@,
                    revision: self.revision@,
                    hash: self.hash@,
                    last_modified: self.last_modified,
                    submodules: self.submodules,
                    frozen: self.frozen,
                },
            ),
        }
    }
}

impl View for GitHubSource {
    type V = RecordView;

    open spec fn view(&self) -> RecordView {
        RecordView {
            fetch_type: self.fetch_type,
            source: SourceView::GitHub(
                GitHubSourceView {
                    owner: self.owner@,
                    repo: self.repo@,
                    branch: self.branch@,
                    revision: self.revision@,
                    url: self.url@,
                    hash: self.hash@,
                    frozen: self.frozen,
                },
            ),
        }
    }
}

impl View for Source {
    type V = RecordView;

    open spec fn view(&self) -> RecordView {
        match self {
            Source::Git(s) => s@,
            Source::GitHub(s) => s@,
        }
    }
}

/// The fetcher that downloads a source of this kind.
pub open spec fn fetch_type_of(source: SourceView) -> FetchType {
    match source {
        SourceView::Git(_) => FetchType::Git,
        SourceView::GitHub(_) => FetchType::Tarball,
    }
}

/// The record that is written for a source.
pub open spec fn record_of(source: SourceView) -> RecordView {
    RecordView { fetch_type: fetch_type_of(source), source }
}

/// The views of a sequence of named records.
pub open spec fn records_view(v: Seq<(String, Source)>) -> Seq<(Seq<char>, RecordView)> {
    v.map_values(|e: (String, Source)| (e.0@, e.1@))
}

/// The first version of the lock: the recorded sources, each under its name.
#[derive(Debug)]
pub struct Lock {
    pub sources: Vec<(String, Source)>,
}

impl View for Lock {
    type V = Seq<(Seq<char>, RecordView)>;

    open spec fn view(&self) -> Self::V {
        records_view(self.sources@)
    }
}

} // verus!
