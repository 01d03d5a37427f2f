use lon::error::Error;
use lon::git::{Commit, Revision};
use lon::lock;
use lon::lock::v1::FetchType;
use lon::sources::{
    github_git_url, parse_last_modified, tarball_url, Answer, GitHubSource, GitSource, Goal,
    Progress, Query, Source, Sources, SriHash, Step, UpdateSummary,
};

const OLD: &str = "043344a1c19619435e2b79cd42de6592308af0aa";
const NEW: &str = "21386f9d14831b594048e1e4340ac7a300e312d6";
const HASH_OLD: &str = "sha256-5wJChh/6lrQodEtR+tPll4Xb6ZzbSF7bGaKwH00toO0=";
const HASH_NEW: &str = "sha256-AAAAAAAAAAAAAAAAAAAAAAAAAAAAAAAAAAAAAAAAAAA=";

fn git_source(frozen: bool) -> Source {
    Source::Git(GitSource::new(
        "git@remote:repo.git",
        "main",
        Revision::new(OLD),
        SriHash::new(HASH_OLD),
        Some(1745335431),
        false,
        frozen,
    ))
}

fn github_source(frozen: bool) -> Source {
    Source::GitHub(GitHubSource::new(
        "nixos",
        "nixpkgs",
        "master",
        Revision::new(OLD),
        SriHash::new(HASH_OLD),
        frozen,
    ))
}

fn refs(revision: &str, branch: &str) -> Answer {
    Answer::Text(format!("{revision}\trefs/heads/{branch}\n"))
}

fn as_git(source: &Source) -> &GitSource {
    match source {
        Source::Git(s) => s,
        Source::GitHub(_) => panic!("not a git source"),
    }
}

fn as_github(source: &Source) -> &GitHubSource {
    match source {
        Source::GitHub(s) => s,
        Source::Git(_) => panic!("not a GitHub source"),
    }
}

#[test]
fn urls_of_github_sources() {
    assert_eq!(
        "https://github.com/nixos/nixpkgs/archive/abc.tar.gz",
        tarball_url("nixos", "nixpkgs", "abc")
    );
    assert_eq!(
        "https://github.com/nixos/nixpkgs.git",
        github_git_url("nixos", "nixpkgs")
    );
    let source = github_source(false);
    assert_eq!(
        format!("https://github.com/nixos/nixpkgs/archive/{OLD}.tar.gz"),
        as_github(&source).url()
    );
    assert_eq!("https://github.com/nixos/nixpkgs.git", source.location());
    assert_eq!("git@remote:repo.git", git_source(false).location());
}

#[test]
fn frozen_source_is_done_without_a_question() {
    for source in [git_source(true), github_source(true)] {
        match source.update() {
            Step::Done(None) => {}
            other => panic!("unexpected: {:?}", other),
        }
    }
}

#[test]
fn freeze_and_unfreeze() {
    let mut source = git_source(false);
    assert!(!source.frozen());
    source.freeze();
    assert!(source.frozen());
    assert!(matches!(source.update(), Step::Done(None)));
    source.unfreeze();
    assert!(!source.frozen());
    assert!(matches!(source.update(), Step::Ask(_, _)));
}

#[test]
fn git_source_is_updated_in_three_questions() {
    let mut source = git_source(false);
    let progress = match source.update() {
        Step::Ask(Query::NewestRevision { url, branch }, progress) => {
            assert_eq!("git@remote:repo.git", url);
            assert_eq!("main", branch);
            progress
        }
        other => panic!("unexpected: {:?}", other),
    };
    let progress = match source.resume(progress, refs(NEW, "main")) {
        Step::Ask(
            Query::GitHash {
                url,
                revision,
                submodules,
            },
            progress,
        ) => {
            assert_eq!("git@remote:repo.git", url);
            assert_eq!(NEW, revision);
            assert!(!submodules);
            progress
        }
        other => panic!("unexpected: {:?}", other),
    };
    // nothing has changed yet
    assert_eq!(OLD, source.revision().as_str());
    let progress = match source.resume(progress, Answer::Hash(SriHash::new(HASH_NEW))) {
        Step::Ask(Query::LastModified { url, revision }, progress) => {
            assert_eq!("git@remote:repo.git", url);
            assert_eq!(NEW, revision);
            progress
        }
        other => panic!("unexpected: {:?}", other),
    };
    assert_eq!(OLD, source.revision().as_str());
    assert_eq!(HASH_OLD, as_git(&source).hash().as_str());
    match source.resume(progress, Answer::Text("1745400000\n".to_string())) {
        Step::Done(Some(summary)) => {
            assert_eq!(OLD, summary.old_revision.as_str());
            assert_eq!(NEW, summary.new_revision.as_str());
            assert!(summary.rev_list.is_none());
        }
        other => panic!("unexpected: {:?}", other),
    }
    let locked = as_git(&source);
    assert_eq!(NEW, locked.revision().as_str());
    assert_eq!(HASH_NEW, locked.hash().as_str());
    assert_eq!(Some(1745400000), locked.last_modified());
    assert_eq!("main", locked.branch());
    assert_eq!("git@remote:repo.git", locked.url());
    assert!(!locked.submodules());
    assert!(!locked.frozen());
}

#[test]
fn github_source_is_updated_in_two_questions() {
    let mut source = github_source(false);
    let progress = match source.update() {
        Step::Ask(Query::NewestRevision { url, branch }, progress) => {
            assert_eq!("https://github.com/nixos/nixpkgs.git", url);
            assert_eq!("master", branch);
            progress
        }
        other => panic!("unexpected: {:?}", other),
    };
    let progress = match source.resume(progress, refs(NEW, "master")) {
        Step::Ask(Query::TarballHash { url }, progress) => {
            assert_eq!(
                format!("https://github.com/nixos/nixpkgs/archive/{NEW}.tar.gz"),
                url
            );
            progress
        }
        other => panic!("unexpected: {:?}", other),
    };
    match source.resume(progress, Answer::Hash(SriHash::new(HASH_NEW))) {
        Step::Done(Some(summary)) => {
            assert_eq!(OLD, summary.old_revision.as_str());
            assert_eq!(NEW, summary.new_revision.as_str());
        }
        other => panic!("unexpected: {:?}", other),
    }
    let locked = as_github(&source);
    assert_eq!(NEW, locked.revision().as_str());
    assert_eq!(HASH_NEW, locked.hash().as_str());
    assert_eq!(
        format!("https://github.com/nixos/nixpkgs/archive/{NEW}.tar.gz"),
        locked.url()
    );
    assert_eq!("nixos", locked.owner());
    assert_eq!("nixpkgs", locked.repo());
    assert_eq!("master", locked.branch());
}

#[test]
fn update_twice_without_upstream_change_does_nothing() {
    let mut source = github_source(false);
    let Step::Ask(_, progress) = source.update() else {
        panic!("no question")
    };
    let Step::Ask(_, progress) = source.resume(progress, refs(NEW, "master")) else {
        panic!("no question")
    };
    assert!(matches!(
        source.resume(progress, Answer::Hash(SriHash::new(HASH_NEW))),
        Step::Done(Some(_))
    ));
    for _ in 0..2 {
        let Step::Ask(_, progress) = source.update() else {
            panic!("no question")
        };
        assert!(matches!(
            source.resume(progress, refs(NEW, "master")),
            Step::Done(None)
        ));
        let locked = as_github(&source);
        assert_eq!(NEW, locked.revision().as_str());
        assert_eq!(HASH_NEW, locked.hash().as_str());
        assert_eq!(
            format!("https://github.com/nixos/nixpkgs/archive/{NEW}.tar.gz"),
            locked.url()
        );
    }
}

#[test]
fn ambiguous_ref_fails_before_any_hash_is_asked_for() {
    let mut source = git_source(false);
    let Step::Ask(_, progress) = source.update() else {
        panic!("no question")
    };
    let two = Answer::Text(format!(
        "{OLD}\trefs/heads/main\n{NEW}\trefs/heads/main\n"
    ));
    match source.resume(progress, two) {
        Step::Failed(Error::AmbiguousRef { url, reference }) => {
            assert_eq!("git@remote:repo.git", url);
            assert_eq!("refs/heads/main", reference);
        }
        other => panic!("unexpected: {:?}", other),
    }
    let locked = as_git(&source);
    assert_eq!(OLD, locked.revision().as_str());
    assert_eq!(HASH_OLD, locked.hash().as_str());
    assert_eq!(Some(1745335431), locked.last_modified());
}

#[test]
fn missing_ref_and_failures_leave_the_source_alone() {
    let mut source = git_source(false);
    let Step::Ask(_, progress) = source.update() else {
        panic!("no question")
    };
    assert!(matches!(
        source.resume(progress, Answer::Text(String::new())),
        Step::Failed(Error::MissingRef { .. })
    ));

    let Step::Ask(_, progress) = source.lock_to(Revision::new(NEW)) else {
        panic!("no question")
    };
    let failure = Answer::Failed(Error::Transport {
        message: "Failed to prefetch".to_string(),
    });
    match source.resume(progress, failure) {
        Step::Failed(Error::Transport { message }) => assert_eq!("Failed to prefetch", message),
        other => panic!("unexpected: {:?}", other),
    }
    assert_eq!(OLD, source.revision().as_str());

    let progress = Progress::AwaitLastModified {
        revision: Revision::new(NEW),
        hash: SriHash::new(HASH_NEW),
    };
    match source.resume(progress, Answer::Text("yesterday".to_string())) {
        Step::Failed(Error::Decode { message }) => {
            assert_eq!("Failed to parse last modified timestamp.", message)
        }
        other => panic!("unexpected: {:?}", other),
    }
    assert_eq!(OLD, source.revision().as_str());
    assert_eq!(HASH_OLD, as_git(&source).hash().as_str());

    match source.resume(Progress::AwaitNewest, Answer::Hash(SriHash::new(HASH_NEW))) {
        Step::Failed(Error::Decode { message }) => assert_eq!("Unexpected answer", message),
        other => panic!("unexpected: {:?}", other),
    }
}

#[test]
fn a_source_that_is_added_finds_its_revision_frozen_or_not() {
    let mut source = Source::Git(GitSource::new(
        "git@remote:repo.git",
        "main",
        Revision::new(""),
        SriHash::new(""),
        None,
        true,
        true,
    ));
    let Step::Ask(Query::NewestRevision { url, branch }, progress) = source.locate() else {
        panic!("no question")
    };
    assert_eq!("git@remote:repo.git", url);
    assert_eq!("main", branch);
    let Step::Ask(Query::GitHash { submodules, .. }, progress) =
        source.resume(progress, refs(NEW, "main"))
    else {
        panic!("no question")
    };
    assert!(submodules);
    let Step::Ask(_, progress) = source.resume(progress, Answer::Hash(SriHash::new(HASH_NEW)))
    else {
        panic!("no question")
    };
    assert!(matches!(
        source.resume(progress, Answer::Text("1745335431".to_string())),
        Step::Done(Some(_))
    ));
    assert_eq!(NEW, source.revision().as_str());
    assert!(source.frozen());
}

#[test]
fn last_modified_is_the_number_before_the_line_end() {
    assert_eq!(1745335431, parse_last_modified("1745335431\n").unwrap());
    assert_eq!(0, parse_last_modified("0").unwrap());
    assert!(parse_last_modified("").is_err());
    assert!(parse_last_modified("12 34\n").is_err());
    assert!(parse_last_modified("-1\n").is_err());
}

#[test]
fn modify_changes_the_branch_and_says_what_follows() {
    let dev = "dev".to_string();
    let main = "main".to_string();
    let new = NEW.to_string();
    let old = OLD.to_string();

    let mut source = git_source(false);
    assert!(matches!(source.modify(Some(&dev), None), Goal::Update));
    assert_eq!("dev", source.branch());

    let mut source = git_source(false);
    assert!(matches!(source.modify(Some(&main), None), Goal::Nothing));
    assert_eq!("main", source.branch());

    let mut source = git_source(false);
    match source.modify(Some(&dev), Some(&new)) {
        Goal::LockTo(revision) => assert_eq!(NEW, revision.as_str()),
        other => panic!("unexpected: {:?}", other),
    }
    assert_eq!("dev", source.branch());
    assert_eq!(OLD, source.revision().as_str());

    let mut source = github_source(true);
    assert!(matches!(source.modify(Some(&dev), Some(&old)), Goal::Nothing));
    assert_eq!("dev", source.branch());

    let mut source = github_source(true);
    assert!(matches!(source.modify(None, None), Goal::Nothing));
    match source.modify(None, Some(&new)) {
        Goal::LockTo(revision) => {
            // a frozen source is locked to a given revision all the same
            assert!(matches!(
                source.lock_to(revision),
                Step::Ask(Query::TarballHash { .. }, _)
            ));
        }
        other => panic!("unexpected: {:?}", other),
    }
}

#[test]
fn rev_list_is_read_and_bounded() {
    let summary = UpdateSummary::new(Revision::new(OLD), Revision::new(NEW));
    let source = git_source(false);
    match source.rev_list_query(&summary, 2) {
        Query::GitHistory {
            url,
            old_revision,
            new_revision,
            max_count,
        } => {
            assert_eq!("git@remote:repo.git", url);
            assert_eq!(OLD, old_revision);
            assert_eq!(NEW, new_revision);
            assert_eq!(2, max_count);
        }
        other => panic!("unexpected: {:?}", other),
    }
    let output = "1ba800e readme: reorganize\n26244f0 readme: add section about bot\nc67d352 changelog\n\n";
    let list = source
        .rev_list(2, Answer::Text(output.to_string()))
        .unwrap();
    assert_eq!(2, list.revs().len());
    assert_eq!("26244f0", list.revs()[1].revision.as_str());

    let source = github_source(false);
    match source.rev_list_query(&summary, 50) {
        Query::GitHubHistory {
            owner,
            repo,
            max_count,
            ..
        } => {
            assert_eq!("nixos", owner);
            assert_eq!("nixpkgs", repo);
            assert_eq!(50, max_count);
        }
        other => panic!("unexpected: {:?}", other),
    }
    let commits = vec![
        Commit::from_str(NEW, "newest"),
        Commit::from_str(OLD, "older"),
    ];
    let list = source.rev_list(1, Answer::Commits(commits)).unwrap();
    assert_eq!(1, list.revs().len());
    assert_eq!("newest", list.revs()[0].message);
    assert!(source
        .rev_list(1, Answer::Text("abc def".to_string()))
        .is_err());
}

#[test]
fn registry_keeps_its_sources_in_the_order_of_their_names() {
    let mut sources = Sources::new();
    assert!(sources.is_empty());
    assert!(sources.check());
    sources.add("nixpkgs", github_source(false));
    sources.add("lon", git_source(false));
    sources.add("zlib", git_source(true));
    sources.add("abc", github_source(true));
    assert!(sources.check());
    assert_eq!(4, sources.len());
    assert_eq!(
        vec!["abc", "lon", "nixpkgs", "zlib"],
        sources.names().into_iter().cloned().collect::<Vec<String>>()
    );
    assert_eq!("lon", sources.name_at(1));
    assert!(sources.source_at(3).frozen());
    assert!(sources.contains("lon"));
    assert!(!sources.contains("lo"));
    assert!(sources.get("nope").is_none());
    assert!(matches!(sources.get("lon"), Some(Source::Git(_))));

    sources.get_mut("lon").unwrap().freeze();
    assert!(sources.get("lon").unwrap().frozen());
    assert!(sources.get_mut("nope").is_none());

    sources.replace("zlib", github_source(false));
    assert!(matches!(sources.get("zlib"), Some(Source::GitHub(_))));
    sources.replace("nope", github_source(false));
    assert_eq!(4, sources.len());

    sources.remove("lon");
    sources.remove("nope");
    assert!(!sources.contains("lon"));
    assert_eq!(
        vec!["abc", "nixpkgs", "zlib"],
        sources.names().into_iter().cloned().collect::<Vec<String>>()
    );
    let copy = sources.clone();
    assert_eq!(3, copy.len());
}

fn recorded_lock() -> lock::v1::Lock {
    lock::v1::Lock {
        sources: vec![
            (
                "nixpkgs".to_string(),
                lock::v1::Source::GitHub(lock::v1::GitHubSource {
                    fetch_type: FetchType::Tarball,
                    frozen: true,
                    owner: "nixos".to_string(),
                    repo: "nixpkgs".to_string(),
                    branch: "master".to_string(),
                    revision: NEW.to_string(),
                    url: format!("https://github.com/nixos/nixpkgs/archive/{NEW}.tar.gz"),
                    hash: SriHash::new(HASH_NEW),
                }),
            ),
            (
                "repo".to_string(),
                lock::v1::Source::Git(lock::v1::GitSource {
                    fetch_type: FetchType::Git,
                    frozen: false,
                    branch: "main".to_string(),
                    revision: "b6b12ee9cb64f547f129d7d64c104b8d2938dc0f".to_string(),
                    url: "git@remote:repo.git".to_string(),
                    hash: SriHash::new(HASH_OLD),
                    last_modified: Some(1745335431),
                    submodules: false,
                }),
            ),
        ],
    }
}

/// Parsing to internal representation and converting it back produces the same representation.
#[test]
fn parse_and_convert() {
    let lock = recorded_lock();
    let sources = Sources::from_v1(lock);
    let latest_lock = sources.into_latest_lock();

    assert_eq!("1", latest_lock.version());
    assert_eq!(
        format!("{:?}", lock::Lock::V1(recorded_lock())),
        format!("{:?}", latest_lock)
    );
}

#[test]
fn lock_is_loaded_in_the_order_of_names_and_the_later_record_stays() {
    let mut lock = recorded_lock();
    lock.sources.reverse();
    let (name, _) = recorded_lock().sources.remove(0);
    lock.sources.push((
        name,
        lock::v1::Source::Git(lock::v1::GitSource {
            fetch_type: FetchType::Tarball,
            frozen: false,
            branch: "main".to_string(),
            revision: OLD.to_string(),
            url: "https://example.com/nixpkgs.git".to_string(),
            hash: SriHash::new(HASH_OLD),
            last_modified: None,
            submodules: true,
        }),
    ));
    let sources = Sources::from_lock(lock::Lock::V1(lock));
    assert!(sources.check());
    assert_eq!(
        vec!["nixpkgs", "repo"],
        sources.names().into_iter().cloned().collect::<Vec<String>>()
    );
    let nixpkgs = as_git(sources.get("nixpkgs").unwrap());
    assert_eq!("https://example.com/nixpkgs.git", nixpkgs.url());
    assert!(nixpkgs.submodules());
    assert_eq!(None, nixpkgs.last_modified());
    // what is written names the fetcher of the kind of source
    match Source::Git(nixpkgs.clone()).into_record() {
        lock::v1::Source::Git(record) => assert_eq!(FetchType::Git, record.fetch_type),
        other => panic!("unexpected: {:?}", other),
    }
    assert_eq!("lon.lock", lock::Lock::filename());
    let record = lock::v1::Source::GitHub(lock::v1::GitHubSource {
        fetch_type: FetchType::Tarball,
        frozen: false,
        owner: "o".to_string(),
        repo: "r".to_string(),
        branch: "b".to_string(),
        revision: "rev".to_string(),
        url: "https://mirror.example/r.tar.gz".to_string(),
        hash: SriHash::new(HASH_OLD),
    });
    // a recorded address is kept as it stands
    assert_eq!(
        "https://mirror.example/r.tar.gz",
        as_github(&Source::from_record(record)).url()
    );
}
