use lon::error::Error;
use lon::git::{
    branch_reference, find_newest_revision, find_newest_revision_for_ref, parse_ls_remote, Commit,
    RemoteInfo, RevList, Revision, User,
};

#[test]
fn rev_list_from_git_output() {
    let git_output = "8ac85cd treewide: release 0.3.0\n\
                      6f6df87 Cargo.toml: upgrade dependencies\n\
                      c215157 changelog: add a mention for the forgejo bot\n";

    let rev_list = RevList::from_git_output(git_output);

    let revs = rev_list.revs();
    assert_eq!(3, revs.len());
    assert_eq!("8ac85cd", revs[0].revision.as_str());
    assert_eq!("treewide: release 0.3.0", revs[0].message);
    assert_eq!("6f6df87", revs[1].revision.as_str());
    assert_eq!("Cargo.toml: upgrade dependencies", revs[1].message);
    assert_eq!("c215157", revs[2].revision.as_str());
    assert_eq!(
        "changelog: add a mention for the forgejo bot",
        revs[2].message
    );
}

#[test]
fn rev_list_passes_over_lines_without_a_space() {
    let rev_list = RevList::from_git_output("deadbeef\n\nabc def ghi\r\nlast one");
    let revs = rev_list.revs();
    assert_eq!(2, revs.len());
    assert_eq!("abc", revs[0].revision.as_str());
    assert_eq!("def ghi", revs[0].message);
    assert_eq!("last", revs[1].revision.as_str());
    assert_eq!("one", revs[1].message);
}

#[test]
fn both_ways_to_build_a_rev_list_agree() {
    let parsed = RevList::from_git_output("1ba800e readme: reorganize\n5de6d54 bot: init\n");
    let built = RevList::from_commits(vec![
        Commit::from_str("1ba800e", "readme: reorganize"),
        Commit::from_str("5de6d54", "bot: init"),
    ]);
    assert_eq!(parsed.revs().len(), built.revs().len());
    for (a, b) in parsed.revs().iter().zip(built.revs()) {
        assert_eq!(a.revision.as_str(), b.revision.as_str());
        assert_eq!(a.message, b.message);
    }
}

#[test]
fn rev_list_is_bounded() {
    let commits = vec![
        Commit::from_str("1111111", "one"),
        Commit::from_str("2222222", "two"),
        Commit::from_str("3333333", "three"),
    ];
    let list = RevList::from_commits_bounded(commits.clone(), 2);
    assert_eq!(2, list.revs().len());
    assert_eq!("2222222", list.revs()[1].revision.as_str());
    assert_eq!(3, RevList::from_commits_bounded(commits.clone(), 3).revs().len());
    assert_eq!(3, RevList::from_commits_bounded(commits.clone(), 50).revs().len());
    assert_eq!(0, RevList::from_commits_bounded(commits, 0).revs().len());
}

#[test]
fn message_summary_is_the_first_line() {
    assert_eq!("one", Commit::from_str("r", "one\ntwo").message_summary());
    assert_eq!("one", Commit::from_str("r", "one\r\ntwo").message_summary());
    assert_eq!("one\r", Commit::from_str("r", "one\r").message_summary());
    assert_eq!("", Commit::from_str("r", "").message_summary());
    assert_eq!("", Commit::from_str("r", "\nbody").message_summary());
    assert_eq!("héllo", Commit::from_str("r", "héllo\nwörld").message_summary());
}

#[test]
fn revision_short_is_seven_bytes() {
    let revision = Revision::new("043344a1c19619435e2b79cd42de6592308af0aa");
    assert!(revision.has_short());
    assert_eq!("043344a", revision.short());
    assert_eq!("043344a1c19619435e2b79cd42de6592308af0aa", revision.as_str());
    assert_eq!("043344a1c19619435e2b79cd42de6592308af0aa", revision.to_string());
    assert!(Revision::new("1234567").has_short());
    assert_eq!("1234567", Revision::new("1234567").short());
    assert!(!Revision::new("123456").has_short());
    // seven bytes end in the middle of the two-byte letter
    assert!(!Revision::new("123456é").has_short());
    assert!(Revision::new("12345é7").has_short());
    assert_eq!("12345é", Revision::new("12345é7").short());
}

#[test]
fn revisions_compare_by_their_text() {
    assert!(Revision::new("abc") == Revision::new("abc"));
    assert!(Revision::new("abc") != Revision::new("abd"));
    assert!(Revision::new("abc").clone() == Revision::new("abc"));
}

#[test]
fn user_keeps_name_and_email() {
    let user = User::new("LonBot", "lonbot@lonbot");
    assert_eq!("LonBot", user.name());
    assert_eq!("lonbot@lonbot", user.email());
}

#[test]
fn ls_remote_output_is_read_line_by_line() {
    let refs = parse_ls_remote(
        "b6b12ee9cb64f547f129d7d64c104b8d2938dc0f\trefs/heads/main\n\n21386f9\trefs/heads/dev\n",
    )
    .unwrap();
    assert_eq!(2, refs.len());
    assert_eq!("b6b12ee9cb64f547f129d7d64c104b8d2938dc0f", refs[0].revision);
    assert_eq!("refs/heads/main", refs[0].reference);
    assert_eq!("21386f9", refs[1].revision);
    assert_eq!("refs/heads/dev", refs[1].reference);
    assert_eq!(0, parse_ls_remote("").unwrap().len());
}

#[test]
fn ls_remote_line_needs_exactly_one_tab() {
    match parse_ls_remote("abc refs/heads/main\n") {
        Err(Error::Decode { message }) => {
            assert_eq!("git ls-remote output line contains no '\\t'", message)
        }
        other => panic!("unexpected: {:?}", other),
    }
    match parse_ls_remote("abc\trefs/heads/main\nabc\tdef\tghi\nnotab\n") {
        Err(Error::Decode { message }) => {
            assert_eq!(
                "git ls-remote output line contains more than one '\\t'",
                message
            )
        }
        other => panic!("unexpected: {:?}", other),
    }
}

#[test]
fn newest_revision_is_the_only_match() {
    let revision = find_newest_revision(
        "https://example.com/repo.git",
        "main",
        "b6b12ee9cb64f547f129d7d64c104b8d2938dc0f\trefs/heads/main\n",
    )
    .unwrap();
    assert_eq!("b6b12ee9cb64f547f129d7d64c104b8d2938dc0f", revision.as_str());
    assert_eq!("refs/heads/main", branch_reference("main"));
}

#[test]
fn missing_branch_is_an_error() {
    match find_newest_revision("https://example.com/repo.git", "main", "") {
        Err(Error::MissingRef { url, reference }) => {
            assert_eq!("https://example.com/repo.git", url);
            assert_eq!("refs/heads/main", reference);
        }
        other => panic!("unexpected: {:?}", other),
    }
}

#[test]
fn ambiguous_branch_is_an_error() {
    let refs = vec![
        RemoteInfo {
            revision: "1111111111111111111111111111111111111111".to_string(),
            reference: "refs/heads/main".to_string(),
        },
        RemoteInfo {
            revision: "2222222222222222222222222222222222222222".to_string(),
            reference: "refs/heads/main".to_string(),
        },
    ];
    let error = find_newest_revision_for_ref("https://example.com/repo.git", "refs/heads/main", refs)
        .unwrap_err();
    assert_eq!(
        "The reference refs/heads/main of https://example.com/repo.git is ambiguous and points to multiple revisions",
        error.message()
    );
    match error {
        Error::AmbiguousRef { url, reference } => {
            assert_eq!("https://example.com/repo.git", url);
            assert_eq!("refs/heads/main", reference);
        }
        other => panic!("unexpected: {:?}", other),
    }
}
