use lon::commit_message::CommitMessage;
use lon::git::{Commit, RevList, Revision};
use lon::sources::UpdateSummary;

fn summary_1() -> UpdateSummary {
    UpdateSummary::new(
        Revision::new("043344a1c19619435e2b79cd42de6592308af0aa"),
        Revision::new("21386f9d14831b594048e1e4340ac7a300e312d6"),
    )
}

fn summary_2() -> UpdateSummary {
    UpdateSummary::new(
        Revision::new("ad3bc97747c651e23fbc12c70a5849d3d8e9fdf4"),
        Revision::new("75962bcd89dcccc9fe125c9ab46377d6cd1ddb00"),
    )
}

/// Summary with a rev list from git commandline
fn summary_rev_list_1() -> UpdateSummary {
    let mut summary = UpdateSummary::new(
        Revision::new("043344a1c19619435e2b79cd42de6592308af0aa"),
        Revision::new("21386f9d14831b594048e1e4340ac7a300e312d6"),
    );
    let rev_list_git_output = "1ba800e readme: reorganize\n\
                               26244f0 readme: add section about bot\n\
                               c67d352 changelog: add entry about bot\n\
                               5de6d54 bot: init\n";
    let rev_list = RevList::from_git_output(rev_list_git_output);
    summary.add_rev_list(rev_list);
    summary
}

/// Summary with a rev list from GitHub
fn summary_rev_list_2() -> UpdateSummary {
    let mut summary = UpdateSummary::new(
        Revision::new("6c1da4c913f0edf2835c3cc47c3889c36c05e6ca"),
        Revision::new("629f1e13eb7d09738538ba1b3c2ce35d9c1bef3e"),
    );
    // Long message to test that it only shows the summary line
    let msg = "emacs: remove native-comp-compiler-options-28.patch\n\
               \n\
               Since we do not deal with older Emacsen.\n\
               \n\
               P.S.: We can't delete native-comp-compiler-options.patch yet, because Emacs\n\
               Macport is stuck in Emacs 29.\n";
    let rev_list = RevList::from_commits(vec![
        Commit::from_str("1ba800e", msg),
        Commit::from_str("26244f0", "readme: add section about bot"),
        Commit::from_str("6232894", ".gitignore: ignore .env"),
    ]);
    summary.add_rev_list(rev_list);
    summary
}

#[test]
fn commit_message_single_update() {
    let mut commit_message = CommitMessage::new();
    commit_message.add_summary("fake_1", summary_1());

    let expected = "lon: update fake_1\n\
                    \n\
                    \x20 043344a1c19619435e2b79cd42de6592308af0aa\n\
                    → 21386f9d14831b594048e1e4340ac7a300e312d6\n";
    assert_eq!(expected, commit_message.to_string());
}

#[test]
fn commit_message_multiple_updates() {
    let mut commit_message = CommitMessage::new();
    commit_message.add_summary("fake_1", summary_1());
    commit_message.add_summary("fake_2", summary_2());

    let expected = "lon: update\n\
                    \n\
                    • fake_1:\n\
                    \x20   043344a1c19619435e2b79cd42de6592308af0aa\n\
                    \x20 → 21386f9d14831b594048e1e4340ac7a300e312d6\n\
                    \n\
                    • fake_2:\n\
                    \x20   ad3bc97747c651e23fbc12c70a5849d3d8e9fdf4\n\
                    \x20 → 75962bcd89dcccc9fe125c9ab46377d6cd1ddb00\n";
    assert_eq!(expected, commit_message.to_string());
}

#[test]
fn commit_message_rev_list_single_update() {
    let mut commit_message = CommitMessage::new();
    commit_message.add_summary("fake_1", summary_rev_list_1());

    let expected = "lon: update fake_1\n\
                    \n\
                    \x20 043344a1c19619435e2b79cd42de6592308af0aa\n\
                    → 21386f9d14831b594048e1e4340ac7a300e312d6\n\
                    \n\
                    Last 4 commits:\n\
                    \x20 1ba800e readme: reorganize\n\
                    \x20 26244f0 readme: add section about bot\n\
                    \x20 c67d352 changelog: add entry about bot\n\
                    \x20 5de6d54 bot: init\n";
    assert_eq!(expected, commit_message.to_string());
}

#[test]
fn commit_message_rev_list_multiple_updates() {
    let mut commit_message = CommitMessage::new();
    commit_message.add_summary("fake_1", summary_rev_list_1());
    commit_message.add_summary("fake_2", summary_rev_list_2());

    let expected = "lon: update\n\
                    \n\
                    • fake_1:\n\
                    \x20   043344a1c19619435e2b79cd42de6592308af0aa\n\
                    \x20 → 21386f9d14831b594048e1e4340ac7a300e312d6\n\
                    \n\
                    \x20 Last 4 commits:\n\
                    \x20   1ba800e readme: reorganize\n\
                    \x20   26244f0 readme: add section about bot\n\
                    \x20   c67d352 changelog: add entry about bot\n\
                    \x20   5de6d54 bot: init\n\
                    \n\
                    • fake_2:\n\
                    \x20   6c1da4c913f0edf2835c3cc47c3889c36c05e6ca\n\
                    \x20 → 629f1e13eb7d09738538ba1b3c2ce35d9c1bef3e\n\
                    \n\
                    \x20 Last 3 commits:\n\
                    \x20   1ba800e emacs: remove native-comp-compiler-options-28.patch\n\
                    \x20   26244f0 readme: add section about bot\n\
                    \x20   6232894 .gitignore: ignore .env\n";
    assert_eq!(expected, commit_message.to_string());
}

#[test]
fn body_leaves_out_the_title() {
    let mut commit_message = CommitMessage::new();
    commit_message.add_summary("fake_1", summary_1());
    assert_eq!(
        "\n  043344a1c19619435e2b79cd42de6592308af0aa\n→ 21386f9d14831b594048e1e4340ac7a300e312d6\n",
        commit_message.body()
    );
    assert_eq!("lon: update fake_1", commit_message.title());
}

#[test]
fn empty_message_has_bare_title_and_no_body() {
    let commit_message = CommitMessage::new();
    assert!(commit_message.is_empty());
    assert_eq!(0, commit_message.len());
    assert_eq!("lon: update\n", commit_message.to_string());
    assert_eq!("", commit_message.body());
}

#[test]
fn overview_counts_ten_and_more_commits_in_decimal() {
    let mut commits = Vec::new();
    for _ in 0..12 {
        commits.push(Commit::from_str("0123456789", "subject\nbody"));
    }
    let mut summary = summary_1();
    summary.add_rev_list(RevList::from_commits(commits));
    let overview = CommitMessage::rev_list_overview(&summary, 1).unwrap();
    let mut expected = String::from(" Last 12 commits:");
    for _ in 0..12 {
        expected.push_str("\n   0123456 subject");
    }
    assert_eq!(expected, overview);
    assert_eq!(None, CommitMessage::rev_list_overview(&summary_1(), 0));
}

#[test]
fn short_revisions_are_needed_to_render() {
    let mut summary = summary_1();
    summary.add_rev_list(RevList::from_commits(vec![Commit::from_str("abc", "too short")]));
    let mut commit_message = CommitMessage::new();
    commit_message.add_summary("fake_1", summary);
    assert!(!commit_message.is_renderable());

    let mut commit_message = CommitMessage::new();
    commit_message.add_summary("fake_1", summary_rev_list_1());
    assert!(commit_message.is_renderable());
}
