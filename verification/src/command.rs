//! The git commands that answer the library's questions: their arguments, and
//! how their failures read. Running them is left to the caller.

use crate::error::{Error, ErrorView};
use crate::git::{branch_reference, branch_reference_of, User};
use crate::sources::{Query, QueryView};
use crate::text::{
    decimal, decimal_of, joined_of, lines, lines_of, signed_decimal, signed_decimal_of, strs_view,
};
use vstd::prelude::*;

verus! {

/// The mathematical value of a [`GitCommand`].
pub ghost struct CommandView {
    pub args: Seq<Seq<char>>,
    pub failure: Seq<char>,
}

/// One call of git: the arguments after those that say where the repository
/// is, and the first line of the error for the case that git fails.
#[derive(Debug)]
pub struct GitCommand {
    pub args: Vec<String>,
    pub failure: String,
}

impl View for GitCommand {
    type V = CommandView;

    open spec fn view(&self) -> CommandView {
        CommandView { args: strs_view(self.args@), failure: self.failure@ }
    }
}

/// The views of a sequence of commands.
pub open spec fn commands_view(v: Seq<GitCommand>) -> Seq<CommandView> {
    v.map_values(|c: GitCommand| c@)
}

/// `git init`.
pub open spec fn init_of() -> CommandView {
    CommandView { args: seq!["init"@], failure: "Failed to initialize a fresh git repository"@ }
}

/// `git remote add origin <url>`.
pub open spec fn remote_add_of(url: Seq<char>) -> CommandView {
    CommandView {
        args: seq!["remote"@, "add"@, "origin"@, url],
        failure: "Failed to add the remote "@ + url,
    }
}

/// `git fetch` of one revision, without its history.
pub open spec fn fetch_one_of(revision: Seq<char>) -> CommandView {
    CommandView {
        args: seq!["fetch"@, "--depth=1"@, "--no-show-forced-updates"@, "origin"@, revision],
        failure: "Failed to fetch the revision "@ + revision,
    }
}

/// `git log` of the time at which a revision was committed.
pub open spec fn log_time_of(revision: Seq<char>) -> CommandView {
    CommandView {
        args: seq!["log"@, "-1"@, "--format=%ct"@, "--no-show-signature"@, revision],
        failure: "Failed to log the revision "@ + revision,
    }
}

/// `git fetch` of the new revision with at most `max_count` commits of its
/// history, given that the old revision is there.
pub open spec fn fetch_range_of(
    old_revision: Seq<char>,
    new_revision: Seq<char>,
    max_count: usize,
) -> CommandView {
    CommandView {
        args: seq![
            "fetch"@,
            "--no-show-forced-updates"@,
            "--negotiation-tip"@,
            old_revision,
            "origin"@,
            new_revision,
            "--depth="@ + decimal_of(max_count as nat),
        ],
        failure: "Failed to fetch the revision "@ + new_revision,
    }
}

/// The range of the commits after the old revision up to the new one.
pub open spec fn range_of(old_revision: Seq<char>, new_revision: Seq<char>) -> Seq<char> {
    old_revision + ".."@ + new_revision
}

/// `git rev-list` of at most `max_count` commits after the old revision up to
/// the new one, a line for each.
pub open spec fn list_range_of(
    old_revision: Seq<char>,
    new_revision: Seq<char>,
    max_count: usize,
) -> CommandView {
    CommandView {
        args: seq![
            "rev-list"@,
            "--oneline"@,
            "--max-count"@,
            decimal_of(max_count as nat),
            range_of(old_revision, new_revision),
        ],
        failure: "Failed to list the history for "@ + range_of(old_revision, new_revision),
    }
}

/// `git ls-remote --refs` for one reference of a repository.
pub open spec fn ls_remote_of(url: Seq<char>, reference: Seq<char>) -> CommandView {
    CommandView {
        args: seq!["ls-remote"@, "--refs"@, url, reference],
        failure: "Failed to reach "@ + url,
    }
}

/// The commands that tell when a revision was committed, to be run one after
/// the other in a fresh repository; the last one prints the time.
pub open spec fn last_modified_script_of(url: Seq<char>, revision: Seq<char>) -> Seq<CommandView> {
    seq![init_of(), remote_add_of(url), fetch_one_of(revision), log_time_of(revision)]
}

/// The commands that list the commits between two revisions, to be run one
/// after the other in a fresh repository; the last one prints the list.
pub open spec fn rev_list_script_of(
    url: Seq<char>,
    old_revision: Seq<char>,
    new_revision: Seq<char>,
    max_count: usize,
) -> Seq<CommandView> {
    seq![
        init_of(),
        remote_add_of(url),
        fetch_one_of(old_revision),
        fetch_range_of(old_revision, new_revision, max_count),
        list_range_of(old_revision, new_revision, max_count),
    ]
}

/// The git commands that answer a question, where git answers it: the newest
/// revision of a branch, the time of a revision, and the history of a git
/// source. The last command prints the answer.
pub open spec fn script_of(query: QueryView) -> Option<Seq<CommandView>> {
    match query {
        QueryView::NewestRevision { url, branch } => Some(
            seq![ls_remote_of(url, branch_reference_of(branch))],
        ),
        QueryView::LastModified { url, revision } => Some(last_modified_script_of(url, revision)),
        QueryView::GitHistory { url, old_revision, new_revision, max_count } => Some(
            rev_list_script_of(url, old_revision, new_revision, max_count),
        ),
        _ => None,
    }
}

/// The error for a command that failed: the command's own line, then what git
/// wrote.
pub open spec fn command_failure_of(command: CommandView, stderr: Seq<char>) -> ErrorView {
    ErrorView::Transport { message: command.failure + "\n"@ + stderr }
}

fn text(s: &str) -> (out: String)
    ensures
        out@ == s@,
{
    s.to_owned()
}

fn join2(a: &str, b: &str) -> (out: String)
    ensures
        out@ == a@ + b@,
{
    let mut out = a.to_owned();
    out.append(b);
    out
}

fn init() -> (out: GitCommand)
    ensures
        out@ == init_of(),
{
    let args = vec![text("init")];
    assert(strs_view(args@) =~= seq!["init"@]);
    GitCommand { args, failure: text("Failed to initialize a fresh git repository") }
}

fn remote_add(url: &str) -> (out: GitCommand)
    ensures
        out@ == remote_add_of(url@),
{
    let args = vec![text("remote"), text("add"), text("origin"), text(url)];
    assert(strs_view(args@) =~= seq!["remote"@, "add"@, "origin"@, url@]);
    GitCommand { args, failure: join2("Failed to add the remote ", url) }
}

fn fetch_one(revision: &str) -> (out: GitCommand)
    ensures
        out@ == fetch_one_of(revision@),
{
    let args = vec![
        text("fetch"),
        text("--depth=1"),
        text("--no-show-forced-updates"),
        text("origin"),
        text(revision),
    ];
    assert(strs_view(args@) =~= seq![
        "fetch"@,
        "--depth=1"@,
        "--no-show-forced-updates"@,
        "origin"@,
        revision@,
    ]);
    GitCommand { args, failure: join2("Failed to fetch the revision ", revision) }
}

fn log_time(revision: &str) -> (out: GitCommand)
    ensures
        out@ == log_time_of(revision@),
{
    let args = vec![
        text("log"),
        text("-1"),
        text("--format=%ct"),
        text("--no-show-signature"),
        text(revision),
    ];
    assert(strs_view(args@) =~= seq![
        "log"@,
        "-1"@,
        "--format=%ct"@,
        "--no-show-signature"@,
        revision@,
    ]);
    GitCommand { args, failure: join2("Failed to log the revision ", revision) }
}

fn fetch_range(old_revision: &str, new_revision: &str, max_count: usize) -> (out: GitCommand)
    ensures
        out@ == fetch_range_of(old_revision@, new_revision@, max_count),
{
    let depth = join2("--depth=", decimal(max_count as u64).as_str());
    let args = vec![
        text("fetch"),
        text("--no-show-forced-updates"),
        text("--negotiation-tip"),
        text(old_revision),
        text("origin"),
        text(new_revision),
        depth,
    ];
    assert(strs_view(args@) =~= seq![
        "fetch"@,
        "--no-show-forced-updates"@,
        "--negotiation-tip"@,
        old_revision@,
        "origin"@,
        new_revision@,
        "--depth="@ + decimal_of(max_count as nat),
    ]);
    GitCommand { args, failure: join2("Failed to fetch the revision ", new_revision) }
}

fn list_range(old_revision: &str, new_revision: &str, max_count: usize) -> (out: GitCommand)
    ensures
        out@ == list_range_of(old_revision@, new_revision@, max_count),
{
    let mut range = text(old_revision);
    range.append("..");
    range.append(new_revision);
    let failure = join2("Failed to list the history for ", range.as_str());
    let args = vec![
        text("rev-list"),
        text("--oneline"),
        text("--max-count"),
        decimal(max_count as u64),
        range,
    ];
    assert(strs_view(args@) =~= seq![
        "rev-list"@,
        "--oneline"@,
        "--max-count"@,
        decimal_of(max_count as nat),
        range_of(old_revision@, new_revision@),
    ]);
    GitCommand { args, failure }
}

/// `git ls-remote --refs` for one reference of a repository.
pub fn ls_remote(url: &str, reference: &str) -> (out: GitCommand)
    ensures
        out@ == ls_remote_of(url@, reference@),
{
    let args = vec![text("ls-remote"), text("--refs"), text(url), text(reference)];
    assert(strs_view(args@) =~= seq!["ls-remote"@, "--refs"@, url@, reference@]);
    GitCommand { args, failure: join2("Failed to reach ", url) }
}

/// The commands that tell when a revision of the repository at `url` was
/// committed.
pub fn get_last_modified(url: &str, rev: &str) -> (out: Vec<GitCommand>)
    ensures
        commands_view(out@) == last_modified_script_of(url@, rev@),
{
    let out = vec![init(), remote_add(url), fetch_one(rev), log_time(rev)];
    assert(commands_view(out@) =~= last_modified_script_of(url@, rev@));
    out
}

/// The commands that list at most `num_commits` commits of the repository at
/// `url` after `old_revision` up to `new_revision`, the most recent first.
pub fn rev_list(url: &str, old_revision: &str, new_revision: &str, num_commits: usize) -> (out: Vec<
    GitCommand,
>)
    ensures
        commands_view(out@) == rev_list_script_of(
            url@,
            old_revision@,
            new_revision@,
            num_commits,
        ),
{
    let out = vec![
        init(),
        remote_add(url),
        fetch_one(old_revision),
        fetch_range(old_revision, new_revision, num_commits),
        list_range(old_revision, new_revision, num_commits),
    ];
    assert(commands_view(out@) =~= rev_list_script_of(
        url@,
        old_revision@,
        new_revision@,
        num_commits,
    ));
    out
}

/// The git commands that answer a question, where git answers it.
pub fn script(query: &Query) -> (out: Option<Vec<GitCommand>>)
    ensures
        match (out, script_of(query@)) {
            (Some(got), Some(want)) => commands_view(got@) == want,
            (None, None) => true,
            _ => false,
        },
{
    match query {
        Query::NewestRevision { url, branch } => {
            let reference = branch_reference(branch.as_str());
            let out = vec![ls_remote(url.as_str(), reference.as_str())];
            assert(commands_view(out@) =~= seq![ls_remote_of(url@, branch_reference_of(branch@))]);
            Some(out)
        },
        Query::LastModified { url, revision } => Some(
            get_last_modified(url.as_str(), revision.as_str()),
        ),
        Query::GitHistory { url, old_revision, new_revision, max_count } => Some(
            rev_list(url.as_str(), old_revision.as_str(), new_revision.as_str(), *max_count),
        ),
        _ => None,
    }
}

/// The error for a command that failed, with what git wrote.
pub fn command_failure(command: &GitCommand, stderr: &str) -> (out: Error)
    ensures
        out@ == command_failure_of(command@, stderr@),
{
    let mut message = command.failure.clone();
    message.append("\n");
    message.append(stderr);
    Error::Transport { message }
}

/// The lines that are not empty, in their order.
pub open spec fn nonempty_of(ls: Seq<Seq<char>>) -> Seq<Seq<char>>
    decreases ls.len(),
{
    if ls.len() == 0 {
        Seq::empty()
    } else if ls.last().len() == 0 {
        nonempty_of(ls.drop_last())
    } else {
        nonempty_of(ls.drop_last()).push(ls.last())
    }
}

/// How the exit code of a command reads: its number, or `None` where the
/// command ended without one.
pub open spec fn exit_code_of(code: Option<i32>) -> Seq<char> {
    match code {
        Some(c) => signed_decimal_of(c as int),
        None => "None"@,
    }
}

/// The error for a failed `git ls-remote`: the exit code, and on the next line
/// what git wrote, its lines that are not empty put on one line.
pub open spec fn ls_remote_failure_of(code: Option<i32>, stderr: Seq<char>) -> ErrorView {
    ErrorView::Transport {
        message: "git ls-remote failed with exit code "@ + exit_code_of(code) + ":\n"@ + joined_of(
            nonempty_of(lines_of(stderr)),
            " "@,
        ),
    }
}

/// The lines of `s` that are not empty, put on one line with a space between
/// each two.
pub fn join_nonempty_lines(s: &str) -> (out: String)
    ensures
        out@ == joined_of(nonempty_of(lines_of(s@)), " "@),
{
    let ls = lines(s);
    let mut out = String::new();
    let mut any = false;
    let mut i: usize = 0;
    assert(strs_view(ls@).take(0) =~= Seq::<Seq<char>>::empty());
    while i < ls.len()
        invariant
            i <= ls@.len(),
            strs_view(ls@) == lines_of(s@),
            any == (nonempty_of(strs_view(ls@).take(i as int)).len() > 0),
            out@ == joined_of(nonempty_of(strs_view(ls@).take(i as int)), " "@),
        decreases ls@.len() - i,
    {
        let ghost before = nonempty_of(strs_view(ls@).take(i as int));
        let ghost upto = strs_view(ls@).take(i + 1);
        assert(upto.drop_last() =~= strs_view(ls@).take(i as int));
        assert(upto.last() == ls@[i as int]@);
        let line = ls[i].as_str();
        if !line.is_empty() {
            assert(nonempty_of(upto) == before.push(line@));
            assert(before.push(line@).drop_last() =~= before);
            if any {
                out.append(" ");
            }
            out.append(line);
            assert(out@ =~= joined_of(before.push(line@), " "@));
            any = true;
        }
        i = i + 1;
    }
    assert(strs_view(ls@).take(i as int) =~= strs_view(ls@));
    out
}

/// The error for a failed `git ls-remote`.
pub fn ls_remote_failure(code: Option<i32>, stderr: &str) -> (out: Error)
    ensures
        out@ == ls_remote_failure_of(code, stderr@),
{
    let mut message = text("git ls-remote failed with exit code ");
    match code {
        Some(c) => {
            message.append(signed_decimal(c as i64).as_str());
        },
        None => {
            message.append("None");
        },
    }
    message.append(":\n");
    message.append(join_nonempty_lines(stderr).as_str());
    Error::Transport { message }
}

/// `git add` of these paths.
pub open spec fn add_of(paths: Seq<Seq<char>>) -> CommandView {
    CommandView { args: seq!["add"@] + paths, failure: "Failed to add files to git staging"@ }
}

/// `git add` of these paths.
pub fn add(paths: &Vec<String>) -> (out: GitCommand)
    ensures
        out@ == add_of(strs_view(paths@)),
{
    let mut args = vec![text("add")];
    assert(strs_view(args@) =~= seq!["add"@]);
    let mut i: usize = 0;
    while i < paths.len()
        invariant
            i <= paths@.len(),
            strs_view(args@) == seq!["add"@] + strs_view(paths@).take(i as int),
        decreases paths@.len() - i,
    {
        let ghost before = strs_view(args@);
        let path = paths[i].clone();
        args.push(path);
        assert(strs_view(args@) =~= before.push(path@));
        i = i + 1;
        assert(seq!["add"@] + strs_view(paths@).take(i as int) =~= before.push(path@));
    }
    assert(strs_view(paths@).take(i as int) =~= strs_view(paths@));
    GitCommand { args, failure: text("Failed to add files to git staging") }
}

/// `git commit` with this message, signed by the user where one is given.
pub open spec fn commit_of(message: Seq<char>, user: Option<(Seq<char>, Seq<char>)>) -> CommandView {
    CommandView {
        args: match user {
            Some(u) => seq![
                "-c"@,
                "user.name="@ + u.0,
                "-c"@,
                "user.email="@ + u.1,
                "commit"@,
                "--message"@,
                message,
            ],
            None => seq!["commit"@, "--message"@, message],
        },
        failure: "Failed to commit files"@,
    }
}

/// The name and the address of a user that may be missing.
pub open spec fn user_view(user: Option<&User>) -> Option<(Seq<char>, Seq<char>)> {
    match user {
        Some(u) => Some((u.name_view(), u.email_view())),
        None => None,
    }
}

/// `git commit` with this message, signed by the user where one is given.
pub fn commit(message: &str, user: Option<&User>) -> (out: GitCommand)
    ensures
        out@ == commit_of(message@, user_view(user)),
{
    let args = match user {
        Some(u) => {
            let args = vec![
                text("-c"),
                join2("user.name=", u.name()),
                text("-c"),
                join2("user.email=", u.email()),
                text("commit"),
                text("--message"),
                text(message),
            ];
            assert(strs_view(args@) =~= seq![
                "-c"@,
                "user.name="@ + u.name_view(),
                "-c"@,
                "user.email="@ + u.email_view(),
                "commit"@,
                "--message"@,
                message@,
            ]);
            args
        },
        None => {
            let args = vec![text("commit"), text("--message"), text(message)];
            assert(strs_view(args@) =~= seq!["commit"@, "--message"@, message@]);
            args
        },
    };
    GitCommand { args, failure: text("Failed to commit files") }
}

/// `git checkout` of a reference; with `create_or_reset`, as a branch that
/// is made, or reset, to start where the working tree stands.
pub open spec fn checkout_of(reference: Seq<char>, create_or_reset: bool) -> CommandView {
    CommandView {
        args: if create_or_reset {
            seq!["checkout"@, "-B"@, reference]
        } else {
            seq!["checkout"@, reference]
        },
        failure: "Failed to checkout ref "@ + reference + " "@,
    }
}

/// `git checkout` of a reference.
pub fn checkout(reference: &str, create_or_reset: bool) -> (out: GitCommand)
    ensures
        out@ == checkout_of(reference@, create_or_reset),
{
    let args = if create_or_reset {
        let args = vec![text("checkout"), text("-B"), text(reference)];
        assert(strs_view(args@) =~= seq!["checkout"@, "-B"@, reference@]);
        args
    } else {
        let args = vec![text("checkout"), text(reference)];
        assert(strs_view(args@) =~= seq!["checkout"@, reference@]);
        args
    };
    let mut failure = join2("Failed to checkout ref ", reference);
    failure.append(" ");
    GitCommand { args, failure }
}

/// `git push --force` of a branch, to `url` or else to the remote `origin`.
pub open spec fn force_push_of(url: Option<Seq<char>>, branch: Seq<char>) -> CommandView {
    CommandView {
        args: seq![
            "push"@,
            "--force"@,
            match url {
                Some(u) => u,
                None => "origin"@,
            },
            branch,
        ],
        failure: "Failed to force push current branch "@,
    }
}

/// `git push --force` of a branch, to `url` or else to the remote `origin`.
pub fn force_push(url: Option<&str>, branch: &str) -> (out: GitCommand)
    ensures
        out@ == force_push_of(crate::bot::text_view(url), branch@),
{
    let repository = match url {
        Some(u) => text(u),
        None => text("origin"),
    };
    let args = vec![text("push"), text("--force"), repository, text(branch)];
    assert(strs_view(args@) =~= force_push_of(crate::bot::text_view(url), branch@).args);
    GitCommand { args, failure: text("Failed to force push current branch ") }
}

/// The two commands that tell what is checked out: the first prints the
/// branch, and fails on a detached head; the second prints the commit.
pub open spec fn current_rev_script_of() -> Seq<CommandView> {
    seq![
        CommandView {
            args: seq!["symbolic-ref"@, "--short"@, "HEAD"@],
            failure: "Failed to find current branch "@,
        },
        CommandView { args: seq!["rev-parse"@, "HEAD"@], failure: "Failed to find current commit "@ },
    ]
}

/// The commands that tell what is checked out, to be tried one after the
/// other: what the first one that succeeds prints, without the white space at
/// its end, is the reference; where both fail, the failure is the second one's.
pub fn current_rev() -> (out: Vec<GitCommand>)
    ensures
        commands_view(out@) == current_rev_script_of(),
{
    let first = vec![text("symbolic-ref"), text("--short"), text("HEAD")];
    assert(strs_view(first@) =~= seq!["symbolic-ref"@, "--short"@, "HEAD"@]);
    let second = vec![text("rev-parse"), text("HEAD")];
    assert(strs_view(second@) =~= seq!["rev-parse"@, "HEAD"@]);
    let out = vec![
        GitCommand { args: first, failure: text("Failed to find current branch ") },
        GitCommand { args: second, failure: text("Failed to find current commit ") },
    ];
    assert(commands_view(out@) =~= current_rev_script_of());
    out
}

} // verus!
