//! Revisions, commits and commit lists, and what is read from git's output.

use crate::error::{Error, ErrorView};
use crate::text::{
    chars_of, contains_char, find_char, find_from, first_line_of, lemma_find_from, lines,
    lines_from, lines_of, split_once, split_once_of, strip_cr, strs_view,
};
use vstd::prelude::*;
use vstd::std_specs::cmp::PartialEqSpecImpl;
use vstd::utf8::{decode_utf8, encode_utf8, is_char_boundary};

verus! {

/// The number of bytes of a revision that its short form keeps.
pub const SHORT_LEN: usize = 7;

/// Whether a revision has a short form: its text can be cut after seven bytes.
pub open spec fn can_shorten(revision: Seq<char>) -> bool {
    is_char_boundary(encode_utf8(revision), 7)
}

/// The short form of a revision: the text that its first seven bytes hold.
pub open spec fn short_of(revision: Seq<char>) -> Seq<char> {
    decode_utf8(encode_utf8(revision).subrange(0, 7))
}

/// A git revision: the name of a commit, compared letter by letter.
#[derive(Debug)]
pub struct Revision(String);

impl View for Revision {
    type V = Seq<char>;

    closed spec fn view(&self) -> Seq<char> {
        self.0@
    }
}

impl Clone for Revision {
    fn clone(&self) -> (out: Self)
        ensures
            out@ == self@,
    {
        Revision(self.0.clone())
    }
}

impl PartialEq for Revision {
    fn eq(&self, other: &Self) -> (r: bool) {
        self.0 == other.0
    }
}

impl PartialEqSpecImpl for Revision {
    open spec fn obeys_eq_spec() -> bool {
        true
    }

    open spec fn eq_spec(&self, other: &Self) -> bool {
        self@ == other@
    }
}

impl Revision {
    /// The revision that `s` names.
    pub fn new(s: &str) -> (out: Self)
        ensures
            out@ == s@,
    {
        Revision(s.to_owned())
    }

    /// The revision's text.
    pub fn as_str(&self) -> (out: &str)
        ensures
            out@ == self@,
    {
        self.0.as_str()
    }

    /// The revision's text, owned.
    pub fn to_string(&self) -> (out: String)
        ensures
            out@ == self@,
    {
        self.0.clone()
    }

    /// Whether the revision has a short form.
    pub fn has_short(&self) -> (b: bool)
        ensures
            b == can_shorten(self@),
    {
        self.0.as_str().is_char_boundary(SHORT_LEN)
    }

    /// The short form: the first seven bytes of the revision.
    pub fn short(&self) -> (out: &str)
        requires
            can_shorten(self@),
        ensures
            out@ == short_of(self@),
    {
        broadcast use vstd::utf8::encode_utf8_decode_utf8;

        let (head, _tail) = self.0.as_str().split_at(SHORT_LEN);
        head
    }
}

/// The mathematical value of a [`Commit`].
pub ghost struct CommitView {
    pub revision: Seq<char>,
    pub message: Seq<char>,
}

/// A commit: a revision and the message that was written for it.
#[derive(Debug)]
pub struct Commit {
    pub revision: Revision,
    pub message: String,
}

impl View for Commit {
    type V = CommitView;

    open spec fn view(&self) -> CommitView {
        CommitView { revision: self.revision@, message: self.message@ }
    }
}

impl Clone for Commit {
    fn clone(&self) -> (out: Self)
        ensures
            out@ == self@,
    {
        Commit { revision: self.revision.clone(), message: self.message.clone() }
    }
}

impl Commit {
    /// The commit with this revision and this message.
    pub fn from_str(revision: &str, message: &str) -> (out: Self)
        ensures
            out@ == (CommitView { revision: revision@, message: message@ }),
    {
        Commit { revision: Revision::new(revision), message: message.to_owned() }
    }

    /// The first line of the message; empty where the message is empty.
    pub fn message_summary(&self) -> (out: &str)
        ensures
            out@ == first_line_of(self.message@),
    {
        let v = chars_of(self.message.as_str());
        let n: usize = v.len();
        let i: usize = find_char(&v, '\n', 0);
        let end: usize = if i < n && i > 0 && v[i - 1] == '\r' {
            i - 1
        } else {
            i
        };
        proof {
            let s = self.message@;
            if n > 0 {
                if i < n {
                    assert(s.subrange(0, end as int) =~= crate::text::strip_cr(
                        s.subrange(0, i as int),
                    ));
                    assert(lines_of(s)[0] == s.subrange(0, end as int));
                } else {
                    assert(lines_of(s) =~= seq![s.subrange(0, n as int)]);
                }
            } else {
                assert(s.subrange(0, 0) =~= Seq::<char>::empty());
            }
        }
        self.message.as_str().substring_char(0, end)
    }
}

/// The views of a sequence of commits.
pub open spec fn commits_view(v: Seq<Commit>) -> Seq<CommitView> {
    v.map_values(|c: Commit| c@)
}

/// The commit that one line of a log writes: the revision up to the first space,
/// the message after it. A line without a space writes none.
pub open spec fn commit_of_line(line: Seq<char>) -> Option<CommitView> {
    match split_once_of(line, ' ') {
        Some(parts) => Some(CommitView { revision: parts.0, message: parts.1 }),
        None => None,
    }
}

/// The commits that the lines write, in their order; lines that write none are
/// passed over.
pub open spec fn commits_of_lines(ls: Seq<Seq<char>>) -> Seq<CommitView>
    decreases ls.len(),
{
    if ls.len() == 0 {
        Seq::empty()
    } else {
        match commit_of_line(ls.last()) {
            Some(c) => commits_of_lines(ls.drop_last()).push(c),
            None => commits_of_lines(ls.drop_last()),
        }
    }
}

/// The commits that a log of one line per commit writes.
pub open spec fn rev_list_of_output(s: Seq<char>) -> Seq<CommitView> {
    commits_of_lines(lines_of(s))
}

/// Whether a commit can be written on one line of a log and read back: its
/// revision holds no space and no line break, and its message is a single line.
pub open spec fn fits_one_line(c: CommitView) -> bool {
    &&& !c.revision.contains(' ')
    &&& !c.revision.contains('\n')
    &&& !c.message.contains('\n')
    &&& c.message.len() > 0 ==> c.message.last() != '\r'
}

/// The line of a log that writes a commit: the revision, a space, the message.
pub open spec fn line_of_commit(c: CommitView) -> Seq<char> {
    c.revision.push(' ') + c.message
}

/// The log that writes these commits, a line for each.
pub open spec fn log_of(commits: Seq<CommitView>) -> Seq<char>
    decreases commits.len(),
{
    if commits.len() == 0 {
        Seq::empty()
    } else {
        line_of_commit(commits.first()).push('\n') + log_of(commits.drop_first())
    }
}

proof fn lemma_find_from_shift(p: Seq<char>, s: Seq<char>, c: char, k: int)
    requires
        0 <= k <= s.len(),
    ensures
        find_from(p + s, c, p.len() + k) == p.len() + find_from(s, c, k),
    decreases s.len() - k,
{
    if k < s.len() {
        assert((p + s)[p.len() + k] == s[k]);
        if s[k] != c {
            lemma_find_from_shift(p, s, c, k + 1);
        }
    }
}

proof fn lemma_lines_from_shift(p: Seq<char>, s: Seq<char>, k: int)
    requires
        0 <= k <= s.len(),
    ensures
        lines_from(p + s, p.len() + k) == lines_from(s, k),
    decreases s.len() - k,
{
    if k < s.len() {
        lemma_find_from_shift(p, s, '\n', k);
        lemma_find_from(s, '\n', k);
        let i = find_from(s, '\n', k);
        assert((p + s).subrange(p.len() + k, p.len() + i) =~= s.subrange(k, i));
        if i < s.len() {
            lemma_lines_from_shift(p, s, i + 1);
        }
    }
}

proof fn lemma_first_line(line: Seq<char>, rest: Seq<char>)
    requires
        !line.contains('\n'),
    ensures
        lines_of(line.push('\n') + rest) == seq![strip_cr(line)] + lines_of(rest),
{
    let head = line.push('\n');
    let text = head + rest;
    lemma_find_from(text, '\n', 0);
    let f = find_from(text, '\n', 0);
    assert(text[line.len() as int] == '\n');
    if f < line.len() {
        assert(text[f] == line[f]);
        assert(line.contains('\n'));
    }
    assert(f == line.len());
    assert(text.subrange(0, f) =~= line);
    lemma_lines_from_shift(head, rest, 0);
}

proof fn lemma_commits_of_lines_front(l: Seq<char>, rest: Seq<Seq<char>>)
    ensures
        commits_of_lines(seq![l] + rest) == match commit_of_line(l) {
            Some(c) => seq![c] + commits_of_lines(rest),
            None => commits_of_lines(rest),
        },
    decreases rest.len(),
{
    let all = seq![l] + rest;
    if rest.len() == 0 {
        assert(all.drop_last() =~= Seq::<Seq<char>>::empty());
        assert(all.last() == l);
        assert(commits_of_lines(all.drop_last()) =~= Seq::<CommitView>::empty());
        match commit_of_line(l) {
            Some(c) => {
                assert(Seq::<CommitView>::empty().push(c) =~= seq![c] + commits_of_lines(rest));
            },
            None => {},
        }
    } else {
        assert(all.drop_last() =~= seq![l] + rest.drop_last());
        assert(all.last() == rest.last());
        lemma_commits_of_lines_front(l, rest.drop_last());
        match (commit_of_line(l), commit_of_line(rest.last())) {
            (Some(c), Some(d)) => {
                assert((seq![c] + commits_of_lines(rest.drop_last())).push(d) =~= seq![c]
                    + commits_of_lines(rest.drop_last()).push(d));
            },
            _ => {},
        }
    }
}

proof fn lemma_line_reads_back(c: CommitView)
    requires
        fits_one_line(c),
    ensures
        !line_of_commit(c).contains('\n'),
        strip_cr(line_of_commit(c)) == line_of_commit(c),
        commit_of_line(line_of_commit(c)) == Some(c),
{
    let line = line_of_commit(c);
    let n = c.revision.len() as int;
    assert forall|j: int| 0 <= j < line.len() implies line[j] != '\n' by {
        if j < n {
            assert(line[j] == c.revision[j]);
            assert(c.revision.contains(line[j]));
        } else if j > n {
            assert(line[j] == c.message[j - n - 1]);
            assert(c.message.contains(line[j]));
        }
    }
    if line.contains('\n') {
        let j = choose|j: int| 0 <= j < line.len() && line[j] == '\n';
        assert(line[j] != '\n');
    }
    if c.message.len() > 0 {
        assert(line.last() == c.message.last());
    } else {
        assert(line.last() == ' ');
    }
    lemma_find_from(line, ' ', 0);
    let f = find_from(line, ' ', 0);
    assert(line[n] == ' ');
    if f < n {
        assert(line[f] == c.revision[f]);
        assert(c.revision.contains(' '));
    }
    assert(f == n);
    assert(line.subrange(0, f) =~= c.revision);
    assert(line.subrange(f + 1, line.len() as int) =~= c.message);
}

/// The two ways to a list of commits agree: what is read from the log that
/// writes the commits, a line for each, is the list that is built from the
/// commits themselves. This holds of the commits that a line can hold.
pub proof fn lemma_rev_list_reads_back(commits: Seq<CommitView>)
    requires
        forall|i: int| 0 <= i < commits.len() ==> fits_one_line(#[trigger] commits[i]),
    ensures
        rev_list_of_output(log_of(commits)) == commits,
    decreases commits.len(),
{
    if commits.len() == 0 {
        assert(lines_of(log_of(commits)) =~= Seq::<Seq<char>>::empty());
        assert(rev_list_of_output(log_of(commits)) =~= commits);
    } else {
        let c = commits.first();
        let tail = commits.drop_first();
        assert(fits_one_line(commits[0]));
        assert forall|i: int| 0 <= i < tail.len() implies fits_one_line(#[trigger] tail[i]) by {
            assert(tail[i] == commits[i + 1]);
        }
        lemma_rev_list_reads_back(tail);
        lemma_line_reads_back(c);
        lemma_first_line(line_of_commit(c), log_of(tail));
        lemma_commits_of_lines_front(line_of_commit(c), lines_of(log_of(tail)));
        assert(seq![c] + tail =~= commits);
    }
}

/// A list of commits, the most recent first.
#[derive(Debug)]
pub struct RevList {
    revs: Vec<Commit>,
}

impl View for RevList {
    type V = Seq<CommitView>;

    closed spec fn view(&self) -> Seq<CommitView> {
        commits_view(self.revs@)
    }
}

impl Clone for RevList {
    fn clone(&self) -> (out: Self)
        ensures
            out@ == self@,
    {
        let mut revs: Vec<Commit> = Vec::new();
        let mut i: usize = 0;
        while i < self.revs.len()
            invariant
                i <= self.revs@.len(),
                commits_view(revs@) == commits_view(self.revs@).take(i as int),
            decreases self.revs@.len() - i,
        {
            let c = self.revs[i].clone();
            let ghost before = commits_view(revs@);
            revs.push(c);
            assert(commits_view(revs@) =~= before.push(c@));
            i = i + 1;
            assert(commits_view(self.revs@).take(i as int) =~= before.push(c@));
        }
        assert(commits_view(self.revs@).take(i as int) =~= commits_view(self.revs@));
        RevList { revs }
    }
}

impl RevList {
    /// The list of these commits, in their order.
    pub fn from_commits(commits: Vec<Commit>) -> (out: Self)
        ensures
            out@ == commits_view(commits@),
    {
        RevList { revs: commits }
    }

    /// The list of the first `max_count` of these commits, or of all where there
    /// are fewer.
    pub fn from_commits_bounded(commits: Vec<Commit>, max_count: usize) -> (out: Self)
        ensures
            out@ == commits_view(commits@).take(
                if max_count <= commits@.len() {
                    max_count as int
                } else {
                    commits@.len() as int
                },
            ),
    {
        let mut revs = commits;
        if max_count < revs.len() {
            revs.truncate(max_count);
            assert(commits_view(revs@) =~= commits_view(commits@).take(max_count as int));
        } else {
            assert(commits_view(revs@) =~= commits_view(commits@).take(commits@.len() as int));
        }
        RevList { revs }
    }

    /// The list of the first `max_count` commits of this list, or of all where
    /// there are fewer.
    pub fn bounded(self, max_count: usize) -> (out: Self)
        ensures
            out@ == self@.take(
                if max_count <= self@.len() {
                    max_count as int
                } else {
                    self@.len() as int
                },
            ),
    {
        Self::from_commits_bounded(self.revs, max_count)
    }

    /// The list that the output of `git rev-list --oneline` writes: each line
    /// holds a revision, a space and a message.
    pub fn from_git_output(s: &str) -> (out: Self)
        ensures
            out@ == rev_list_of_output(s@),
    {
        let ls = lines(s);
        let mut revs: Vec<Commit> = Vec::new();
        let mut i: usize = 0;
        assert(strs_view(ls@).take(0) =~= Seq::<Seq<char>>::empty());
        assert(commits_view(revs@) =~= Seq::<CommitView>::empty());
        while i < ls.len()
            invariant
                i <= ls@.len(),
                strs_view(ls@) == lines_of(s@),
                commits_view(revs@) == commits_of_lines(strs_view(ls@).take(i as int)),
            decreases ls@.len() - i,
        {
            let ghost before = commits_view(revs@);
            let ghost upto = strs_view(ls@).take(i + 1);
            assert(upto.drop_last() =~= strs_view(ls@).take(i as int));
            assert(upto.last() == ls@[i as int]@);
            match split_once(ls[i].as_str(), ' ') {
                Some(parts) => {
                    let commit = Commit { revision: Revision(parts.0), message: parts.1 };
                    revs.push(commit);
                    assert(commits_view(revs@) =~= before.push(commit@));
                },
                None => {},
            }
            i = i + 1;
        }
        assert(strs_view(ls@).take(i as int) =~= strs_view(ls@));
        RevList { revs }
    }

    /// The commits of the list.
    pub fn revs(&self) -> (out: &[Commit])
        ensures
            commits_view(out@) == self@,
    {
        self.revs.as_slice()
    }

    /// Whether every revision of the list has a short form.
    pub open spec fn all_short(list: Seq<CommitView>) -> bool {
        forall|i: int| 0 <= i < list.len() ==> can_shorten(#[trigger] list[i].revision)
    }

    /// Whether every revision of the list has a short form.
    pub fn has_short_revisions(&self) -> (b: bool)
        ensures
            b == Self::all_short(self@),
    {
        let mut i: usize = 0;
        while i < self.revs.len()
            invariant
                i <= self.revs@.len(),
                forall|j: int| 0 <= j < i ==> can_shorten(#[trigger] self@[j].revision),
            decreases self.revs@.len() - i,
        {
            if !self.revs[i].revision.has_short() {
                assert(!can_shorten(self@[i as int].revision));
                return false;
            }
            i = i + 1;
        }
        true
    }
}

/// Who signs a commit.
#[derive(Debug)]
pub struct User {
    name: String,
    email: String,
}

impl User {
    /// The user with this name and this address.
    pub fn new(name: &str, email: &str) -> (out: Self)
        ensures
            out.name_view() == name@,
            out.email_view() == email@,
    {
        User { name: name.to_owned(), email: email.to_owned() }
    }

    /// The user's name, as a mathematical value.
    pub closed spec fn name_view(&self) -> Seq<char> {
        self.name@
    }

    /// The user's address, as a mathematical value.
    pub closed spec fn email_view(&self) -> Seq<char> {
        self.email@
    }

    /// The user's name.
    pub fn name(&self) -> (out: &str)
        ensures
            out@ == self.name_view(),
    {
        self.name.as_str()
    }

    /// The user's address.
    pub fn email(&self) -> (out: &str)
        ensures
            out@ == self.email_view(),
    {
        self.email.as_str()
    }
}

/// One line of the output of `git ls-remote`: a reference and the revision that
/// it points to.
#[derive(Debug)]
pub struct RemoteInfo {
    pub revision: String,
    pub reference: String,
}

/// The mathematical value of a [`RemoteInfo`].
pub ghost struct RemoteInfoView {
    pub revision: Seq<char>,
    pub reference: Seq<char>,
}

impl View for RemoteInfo {
    type V = RemoteInfoView;

    open spec fn view(&self) -> RemoteInfoView {
        RemoteInfoView { revision: self.revision@, reference: self.reference@ }
    }
}

/// The views of a sequence of references.
pub open spec fn remotes_view(v: Seq<RemoteInfo>) -> Seq<RemoteInfoView> {
    v.map_values(|r: RemoteInfo| r@)
}

/// The message for a line of `git ls-remote` that holds no tab.
pub open spec fn no_tab_message() -> Seq<char> {
    "git ls-remote output line contains no '\\t'"@
}

/// The message for a line of `git ls-remote` that holds more than one tab.
pub open spec fn many_tabs_message() -> Seq<char> {
    "git ls-remote output line contains more than one '\\t'"@
}

/// What one line of `git ls-remote` writes: the revision before the one tab and
/// the reference after it.
pub open spec fn remote_of_line(line: Seq<char>) -> Result<RemoteInfoView, ErrorView> {
    match split_once_of(line, '\t') {
        None => Err(ErrorView::Decode { message: no_tab_message() }),
        Some(parts) => if contains_char(parts.1, '\t') {
            Err(ErrorView::Decode { message: many_tabs_message() })
        } else {
            Ok(RemoteInfoView { revision: parts.0, reference: parts.1 })
        },
    }
}

/// What the lines of `git ls-remote` write. Empty lines are passed over; the first
/// line that is malformed decides the error.
pub open spec fn remotes_of_lines(ls: Seq<Seq<char>>) -> Result<Seq<RemoteInfoView>, ErrorView>
    decreases ls.len(),
{
    if ls.len() == 0 {
        Ok(Seq::empty())
    } else {
        match remotes_of_lines(ls.drop_last()) {
            Err(e) => Err(e),
            Ok(found) => if ls.last().len() == 0 {
                Ok(found)
            } else {
                match remote_of_line(ls.last()) {
                    Err(e) => Err(e),
                    Ok(r) => Ok(found.push(r)),
                }
            },
        }
    }
}

/// What the output of `git ls-remote` writes.
pub open spec fn remotes_of_output(s: Seq<char>) -> Result<Seq<RemoteInfoView>, ErrorView> {
    remotes_of_lines(lines_of(s))
}

/// An error among the first lines is the error of all the lines.
pub proof fn lemma_remotes_error_stays(ls: Seq<Seq<char>>, k: int)
    requires
        0 <= k <= ls.len(),
        remotes_of_lines(ls.take(k)) is Err,
    ensures
        remotes_of_lines(ls) == remotes_of_lines(ls.take(k)),
    decreases ls.len() - k,
{
    if k == ls.len() {
        assert(ls.take(k) =~= ls);
    } else {
        assert(ls.take(k + 1).drop_last() =~= ls.take(k));
        lemma_remotes_error_stays(ls, k + 1);
    }
}

/// Reads one line of `git ls-remote`.
pub fn parse_remote_line(line: &str) -> (out: Result<RemoteInfo, Error>)
    ensures
        match (out, remote_of_line(line@)) {
            (Ok(got), Ok(want)) => got@ == want,
            (Err(got), Err(want)) => got@ == want,
            _ => false,
        },
{
    match split_once(line, '\t') {
        None => Err(
            Error::Decode { message: "git ls-remote output line contains no '\\t'".to_owned() },
        ),
        Some(parts) => {
            let rest = chars_of(parts.1.as_str());
            let i: usize = find_char(&rest, '\t', 0);
            if i < rest.len() {
                Err(
                    Error::Decode {
                        message: "git ls-remote output line contains more than one '\\t'".to_owned(),
                    },
                )
            } else {
                Ok(RemoteInfo { revision: parts.0, reference: parts.1 })
            }
        },
    }
}

/// Reads the output of `git ls-remote`.
pub fn parse_ls_remote(output: &str) -> (out: Result<Vec<RemoteInfo>, Error>)
    ensures
        match (out, remotes_of_output(output@)) {
            (Ok(got), Ok(want)) => remotes_view(got@) == want,
            (Err(got), Err(want)) => got@ == want,
            _ => false,
        },
{
    let ls = lines(output);
    let mut found: Vec<RemoteInfo> = Vec::new();
    let mut i: usize = 0;
    assert(strs_view(ls@).take(0) =~= Seq::<Seq<char>>::empty());
    assert(remotes_view(found@) =~= Seq::<RemoteInfoView>::empty());
    while i < ls.len()
        invariant
            i <= ls@.len(),
            strs_view(ls@) == lines_of(output@),
            remotes_of_lines(strs_view(ls@).take(i as int)) == Ok::<
                Seq<RemoteInfoView>,
                ErrorView,
            >(remotes_view(found@)),
        decreases ls@.len() - i,
    {
        let ghost before = remotes_view(found@);
        let ghost upto = strs_view(ls@).take(i + 1);
        assert(upto.drop_last() =~= strs_view(ls@).take(i as int));
        assert(upto.last() == ls@[i as int]@);
        if !ls[i].as_str().is_empty() {
            match parse_remote_line(ls[i].as_str()) {
                Err(e) => {
                    proof {
                        lemma_remotes_error_stays(strs_view(ls@), i + 1);
                    }
                    return Err(e);
                },
                Ok(r) => {
                    found.push(r);
                    assert(remotes_view(found@) =~= before.push(r@));
                },
            }
        }
        i = i + 1;
    }
    assert(strs_view(ls@).take(i as int) =~= strs_view(ls@));
    Ok(found)
}

/// The full name of a branch's reference.
pub open spec fn branch_reference_of(branch: Seq<char>) -> Seq<char> {
    "refs/heads/"@ + branch
}

/// The full name of a branch's reference.
pub fn branch_reference(branch: &str) -> (out: String)
    ensures
        out@ == branch_reference_of(branch@),
{
    let mut out = "refs/heads/".to_owned();
    out.append(branch);
    out
}

/// The revision that a repository has for a reference, given the references that
/// it reported: there must be exactly one.
pub open spec fn newest_of(url: Seq<char>, reference: Seq<char>, refs: Seq<RemoteInfoView>)
    -> Result<Seq<char>, ErrorView> {
    if refs.len() == 0 {
        Err(ErrorView::MissingRef { url, reference })
    } else if refs.len() > 1 {
        Err(ErrorView::AmbiguousRef { url, reference })
    } else {
        Ok(refs[0].revision)
    }
}

/// The revision that a repository has for a branch, given what `git ls-remote`
/// printed for the branch's reference.
pub open spec fn newest_of_output(url: Seq<char>, branch: Seq<char>, output: Seq<char>) -> Result<
    Seq<char>,
    ErrorView,
> {
    match remotes_of_output(output) {
        Err(e) => Err(e),
        Ok(refs) => newest_of(url, branch_reference_of(branch), refs),
    }
}

/// Finds the newest revision for a reference among the references that the
/// repository reported. None is an error, and so is more than one.
pub fn find_newest_revision_for_ref(url: &str, reference: &str, refs: Vec<RemoteInfo>) -> (out:
    Result<Revision, Error>)
    ensures
        match (out, newest_of(url@, reference@, remotes_view(refs@))) {
            (Ok(got), Ok(want)) => got@ == want,
            (Err(got), Err(want)) => got@ == want,
            _ => false,
        },
{
    let mut refs = refs;
    if refs.len() == 0 {
        return Err(Error::MissingRef { url: url.to_owned(), reference: reference.to_owned() });
    }
    if refs.len() > 1 {
        return Err(Error::AmbiguousRef { url: url.to_owned(), reference: reference.to_owned() });
    }
    let only = refs.remove(0);
    Ok(Revision(only.revision))
}

/// Finds the newest revision for a branch of a repository in what
/// `git ls-remote --refs` printed for the branch's reference.
pub fn find_newest_revision(url: &str, branch: &str, output: &str) -> (out: Result<Revision, Error>)
    ensures
        match (out, newest_of_output(url@, branch@, output@)) {
            (Ok(got), Ok(want)) => got@ == want,
            (Err(got), Err(want)) => got@ == want,
            _ => false,
        },
{
    let reference = branch_reference(branch);
    match parse_ls_remote(output) {
        Err(e) => Err(e),
        Ok(refs) => find_newest_revision_for_ref(url, reference.as_str(), refs),
    }
}

} // verus!
