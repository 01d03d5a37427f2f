//! The text of the commit that records one or more updates.

use crate::git::{can_shorten, commits_view, short_of, CommitView, RevList};
use crate::sources::{UpdateSummary, UpdateSummaryView};
use crate::text::{decimal, decimal_of, first_line_of};
use vstd::prelude::*;

verus! {

/// `n` spaces.
pub open spec fn spaces_of(n: nat) -> Seq<char> {
    Seq::new(n, |i: int| ' ')
}

/// The head line of an overview of `count` commits.
pub open spec fn overview_head_of(indent: nat, count: nat) -> Seq<char> {
    spaces_of(indent) + "Last "@ + decimal_of(count) + " commits:"@
}

/// The line of an overview for one commit, with the line break before it: the
/// short revision and the first line of the message.
pub open spec fn overview_line_of(indent: nat, c: CommitView) -> Seq<char> {
    "\n"@ + spaces_of(indent) + "  "@ + short_of(c.revision) + " "@ + first_line_of(c.message)
}

/// The lines of an overview for these commits.
pub open spec fn overview_lines_of(indent: nat, revs: Seq<CommitView>) -> Seq<char>
    decreases revs.len(),
{
    if revs.len() == 0 {
        Seq::empty()
    } else {
        overview_lines_of(indent, revs.drop_last()) + overview_line_of(indent, revs.last())
    }
}

/// The overview of a list of commits: a head line with their number, then one
/// line for each, all behind `indent` spaces. It ends without a line break.
pub open spec fn overview_of(indent: nat, revs: Seq<CommitView>) -> Seq<char> {
    overview_head_of(indent, revs.len()) + overview_lines_of(indent, revs)
}

/// The overview of the summary's commits as a paragraph of its own, or nothing
/// where the summary has no list.
pub open spec fn history_of(indent: nat, u: UpdateSummaryView) -> Seq<char> {
    match u.rev_list {
        Some(revs) => "\n"@ + overview_of(indent, revs) + "\n"@,
        None => Seq::empty(),
    }
}

/// The body for a single update.
pub open spec fn single_body_of(u: UpdateSummaryView) -> Seq<char> {
    "\n"@ + "  "@ + u.old_revision + "\n"@ + "→ "@ + u.new_revision + "\n"@ + history_of(0, u)
}

/// The paragraph for one of several updates.
pub open spec fn entry_of(name: Seq<char>, u: UpdateSummaryView) -> Seq<char> {
    "\n"@ + "• "@ + name + ":\n"@ + "    "@ + u.old_revision + "\n"@ + "  → "@ + u.new_revision
        + "\n"@ + history_of(2, u)
}

/// The paragraphs for these updates, in their order.
pub open spec fn entries_of(updates: Seq<(Seq<char>, UpdateSummaryView)>) -> Seq<char>
    decreases updates.len(),
{
    if updates.len() == 0 {
        Seq::empty()
    } else {
        entries_of(updates.drop_last()) + entry_of(updates.last().0, updates.last().1)
    }
}

/// The body of the message for these updates.
pub open spec fn body_of(updates: Seq<(Seq<char>, UpdateSummaryView)>) -> Seq<char> {
    if updates.len() == 1 {
        single_body_of(updates[0].1)
    } else {
        entries_of(updates)
    }
}

/// The title of the message for these updates: it names the source where there
/// is exactly one.
pub open spec fn title_of(updates: Seq<(Seq<char>, UpdateSummaryView)>) -> Seq<char> {
    if updates.len() == 1 {
        "lon: update "@ + updates[0].0
    } else {
        "lon: update"@
    }
}

/// The whole message: the title on a line of its own, then the body.
pub open spec fn message_of(updates: Seq<(Seq<char>, UpdateSummaryView)>) -> Seq<char> {
    title_of(updates) + "\n"@ + body_of(updates)
}

/// Whether every commit that the updates list has a revision with a short form.
pub open spec fn renderable(updates: Seq<(Seq<char>, UpdateSummaryView)>) -> bool {
    forall|i: int|
        0 <= i < updates.len() ==> summary_renderable(#[trigger] updates[i].1)
}

/// Whether every commit that the summary lists has a revision with a short form.
pub open spec fn summary_renderable(u: UpdateSummaryView) -> bool {
    match u.rev_list {
        Some(revs) => RevList::all_short(revs),
        None => true,
    }
}

/// The views of a sequence of named summaries.
pub open spec fn updates_view(v: Seq<(String, UpdateSummary)>) -> Seq<(Seq<char>, UpdateSummaryView)> {
    v.map_values(|p: (String, UpdateSummary)| (p.0@, p.1@))
}

/// The message of a commit that records updates, in the order in which they
/// were added.
pub struct CommitMessage {
    updates: Vec<(String, UpdateSummary)>,
}

impl View for CommitMessage {
    type V = Seq<(Seq<char>, UpdateSummaryView)>;

    closed spec fn view(&self) -> Self::V {
        updates_view(self.updates@)
    }
}

impl CommitMessage {
    /// The message for no update yet.
    pub fn new() -> (out: Self)
        ensures
            out@ == Seq::<(Seq<char>, UpdateSummaryView)>::empty(),
    {
        let out = CommitMessage { updates: Vec::new() };
        assert(out@ =~= Seq::<(Seq<char>, UpdateSummaryView)>::empty());
        out
    }

    /// Adds the update of the source `name` after those that are there.
    pub fn add_summary(&mut self, name: &str, summary: UpdateSummary)
        ensures
            final(self)@ == old(self)@.push((name@, summary@)),
    {
        self.updates.push((name.to_owned(), summary));
        assert(self@ =~= old(self)@.push((name@, summary@)));
    }

    /// Whether no update was added.
    pub fn is_empty(&self) -> (b: bool)
        ensures
            b == (self@.len() == 0),
    {
        self.updates.len() == 0
    }

    /// The number of updates.
    pub fn len(&self) -> (n: usize)
        ensures
            n == self@.len(),
    {
        self.updates.len()
    }

    /// The overview of the summary's commits behind `indent` spaces, where it has
    /// a list of them.
    pub fn rev_list_overview(summary: &UpdateSummary, indent: usize) -> (out: Option<String>)
        requires
            summary_renderable(summary@),
        ensures
            match (out, summary@.rev_list) {
                (Some(text), Some(revs)) => text@ == overview_of(indent as nat, revs),
                (None, None) => true,
                _ => false,
            },
    {
        match &summary.rev_list {
            None => None,
            Some(list) => {
                let prefix = spaces(indent);
                let revs = list.revs();
                let mut out = prefix.clone();
                out.append("Last ");
                out.append(decimal(revs.len() as u64).as_str());
                out.append(" commits:");
                assert(out@ =~= overview_head_of(indent as nat, list@.len()));
                let ghost head = out@;
                let mut i: usize = 0;
                assert(list@.take(0) =~= Seq::<CommitView>::empty());
                while i < revs.len()
                    invariant
                        i <= revs@.len(),
                        commits_view(revs@) == list@,
                        RevList::all_short(list@),
                        prefix@ == spaces_of(indent as nat),
                        out@ == head + overview_lines_of(indent as nat, list@.take(i as int)),
                    decreases revs@.len() - i,
                {
                    let commit = &revs[i];
                    assert(commit@ == list@[i as int]);
                    assert(can_shorten(list@[i as int].revision));
                    let ghost before = out@;
                    out.append("\n");
                    out.append(prefix.as_str());
                    out.append("  ");
                    out.append(commit.revision.short());
                    out.append(" ");
                    out.append(commit.message_summary());
                    assert(out@ =~= before + overview_line_of(indent as nat, commit@));
                    assert(list@.take(i + 1).drop_last() =~= list@.take(i as int));
                    assert(list@.take(i + 1).last() == commit@);
                    i = i + 1;
                    assert(out@ =~= head + overview_lines_of(indent as nat, list@.take(i as int)));
                }
                assert(list@.take(i as int) =~= list@);
                Some(out)
            },
        }
    }

    /// The body of the message: for a single update its two revisions, for
    /// several a paragraph for each, and after an update's revisions the
    /// overview of its commits where it has a list of them.
    pub fn body(&self) -> (out: String)
        requires
            renderable(self@),
        ensures
            out@ == body_of(self@),
    {
        let mut out = String::new();
        if self.updates.len() == 1 {
            let summary = &self.updates[0].1;
            assert(summary@ == self@[0].1);
            out.append("\n");
            out.append("  ");
            out.append(summary.old_revision.as_str());
            out.append("\n");
            out.append("→ ");
            out.append(summary.new_revision.as_str());
            out.append("\n");
            append_history(&mut out, summary, 0);
            assert(out@ =~= single_body_of(summary@));
        } else {
            let mut i: usize = 0;
            assert(self@.take(0) =~= Seq::<(Seq<char>, UpdateSummaryView)>::empty());
            while i < self.updates.len()
                invariant
                    i <= self.updates@.len(),
                    renderable(self@),
                    out@ == entries_of(self@.take(i as int)),
                decreases self.updates@.len() - i,
            {
                let name = &self.updates[i].0;
                let summary = &self.updates[i].1;
                assert((name@, summary@) == self@[i as int]);
                assert(summary_renderable(self@[i as int].1));
                let ghost before = out@;
                out.append("\n");
                out.append("• ");
                out.append(name.as_str());
                out.append(":\n");
                out.append("    ");
                out.append(summary.old_revision.as_str());
                out.append("\n");
                out.append("  → ");
                out.append(summary.new_revision.as_str());
                out.append("\n");
                append_history(&mut out, summary, 2);
                assert(out@ =~= before + entry_of(name@, summary@));
                assert(self@.take(i + 1).drop_last() =~= self@.take(i as int));
                assert(self@.take(i + 1).last() == (name@, summary@));
                i = i + 1;
            }
            assert(self@.take(i as int) =~= self@);
        }
        out
    }

    /// The title of the message, without a line break.
    pub fn title(&self) -> (out: String)
        ensures
            out@ == title_of(self@),
    {
        if self.updates.len() == 1 {
            let mut out = "lon: update ".to_owned();
            out.append(self.updates[0].0.as_str());
            assert(self@[0].0 == self.updates@[0].0@);
            out
        } else {
            "lon: update".to_owned()
        }
    }

    /// The whole message: the title, a line break, and the body.
    pub fn to_string(&self) -> (out: String)
        requires
            renderable(self@),
        ensures
            out@ == message_of(self@),
    {
        let mut out = self.title();
        out.append("\n");
        out.append(self.body().as_str());
        out
    }

    /// Whether the message can be written: whether every commit that it lists
    /// has a revision with a short form.
    pub fn is_renderable(&self) -> (b: bool)
        ensures
            b == renderable(self@),
    {
        let mut i: usize = 0;
        while i < self.updates.len()
            invariant
                i <= self.updates@.len(),
                forall|j: int| 0 <= j < i ==> summary_renderable(#[trigger] self@[j].1),
            decreases self.updates@.len() - i,
        {
            let ok = match &self.updates[i].1.rev_list {
                Some(list) => list.has_short_revisions(),
                None => true,
            };
            assert(self@[i as int].1 == self.updates@[i as int].1@);
            if !ok {
                assert(!summary_renderable(self@[i as int].1));
                return false;
            }
            i = i + 1;
        }
        true
    }
}

/// `n` spaces.
fn spaces(n: usize) -> (out: String)
    ensures
        out@ == spaces_of(n as nat),
{
    let mut out = String::new();
    let mut i: usize = 0;
    assert(out@ =~= spaces_of(0));
    while i < n
        invariant
            i <= n,
            out@ == spaces_of(i as nat),
        decreases n - i,
    {
        crate::text::push_char(&mut out, ' ');
        i = i + 1;
        assert(out@ =~= spaces_of(i as nat));
    }
    out
}

/// Appends the overview of the summary's commits as a paragraph of its own.
fn append_history(out: &mut String, summary: &UpdateSummary, indent: usize)
    requires
        summary_renderable(summary@),
    ensures
        final(out)@ == old(out)@ + history_of(indent as nat, summary@),
{
    match CommitMessage::rev_list_overview(summary, indent) {
        Some(overview) => {
            out.append("\n");
            out.append(overview.as_str());
            out.append("\n");
            assert(out@ =~= old(out)@ + history_of(indent as nat, summary@));
        },
        None => {
            assert(out@ =~= old(out)@ + history_of(indent as nat, summary@));
        },
    }
}

} // verus!
