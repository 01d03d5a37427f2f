//! Updating one source or all of them in one run.

use crate::commit_message::CommitMessage;
use crate::error::{Error, ErrorView};
use crate::sources::{
    begin_update_of, get_of, has_name, lemma_replaced_is_sorted, lemma_replaced_keeps_names,
    names_of, replaced_of, resume_of, sorted_by_name, unexpected, unexpected_answer, Answer,
    AnswerView, Progress, ProgressView, Query, QueryView, SourceView, Sources, Step, StepView,
    UpdateSummaryView,
};
use vstd::prelude::*;

verus! {

/// Where a run stands.
#[derive(Clone, Copy, Debug, PartialEq, Eq, Structural)]
pub enum RunPhase {
    /// Sources are still to be updated.
    Running,
    /// Every selected source was attended to, and at least one was updated.
    Finished,
    /// The run was given up.
    Failed,
}

/// The mathematical value of an [`UpdateRun`].
pub ghost struct RunView {
    /// The registry, with the updates made so far.
    pub sources: Seq<(Seq<char>, SourceView)>,
    /// The names of the selected sources, in the order in which they are updated.
    pub names: Seq<Seq<char>>,
    /// How many of them have been attended to.
    pub next: int,
    /// The question that is open for the source at `next`, if one is.
    pub pending: Option<ProgressView>,
    /// The updates made so far, in their order.
    pub updates: Seq<(Seq<char>, UpdateSummaryView)>,
    pub phase: RunPhase,
}

/// What a run does next.
#[derive(Debug)]
pub enum RunStep {
    /// It asks a question; the answer is handed to the next call.
    Ask(Query),
    /// It is done, and the registry is to be written.
    Finished,
    /// It was given up, and nothing is to be written.
    Failed(Error),
}

/// The mathematical value of a [`RunStep`].
pub ghost enum RunStepView {
    Ask(QueryView),
    Finished,
    Failed(ErrorView),
}

impl View for RunStep {
    type V = RunStepView;

    open spec fn view(&self) -> RunStepView {
        match self {
            RunStep::Ask(q) => RunStepView::Ask(q@),
            RunStep::Finished => RunStepView::Finished,
            RunStep::Failed(e) => RunStepView::Failed(e@),
        }
    }
}

/// The names that a run attends to: the one that is given, or else all names of
/// the registry in their order.
pub open spec fn selected_of(sources: Seq<(Seq<char>, SourceView)>, name: Option<Seq<char>>) -> Seq<
    Seq<char>,
> {
    match name {
        Some(n) => seq![n],
        None => names_of(sources),
    }
}

/// The run at its beginning.
pub open spec fn started_of(sources: Seq<(Seq<char>, SourceView)>, name: Option<Seq<char>>)
    -> RunView {
    RunView {
        sources,
        names: selected_of(sources, name),
        next: 0,
        pending: None,
        updates: Seq::empty(),
        phase: RunPhase::Running,
    }
}

/// Goes through the sources from `run.next` on until one asks a question. A name
/// without a source gives the run up. A source whose update is done at once (a
/// frozen one) is passed over. At the end the run is finished where a source was
/// updated, and given up with nothing to do where none was.
pub open spec fn scan_of(run: RunView) -> (RunView, RunStepView)
    decreases run.names.len() - run.next,
{
    if run.next < 0 || run.next >= run.names.len() {
        if run.updates.len() == 0 {
            (RunView { phase: RunPhase::Failed, ..run }, RunStepView::Failed(ErrorView::NothingToDo))
        } else {
            (RunView { phase: RunPhase::Finished, ..run }, RunStepView::Finished)
        }
    } else {
        let name = run.names[run.next];
        match get_of(run.sources, name) {
            None => (
                RunView { phase: RunPhase::Failed, ..run },
                RunStepView::Failed(ErrorView::NotFound { name }),
            ),
            Some(source) => match begin_update_of(source) {
                StepView::Ask(query, progress) => (
                    RunView { pending: Some(progress), ..run },
                    RunStepView::Ask(query),
                ),
                StepView::Done(_) => scan_of(RunView { next: run.next + 1, ..run }),
                StepView::Failed(e) => (
                    RunView { phase: RunPhase::Failed, ..run },
                    RunStepView::Failed(e),
                ),
            },
        }
    }
}

/// What a call of `advance` does to a run, and what the run does next.
///
/// Without an open question the run goes through its sources. With one, the
/// answer is handed to the source that asked: its next question is passed on;
/// when it is done the run goes on with the next source, after noting the update
/// if there was one; its failure gives the run up. A run that has ended, an
/// answer to no question, and a question left without an answer give the error
/// for an unexpected answer.
pub open spec fn advance_of(run: RunView, answer: Option<AnswerView>) -> (RunView, RunStepView) {
    if run.phase != RunPhase::Running {
        (run, RunStepView::Failed(unexpected_answer()))
    } else {
        match (run.pending, answer) {
            (None, None) => scan_of(run),
            (Some(progress), Some(a)) => {
                let name = run.names[run.next];
                let source = get_of(run.sources, name)->0;
                let (after, step) = resume_of(source, progress, a);
                let sources = replaced_of(run.sources, name, after);
                match step {
                    StepView::Ask(query, next_progress) => (
                        RunView { sources, pending: Some(next_progress), ..run },
                        RunStepView::Ask(query),
                    ),
                    StepView::Done(Some(summary)) => scan_of(
                        RunView {
                            sources,
                            pending: None,
                            next: run.next + 1,
                            updates: run.updates.push((name, summary)),
                            ..run
                        },
                    ),
                    StepView::Done(None) => scan_of(
                        RunView { sources, pending: None, next: run.next + 1, ..run },
                    ),
                    StepView::Failed(e) => (
                        RunView { sources, pending: None, phase: RunPhase::Failed, ..run },
                        RunStepView::Failed(e),
                    ),
                }
            },
            _ => (
                RunView { pending: None, phase: RunPhase::Failed, ..run },
                RunStepView::Failed(unexpected_answer()),
            ),
        }
    }
}

/// A scan ends the run only in one of two ways: finished, with at least one
/// update to write, or given up.
pub proof fn lemma_scan_ends(run: RunView)
    requires
        run.phase == RunPhase::Running,
    ensures
        ({
            let (after, step) = scan_of(run);
            &&& after.sources == run.sources
            &&& after.updates == run.updates
            &&& match step {
                RunStepView::Finished => after.phase == RunPhase::Finished && after.updates.len() > 0,
                RunStepView::Failed(_) => after.phase == RunPhase::Failed,
                RunStepView::Ask(_) => after.phase == RunPhase::Running && after.pending is Some,
            }
        }),
    decreases run.names.len() - run.next,
{
    if 0 <= run.next < run.names.len() {
        match get_of(run.sources, run.names[run.next]) {
            Some(source) => match begin_update_of(source) {
                StepView::Done(_) => {
                    lemma_scan_ends(RunView { next: run.next + 1, ..run });
                },
                _ => {},
            },
            None => {},
        }
    }
}

/// A run is written all or nothing: it finishes only with at least one update,
/// and a failure of any source gives the whole run up. Only a finished run hands
/// out its registry.
pub proof fn lemma_run_is_all_or_nothing(run: RunView, answer: Option<AnswerView>)
    ensures
        ({
            let (after, step) = advance_of(run, answer);
            match step {
                RunStepView::Finished => after.phase == RunPhase::Finished && after.updates.len() > 0,
                RunStepView::Failed(_) => after.phase != RunPhase::Finished || run.phase
                    == RunPhase::Finished,
                RunStepView::Ask(_) => after.phase == RunPhase::Running,
            }
        }),
{
    if run.phase == RunPhase::Running {
        match (run.pending, answer) {
            (None, None) => {
                lemma_scan_ends(run);
            },
            (Some(progress), Some(a)) => {
                let name = run.names[run.next];
                let source = get_of(run.sources, name)->0;
                let (after, step) = resume_of(source, progress, a);
                let sources = replaced_of(run.sources, name, after);
                match step {
                    StepView::Done(Some(summary)) => {
                        lemma_scan_ends(
                            RunView {
                                sources,
                                pending: None,
                                next: run.next + 1,
                                updates: run.updates.push((name, summary)),
                                ..run
                            },
                        );
                    },
                    StepView::Done(None) => {
                        lemma_scan_ends(
                            RunView { sources, pending: None, next: run.next + 1, ..run },
                        );
                    },
                    _ => {},
                }
            },
            _ => {},
        }
    }
}

/// The view of an answer that may be missing.
pub open spec fn answer_view(answer: Option<Answer>) -> Option<AnswerView> {
    match answer {
        Some(a) => Some(a@),
        None => None,
    }
}

/// Whether a run is in order: its registry is, its position is within the
/// selected names, and an open question belongs to a source that is there.
pub open spec fn run_wf(run: RunView) -> bool {
    &&& sorted_by_name(run.sources)
    &&& 0 <= run.next <= run.names.len()
    &&& run.pending is Some ==> run.next < run.names.len() && has_name(
        run.sources,
        run.names[run.next],
    ) && run.phase == RunPhase::Running
}

/// An update of one source or of all, from the first question to the registry
/// that is to be written.
pub struct UpdateRun {
    sources: Sources,
    names: Vec<String>,
    next: usize,
    pending: Option<Progress>,
    message: CommitMessage,
    phase: RunPhase,
}

impl View for UpdateRun {
    type V = RunView;

    closed spec fn view(&self) -> RunView {
        RunView {
            sources: self.sources@,
            names: self.names@.map_values(|s: String| s@),
            next: self.next as int,
            pending: match self.pending {
                Some(p) => Some(p@),
                None => None,
            },
            updates: self.message@,
            phase: self.phase,
        }
    }
}

impl UpdateRun {
    /// Whether the run is in order: see [`run_wf`].
    pub open spec fn wf(&self) -> bool {
        run_wf(self@)
    }

    /// Begins a run on the source `name`, or on all sources of the registry where
    /// no name is given. A run on no source at all is refused.
    pub fn new(sources: Sources, name: Option<&String>) -> (out: Result<Self, Error>)
        requires
            sources.wf(),
        ensures
            match out {
                Ok(run) => {
                    &&& run.wf()
                    &&& run@ == started_of(
                        sources@,
                        match name {
                            Some(n) => Some(n@),
                            None => None,
                        },
                    )
                    &&& run@.names.len() > 0
                },
                Err(e) => {
                    &&& e@ == ErrorView::NoSources
                    &&& name is None
                    &&& sources@.len() == 0
                },
            },
    {
        let mut names: Vec<String> = Vec::new();
        match name {
            Some(n) => {
                names.push(n.clone());
                assert(names@.map_values(|s: String| s@) =~= seq![n@]);
            },
            None => {
                let all = sources.names();
                let mut i: usize = 0;
                while i < all.len()
                    invariant
                        i <= all@.len(),
                        all@.map_values(|s: &String| s@) == names_of(sources@),
                        names@.map_values(|s: String| s@) == names_of(sources@).take(i as int),
                    decreases all@.len() - i,
                {
                    let ghost before = names@.map_values(|s: String| s@);
                    let n = all[i].clone();
                    assert(n@ == all@.map_values(|s: &String| s@)[i as int]);
                    names.push(n);
                    assert(names@.map_values(|s: String| s@) =~= before.push(n@));
                    i = i + 1;
                    assert(names_of(sources@).take(i as int) =~= before.push(n@));
                }
                assert(names_of(sources@).take(i as int) =~= names_of(sources@));
            },
        }
        if names.len() == 0 {
            return Err(Error::NoSources);
        }
        Ok(
            UpdateRun {
                sources,
                names,
                next: 0,
                pending: None,
                message: CommitMessage::new(),
                phase: RunPhase::Running,
            },
        )
    }

    /// Where the run stands.
    pub fn phase(&self) -> (out: RunPhase)
        ensures
            out == self@.phase,
    {
        self.phase
    }

    /// The name of the source that the run attends to, while there is one.
    pub fn current_name(&self) -> (out: Option<&String>)
        ensures
            match out {
                Some(n) => 0 <= self@.next < self@.names.len() && n@ == self@.names[self@.next],
                None => self@.next >= self@.names.len(),
            },
    {
        if self.next < self.names.len() {
            Some(&self.names[self.next])
        } else {
            None
        }
    }

    fn scan(&mut self) -> (out: RunStep)
        requires
            old(self).wf(),
            old(self)@.pending is None,
            old(self)@.phase == RunPhase::Running,
        ensures
            final(self).wf(),
            (final(self)@, out@) == scan_of(old(self)@),
    {
        loop
            invariant
                self.wf(),
                self@.pending is None,
                self@.phase == RunPhase::Running,
                scan_of(self@) == scan_of(old(self)@),
            decreases self.names@.len() - self.next,
        {
            if self.next >= self.names.len() {
                if self.message.is_empty() {
                    self.phase = RunPhase::Failed;
                    return RunStep::Failed(Error::NothingToDo);
                } else {
                    self.phase = RunPhase::Finished;
                    return RunStep::Finished;
                }
            }
            let name = &self.names[self.next];
            assert(name@ == self@.names[self@.next]);
            match self.sources.get(name.as_str()) {
                None => {
                    let e = Error::NotFound { name: name.clone() };
                    self.phase = RunPhase::Failed;
                    return RunStep::Failed(e);
                },
                Some(source) => match source.update() {
                    Step::Ask(query, progress) => {
                        proof {
                            crate::sources::lemma_find_name(self@.sources, name@, 0);
                        }
                        self.pending = Some(progress);
                        return RunStep::Ask(query);
                    },
                    Step::Done(_) => {
                        self.next = self.next + 1;
                    },
                    Step::Failed(e) => {
                        self.phase = RunPhase::Failed;
                        return RunStep::Failed(e);
                    },
                },
            }
        }
    }

    /// Goes on with the run: the first call takes no answer, each later one the
    /// answer to the question that the call before it asked.
    pub fn advance(&mut self, answer: Option<Answer>) -> (out: RunStep)
        requires
            old(self).wf(),
        ensures
            final(self).wf(),
            (final(self)@, out@) == advance_of(old(self)@, answer_view(answer)),
    {
        match self.phase {
            RunPhase::Running => {},
            _ => {
                return RunStep::Failed(unexpected());
            },
        }
        let pending = self.pending.take();
        match (pending, answer) {
            (None, None) => self.scan(),
            (Some(progress), Some(a)) => {
                let total: usize = self.names.len();
                assert(self.next < total) by {
                    assert(old(self)@.names.len() == old(self).names@.len());
                }
                let name = self.names[self.next].clone();
                assert(name@ == old(self)@.names[old(self)@.next]);
                let ghost before = self.sources@;
                let step = match self.sources.get_mut(name.as_str()) {
                    Some(source) => source.resume(progress, a),
                    None => Step::Failed(unexpected()),
                };
                proof {
                    let after = resume_of(get_of(before, name@)->0, progress@, a@).0;
                    lemma_replaced_is_sorted(before, name@, after);
                    lemma_replaced_keeps_names(before, name@, after, name@);
                }
                match step {
                    Step::Ask(query, next_progress) => {
                        self.pending = Some(next_progress);
                        RunStep::Ask(query)
                    },
                    Step::Done(Some(summary)) => {
                        self.message.add_summary(name.as_str(), summary);
                        self.next = self.next + 1;
                        self.scan()
                    },
                    Step::Done(None) => {
                        self.next = self.next + 1;
                        self.scan()
                    },
                    Step::Failed(e) => {
                        self.phase = RunPhase::Failed;
                        RunStep::Failed(e)
                    },
                }
            },
            _ => {
                self.phase = RunPhase::Failed;
                RunStep::Failed(unexpected())
            },
        }
    }

    /// The registry and the message of a run that has finished: what is to be
    /// written. A run that has not finished gives up nothing.
    pub fn into_parts(self) -> (out: Option<(Sources, CommitMessage)>)
        requires
            self.wf(),
        ensures
            match out {
                Some(parts) => {
                    &&& self@.phase == RunPhase::Finished
                    &&& parts.0.wf()
                    &&& parts.0@ == self@.sources
                    &&& parts.1@ == self@.updates
                },
                None => self@.phase != RunPhase::Finished,
            },
    {
        match self.phase {
            RunPhase::Finished => Some((self.sources, self.message)),
            _ => None,
        }
    }
}

} // verus!
