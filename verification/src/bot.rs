//! The bot: for each source that is not frozen it makes a branch, updates the
//! source on it, commits, pushes, and asks the forge for a pull request.
//!
//! The bot itself touches nothing. It is a machine that is told what happened
//! and says what is to be done next; whoever runs it does the work.

use crate::commit_message::{body_of, message_of, summary_renderable, CommitMessage};
use crate::error::{Error, ErrorView};
use crate::git::User;
use crate::sources::{
    begin_update_of, replaced_of, resume_of, rev_list_of,
    rev_list_query_of, sorted_by_name, unexpected, unexpected_answer, Answer, AnswerView,
    Progress, ProgressView, Query, QueryView, Source, SourceView, Sources, Step, StepView,
    UpdateSummary, UpdateSummaryView,
};
use crate::text::{parse_u64, parse_u64_of};
use vstd::prelude::*;

verus! {

/// A forge: a service that hosts repositories and takes pull requests.
pub trait Forge {
    /// Opens a pull request on the forge from `source_branch`, for the update of
    /// the source `name`, and returns the address of the request.
    fn open_pull_request(&self, source_branch: &str, name: &str, body: Option<String>) -> Result<
        String,
        Error,
    >;
}

/// The title of the pull request for the update of a source.
pub open spec fn pull_request_title_of(name: Seq<char>) -> Seq<char> {
    "lon: update "@ + name
}

/// The title of the pull request for the update of a source.
pub fn pull_request_title(name: &str) -> (out: String)
    ensures
        out@ == pull_request_title_of(name@),
{
    let mut out = "lon: update ".to_owned();
    out.append(name);
    out
}

/// The branch on which a source is updated.
pub open spec fn branch_of(name: Seq<char>) -> Seq<char> {
    "lon/"@ + name
}

/// The branch on which a source is updated.
pub fn branch_name(name: &str) -> (out: String)
    ensures
        out@ == branch_of(name@),
{
    let mut out = "lon/".to_owned();
    out.append(name);
    out
}

/// How many commits an update lists where the setting is `value`: none without
/// a setting, the number that the setting writes, and 50 where it writes none.
pub open spec fn list_commits_of(value: Option<Seq<char>>) -> usize {
    match value {
        None => 0,
        Some(s) => match parse_u64_of(s) {
            Some(n) => if n <= usize::MAX {
                n as usize
            } else {
                50
            },
            None => 50,
        },
    }
}

/// The mathematical value of a [`BotConfig`].
pub ghost struct ConfigView {
    pub list_commits: usize,
    pub user_name: Seq<char>,
    pub user_email: Seq<char>,
    pub push_url: Option<Seq<char>>,
}

/// What the bot is set up with.
#[derive(Debug)]
pub struct BotConfig {
    list_commits: usize,
    user_name: String,
    user_email: String,
    push_url: Option<String>,
}

impl View for BotConfig {
    type V = ConfigView;

    closed spec fn view(&self) -> ConfigView {
        ConfigView {
            list_commits: self.list_commits,
            user_name: self.user_name@,
            user_email: self.user_email@,
            push_url: match self.push_url {
                Some(u) => Some(u@),
                None => None,
            },
        }
    }
}

/// The view of a text that may be missing.
pub open spec fn text_view(s: Option<&str>) -> Option<Seq<char>> {
    match s {
        Some(t) => Some(t@),
        None => None,
    }
}

impl BotConfig {
    /// The bot's setup from the settings as they were found: how many commits to
    /// list, who signs the commits (`LonBot`, `lonbot@lonbot` by default), and
    /// where to push (the remote `origin` where there is no setting).
    pub fn new(
        list_commits: Option<&str>,
        user_name: Option<&str>,
        user_email: Option<&str>,
        push_url: Option<&str>,
    ) -> (out: Self)
        ensures
            out@ == (ConfigView {
                list_commits: list_commits_of(text_view(list_commits)),
                user_name: match user_name {
                    Some(n) => n@,
                    None => "LonBot"@,
                },
                user_email: match user_email {
                    Some(e) => e@,
                    None => "lonbot@lonbot"@,
                },
                push_url: text_view(push_url),
            }),
    {
        let count: usize = match list_commits {
            None => 0,
            Some(s) => match parse_u64(s) {
                Some(n) => if n <= usize::MAX as u64 {
                    n as usize
                } else {
                    50
                },
                None => 50,
            },
        };
        BotConfig {
            list_commits: count,
            user_name: match user_name {
                Some(n) => n.to_owned(),
                None => "LonBot".to_owned(),
            },
            user_email: match user_email {
                Some(e) => e.to_owned(),
                None => "lonbot@lonbot".to_owned(),
            },
            push_url: match push_url {
                Some(u) => Some(u.to_owned()),
                None => None,
            },
        }
    }

    /// How many commits an update lists; 0 for no list.
    pub fn list_commits(&self) -> (out: usize)
        ensures
            out == self@.list_commits,
    {
        self.list_commits
    }
}

/// What became of a source in a run of the bot.
#[derive(Debug)]
pub enum Outcome {
    /// It is frozen and was passed over.
    Frozen,
    /// It is at the newest revision already.
    UpToDate,
    /// It was updated, and the forge opened a pull request at this address.
    Opened { url: String },
    /// It was updated, committed and pushed, but the forge refused the request.
    RequestFailed { error: Error },
}

/// The mathematical value of an [`Outcome`].
pub ghost enum OutcomeView {
    Frozen,
    UpToDate,
    Opened { url: Seq<char> },
    RequestFailed { error: ErrorView },
}

impl View for Outcome {
    type V = OutcomeView;

    open spec fn view(&self) -> OutcomeView {
        match self {
            Outcome::Frozen => OutcomeView::Frozen,
            Outcome::UpToDate => OutcomeView::UpToDate,
            Outcome::Opened { url } => OutcomeView::Opened { url: url@ },
            Outcome::RequestFailed { error } => OutcomeView::RequestFailed { error: error@ },
        }
    }
}

/// The views of a report.
pub open spec fn report_view(v: Seq<(String, Outcome)>) -> Seq<(Seq<char>, OutcomeView)> {
    v.map_values(|e: (String, Outcome)| (e.0@, e.1@))
}

/// What the bot is told.
#[derive(Debug)]
pub enum BotEvent {
    /// The run begins.
    Start,
    /// What was to be done was done.
    Done,
    /// The registry was read.
    Loaded(Sources),
    /// A question was answered, or what was to be done failed.
    Answered(Answer),
}

/// The mathematical value of a [`BotEvent`].
pub ghost enum BotEventView {
    Start,
    Done,
    Loaded(Seq<(Seq<char>, SourceView)>),
    Answered(AnswerView),
}

impl View for BotEvent {
    type V = BotEventView;

    open spec fn view(&self) -> BotEventView {
        match self {
            BotEvent::Start => BotEventView::Start,
            BotEvent::Done => BotEventView::Done,
            BotEvent::Loaded(s) => BotEventView::Loaded(s@),
            BotEvent::Answered(a) => BotEventView::Answered(a@),
        }
    }
}

/// What the bot wants done.
#[derive(Debug)]
pub enum BotAction {
    /// Tell the branch or the commit that is checked out.
    CurrentRev,
    /// Read the registry.
    LoadSources,
    /// Check out `reference`; with `create_or_reset`, as a branch that starts
    /// where the working tree stands.
    Checkout { reference: String, create_or_reset: bool },
    /// Answer the question.
    Ask(Query),
    /// Write this registry.
    Persist { sources: Sources },
    /// Commit what was written, with this message, signed by this user.
    Commit { message: String, user: User },
    /// Push the branch by force, to `url` or else to the remote `origin`.
    ForcePush { url: Option<String>, branch: String },
    /// Ask the forge for a pull request from the branch.
    OpenPullRequest { branch: String, name: String, body: Option<String> },
    /// The run is over: with an error it failed.
    Finish(Option<Error>),
}

/// The mathematical value of a [`BotAction`].
pub ghost enum BotActionView {
    CurrentRev,
    LoadSources,
    Checkout { reference: Seq<char>, create_or_reset: bool },
    Ask(QueryView),
    Persist { sources: Seq<(Seq<char>, SourceView)> },
    Commit { message: Seq<char>, user_name: Seq<char>, user_email: Seq<char> },
    ForcePush { url: Option<Seq<char>>, branch: Seq<char> },
    OpenPullRequest { branch: Seq<char>, name: Seq<char>, body: Option<Seq<char>> },
    Finish(Option<ErrorView>),
}

impl View for BotAction {
    type V = BotActionView;

    open spec fn view(&self) -> BotActionView {
        match self {
            BotAction::CurrentRev => BotActionView::CurrentRev,
            BotAction::LoadSources => BotActionView::LoadSources,
            BotAction::Checkout { reference, create_or_reset } => BotActionView::Checkout {
                reference: reference@,
                create_or_reset: *create_or_reset,
            },
            BotAction::Ask(q) => BotActionView::Ask(q@),
            BotAction::Persist { sources } => BotActionView::Persist { sources: sources@ },
            BotAction::Commit { message, user } => BotActionView::Commit {
                message: message@,
                user_name: user.name_view(),
                user_email: user.email_view(),
            },
            BotAction::ForcePush { url, branch } => BotActionView::ForcePush {
                url: match url {
                    Some(u) => Some(u@),
                    None => None,
                },
                branch: branch@,
            },
            BotAction::OpenPullRequest { branch, name, body } => BotActionView::OpenPullRequest {
                branch: branch@,
                name: name@,
                body: match body {
                    Some(b) => Some(b@),
                    None => None,
                },
            },
            BotAction::Finish(e) => BotActionView::Finish(
                match e {
                    Some(err) => Some(err@),
                    None => None,
                },
            ),
        }
    }
}

/// Where the bot stands: what it waits for.
#[derive(Debug)]
pub enum Phase {
    /// For the run to begin.
    Start,
    /// For the base reference.
    CapturingBase,
    /// For the registry.
    Loading,
    /// For the working tree to be back at the base, before the next source.
    CheckingOutBase,
    /// For the source's branch.
    CreatingBranch,
    /// For an answer to a question of the source's update.
    Updating { working: Source, progress: Progress },
    /// For the commits of the update.
    Enriching { working: Source, summary: UpdateSummary },
    /// For the registry to be written.
    Persisting { message: String, body: String },
    /// For the commit.
    Committing { body: String },
    /// For the push.
    Pushing { body: String },
    /// For the forge.
    Requesting,
    /// For the working tree to be back at the base, at the end of the run.
    Restoring { failure: Option<Error> },
    /// For nothing: the run is over.
    Finished,
}

/// The mathematical value of a [`Phase`].
pub ghost enum PhaseView {
    Start,
    CapturingBase,
    Loading,
    CheckingOutBase,
    CreatingBranch,
    Updating { working: SourceView, progress: ProgressView },
    Enriching { working: SourceView, summary: UpdateSummaryView },
    Persisting { message: Seq<char>, body: Seq<char> },
    Committing { body: Seq<char> },
    Pushing { body: Seq<char> },
    Requesting,
    Restoring { failure: Option<ErrorView> },
    Finished,
}

impl View for Phase {
    type V = PhaseView;

    open spec fn view(&self) -> PhaseView {
        match self {
            Phase::Start => PhaseView::Start,
            Phase::CapturingBase => PhaseView::CapturingBase,
            Phase::Loading => PhaseView::Loading,
            Phase::CheckingOutBase => PhaseView::CheckingOutBase,
            Phase::CreatingBranch => PhaseView::CreatingBranch,
            Phase::Updating { working, progress } => PhaseView::Updating {
                working: working@,
                progress: progress@,
            },
            Phase::Enriching { working, summary } => PhaseView::Enriching {
                working: working@,
                summary: summary@,
            },
            Phase::Persisting { message, body } => PhaseView::Persisting {
                message: message@,
                body: body@,
            },
            Phase::Committing { body } => PhaseView::Committing { body: body@ },
            Phase::Pushing { body } => PhaseView::Pushing { body: body@ },
            Phase::Requesting => PhaseView::Requesting,
            Phase::Restoring { failure } => PhaseView::Restoring {
                failure: match failure {
                    Some(e) => Some(e@),
                    None => None,
                },
            },
            Phase::Finished => PhaseView::Finished,
        }
    }
}

/// The mathematical value of a [`Bot`].
pub ghost struct BotView {
    pub config: ConfigView,
    /// The reference that was checked out when the run began.
    pub base: Seq<char>,
    /// The registry as it was read. The run never changes it: each source is
    /// updated in a copy of its own.
    pub sources: Seq<(Seq<char>, SourceView)>,
    /// How many sources have been attended to.
    pub index: int,
    pub phase: PhaseView,
    /// What became of the sources attended to, in their order.
    pub report: Seq<(Seq<char>, OutcomeView)>,
}

/// The error for an update whose commits cannot be listed: one of them has a
/// revision without a short form.
pub open spec fn unrenderable() -> ErrorView {
    ErrorView::Decode { message: "A listed commit has a revision without a short form"@ }
}

/// The end of the run's work: the working tree goes back to the base, whatever
/// happened before. `failure` is what the run failed with, if it did.
pub open spec fn restore_of(bot: BotView, failure: Option<ErrorView>) -> (BotView, BotActionView) {
    (
        BotView { phase: PhaseView::Restoring { failure }, ..bot },
        BotActionView::Checkout { reference: bot.base, create_or_reset: false },
    )
}

/// The beginning of a source's turn: the working tree goes back to the base.
/// After the last source the run's work ends.
pub open spec fn next_source_of(bot: BotView) -> (BotView, BotActionView) {
    if 0 <= bot.index < bot.sources.len() {
        (
            BotView { phase: PhaseView::CheckingOutBase, ..bot },
            BotActionView::Checkout { reference: bot.base, create_or_reset: false },
        )
    } else {
        restore_of(bot, None)
    }
}

/// The end of a source's turn: what became of it is noted, and the next source
/// has its turn.
pub open spec fn turn_ends_of(bot: BotView, outcome: OutcomeView) -> (BotView, BotActionView) {
    next_source_of(
        BotView {
            index: bot.index + 1,
            report: bot.report.push((bot.sources[bot.index].0, outcome)),
            ..bot
        },
    )
}

/// After an update: the registry is written, in a copy in which only the
/// source at hand has changed.
pub open spec fn persist_of(bot: BotView, working: SourceView, summary: UpdateSummaryView) -> (
    BotView,
    BotActionView,
) {
    let name = bot.sources[bot.index].0;
    let updates = seq![(name, summary)];
    if summary_renderable(summary) {
        (
            BotView {
                phase: PhaseView::Persisting {
                    message: message_of(updates),
                    body: body_of(updates),
                },
                ..bot
            },
            BotActionView::Persist { sources: replaced_of(bot.sources, name, working) },
        )
    } else {
        restore_of(bot, Some(unrenderable()))
    }
}

/// After an answer to a question of the source's update.
pub open spec fn updating_of(
    bot: BotView,
    working: SourceView,
    progress: ProgressView,
    answer: AnswerView,
) -> (BotView, BotActionView) {
    let (after, step) = resume_of(working, progress, answer);
    match step {
        StepView::Ask(query, next) => (
            BotView { phase: PhaseView::Updating { working: after, progress: next }, ..bot },
            BotActionView::Ask(query),
        ),
        StepView::Done(None) => turn_ends_of(bot, OutcomeView::UpToDate),
        StepView::Done(Some(summary)) => if bot.config.list_commits > 0 {
            (
                BotView { phase: PhaseView::Enriching { working: after, summary }, ..bot },
                BotActionView::Ask(rev_list_query_of(after, summary, bot.config.list_commits)),
            )
        } else {
            persist_of(bot, after, summary)
        },
        StepView::Failed(e) => restore_of(bot, Some(e)),
    }
}

/// What an event does to the bot, and what the bot wants done next.
///
/// The run captures the base reference and reads the registry. Then each source
/// has its turn, in the order of the names: the working tree goes back to the
/// base; a frozen source is passed over; the source's branch is made; the source
/// is updated; where there is no newer revision the turn ends; else the commits
/// are listed if that is asked for, the registry is written, committed and
/// pushed, and the forge is asked for a pull request. Whatever the forge answers,
/// the next source has its turn. Any other failure ends the run's work. At the
/// end the working tree goes back to the base, after a failure too, and the run
/// finishes with the failure, if there was one.
pub open spec fn bot_step_of(bot: BotView, event: BotEventView) -> (BotView, BotActionView) {
    let name = bot.sources[bot.index].0;
    let source = bot.sources[bot.index].1;
    match (bot.phase, event) {
        (PhaseView::Start, BotEventView::Start) => (
            BotView { phase: PhaseView::CapturingBase, ..bot },
            BotActionView::CurrentRev,
        ),
        (PhaseView::CapturingBase, BotEventView::Answered(AnswerView::Text(base))) => (
            BotView { base, phase: PhaseView::Loading, ..bot },
            BotActionView::LoadSources,
        ),
        (PhaseView::CapturingBase, BotEventView::Answered(AnswerView::Failed(e))) => (
            BotView { phase: PhaseView::Finished, ..bot },
            BotActionView::Finish(Some(e)),
        ),
        (PhaseView::Loading, BotEventView::Loaded(sources)) => if sorted_by_name(sources) {
            next_source_of(BotView { sources, index: 0, ..bot })
        } else {
            restore_of(bot, Some(unexpected_answer()))
        },
        (PhaseView::CheckingOutBase, BotEventView::Done) => if source.frozen() {
            turn_ends_of(bot, OutcomeView::Frozen)
        } else {
            (
                BotView { phase: PhaseView::CreatingBranch, ..bot },
                BotActionView::Checkout { reference: branch_of(name), create_or_reset: true },
            )
        },
        (PhaseView::CreatingBranch, BotEventView::Done) => match begin_update_of(source) {
            StepView::Ask(query, progress) => (
                BotView { phase: PhaseView::Updating { working: source, progress }, ..bot },
                BotActionView::Ask(query),
            ),
            StepView::Done(_) => turn_ends_of(bot, OutcomeView::UpToDate),
            StepView::Failed(e) => restore_of(bot, Some(e)),
        },
        (PhaseView::Updating { working, progress }, BotEventView::Answered(answer)) => updating_of(
            bot,
            working,
            progress,
            answer,
        ),
        (PhaseView::Enriching { working, summary }, BotEventView::Answered(answer)) => match rev_list_of(
            working,
            bot.config.list_commits,
            answer,
        ) {
            Err(e) => restore_of(bot, Some(e)),
            Ok(list) => persist_of(
                bot,
                working,
                UpdateSummaryView { rev_list: Some(list), ..summary },
            ),
        },
        (PhaseView::Persisting { message, body }, BotEventView::Done) => (
            BotView { phase: PhaseView::Committing { body }, ..bot },
            BotActionView::Commit {
                message,
                user_name: bot.config.user_name,
                user_email: bot.config.user_email,
            },
        ),
        (PhaseView::Committing { body }, BotEventView::Done) => (
            BotView { phase: PhaseView::Pushing { body }, ..bot },
            BotActionView::ForcePush { url: bot.config.push_url, branch: branch_of(name) },
        ),
        (PhaseView::Pushing { body }, BotEventView::Done) => (
            BotView { phase: PhaseView::Requesting, ..bot },
            BotActionView::OpenPullRequest { branch: branch_of(name), name, body: Some(body) },
        ),
        (PhaseView::Requesting, BotEventView::Answered(AnswerView::Text(url))) => turn_ends_of(
            bot,
            OutcomeView::Opened { url },
        ),
        (PhaseView::Requesting, BotEventView::Answered(AnswerView::Failed(error))) => turn_ends_of(
            bot,
            OutcomeView::RequestFailed { error },
        ),
        (PhaseView::Restoring { failure }, BotEventView::Done) => (
            BotView { phase: PhaseView::Finished, ..bot },
            BotActionView::Finish(failure),
        ),
        (PhaseView::Restoring { failure }, BotEventView::Answered(AnswerView::Failed(e))) => (
            BotView { phase: PhaseView::Finished, ..bot },
            BotActionView::Finish(Some(e)),
        ),
        (PhaseView::Start, _) | (PhaseView::CapturingBase, _) | (PhaseView::Restoring { .. }, _) | (
            PhaseView::Finished,
            _,
        ) => (
            BotView { phase: PhaseView::Finished, ..bot },
            BotActionView::Finish(Some(unexpected_answer())),
        ),
        (_, BotEventView::Answered(AnswerView::Failed(e))) => restore_of(bot, Some(e)),
        _ => restore_of(bot, Some(unexpected_answer())),
    }
}

/// Whether the bot is in order: its registry is, and while a source has its turn
/// there is such a source.
pub open spec fn bot_wf(bot: BotView) -> bool {
    &&& sorted_by_name(bot.sources)
    &&& 0 <= bot.index <= bot.sources.len()
    &&& match bot.phase {
        PhaseView::Start
        | PhaseView::CapturingBase
        | PhaseView::Loading
        | PhaseView::Restoring { .. }
        | PhaseView::Finished => true,
        _ => bot.index < bot.sources.len(),
    }
}

/// The bot: a machine that is told what happened and says what to do next.
#[derive(Debug)]
pub struct Bot {
    config: BotConfig,
    base: String,
    sources: Sources,
    index: usize,
    phase: Phase,
    report: Vec<(String, Outcome)>,
}

impl View for Bot {
    type V = BotView;

    closed spec fn view(&self) -> BotView {
        BotView {
            config: self.config@,
            base: self.base@,
            sources: self.sources@,
            index: self.index as int,
            phase: self.phase@,
            report: report_view(self.report@),
        }
    }
}

/// The view of an error that may be missing.
pub open spec fn failure_view(e: Option<Error>) -> Option<ErrorView> {
    match e {
        Some(err) => Some(err@),
        None => None,
    }
}

impl Bot {
    /// Whether the bot is in order: see [`bot_wf`].
    pub open spec fn wf(&self) -> bool {
        bot_wf(self@)
    }

    /// The bot before its run, with this setup.
    pub fn new(config: BotConfig) -> (out: Self)
        ensures
            out.wf(),
            out@ == (BotView {
                config: config@,
                base: Seq::empty(),
                sources: Seq::empty(),
                index: 0,
                phase: PhaseView::Start,
                report: Seq::empty(),
            }),
    {
        let out = Bot {
            config,
            base: String::new(),
            sources: Sources::new(),
            index: 0,
            phase: Phase::Start,
            report: Vec::new(),
        };
        assert(report_view(out.report@) =~= Seq::<(Seq<char>, OutcomeView)>::empty());
        out
    }

    /// What became of the sources attended to so far, in their order.
    pub fn report(&self) -> (out: &Vec<(String, Outcome)>)
        ensures
            report_view(out@) == self@.report,
    {
        &self.report
    }

    /// The reference that was checked out when the run began.
    pub fn base(&self) -> (out: &str)
        ensures
            out@ == self@.base,
    {
        self.base.as_str()
    }

    /// Whether the run is over.
    pub fn is_finished(&self) -> (b: bool)
        ensures
            b == (self@.phase is Finished),
    {
        match &self.phase {
            Phase::Finished => true,
            _ => false,
        }
    }

    fn restore(&mut self, failure: Option<Error>) -> (out: BotAction)
        requires
            sorted_by_name(old(self)@.sources),
            0 <= old(self)@.index <= old(self)@.sources.len(),
        ensures
            final(self).wf(),
            (final(self)@, out@) == restore_of(old(self)@, failure_view(failure)),
    {
        self.phase = Phase::Restoring { failure };
        BotAction::Checkout { reference: self.base.clone(), create_or_reset: false }
    }

    fn next_source(&mut self) -> (out: BotAction)
        requires
            sorted_by_name(old(self)@.sources),
            0 <= old(self)@.index <= old(self)@.sources.len(),
        ensures
            final(self).wf(),
            (final(self)@, out@) == next_source_of(old(self)@),
    {
        if self.index < self.sources.len() {
            self.phase = Phase::CheckingOutBase;
            BotAction::Checkout { reference: self.base.clone(), create_or_reset: false }
        } else {
            self.restore(None)
        }
    }

    fn turn_ends(&mut self, outcome: Outcome) -> (out: BotAction)
        requires
            sorted_by_name(old(self)@.sources),
            0 <= old(self)@.index < old(self)@.sources.len(),
        ensures
            final(self).wf(),
            (final(self)@, out@) == turn_ends_of(old(self)@, outcome@),
    {
        let total: usize = self.sources.len();
        assert(self.index < total);
        let name = self.sources.name_at(self.index).clone();
        let ghost before = report_view(self.report@);
        self.report.push((name, outcome));
        assert(report_view(self.report@) =~= before.push((name@, outcome@)));
        self.index = self.index + 1;
        self.next_source()
    }

    fn persist(&mut self, working: Source, summary: UpdateSummary) -> (out: BotAction)
        requires
            sorted_by_name(old(self)@.sources),
            0 <= old(self)@.index < old(self)@.sources.len(),
        ensures
            final(self).wf(),
            (final(self)@, out@) == persist_of(old(self)@, working@, summary@),
    {
        let name = self.sources.name_at(self.index).clone();
        let mut message = CommitMessage::new();
        message.add_summary(name.as_str(), summary);
        assert(message@ =~= seq![(name@, summary@)]);
        assert(crate::commit_message::renderable(message@) == summary_renderable(summary@)) by {
            if summary_renderable(summary@) {
                assert forall|i: int| 0 <= i < message@.len() implies summary_renderable(
                    #[trigger] message@[i].1,
                ) by {}
            } else {
                assert(!summary_renderable(message@[0].1));
            }
        }
        if !message.is_renderable() {
            return self.restore(
                Some(
                    Error::Decode {
                        message: "A listed commit has a revision without a short form".to_owned(),
                    },
                ),
            );
        }
        let text = message.to_string();
        let body = message.body();
        let mut copy = self.sources.clone();
        copy.replace(name.as_str(), working);
        proof {
            crate::sources::lemma_find_name(self@.sources, name@, 0);
        }
        self.phase = Phase::Persisting { message: text, body };
        BotAction::Persist { sources: copy }
    }

    fn updating(&mut self, working: Source, progress: Progress, answer: Answer) -> (out: BotAction)
        requires
            sorted_by_name(old(self)@.sources),
            0 <= old(self)@.index < old(self)@.sources.len(),
        ensures
            final(self).wf(),
            (final(self)@, out@) == updating_of(old(self)@, working@, progress@, answer@),
    {
        let mut working = working;
        match working.resume(progress, answer) {
            Step::Ask(query, next) => {
                self.phase = Phase::Updating { working, progress: next };
                BotAction::Ask(query)
            },
            Step::Done(None) => self.turn_ends(Outcome::UpToDate),
            Step::Done(Some(summary)) => {
                if self.config.list_commits > 0 {
                    let query = working.rev_list_query(&summary, self.config.list_commits);
                    self.phase = Phase::Enriching { working, summary };
                    BotAction::Ask(query)
                } else {
                    self.persist(working, summary)
                }
            },
            Step::Failed(e) => self.restore(Some(e)),
        }
    }

    /// Takes what happened and says what is to be done next.
    pub fn step(&mut self, event: BotEvent) -> (out: BotAction)
        requires
            old(self).wf(),
        ensures
            final(self).wf(),
            (final(self)@, out@) == bot_step_of(old(self)@, event@),
    {
        let mut phase = Phase::Finished;
        core::mem::swap(&mut self.phase, &mut phase);
        match (phase, event) {
            (Phase::Start, BotEvent::Start) => {
                self.phase = Phase::CapturingBase;
                BotAction::CurrentRev
            },
            (Phase::CapturingBase, BotEvent::Answered(Answer::Text(base))) => {
                self.base = base;
                self.phase = Phase::Loading;
                BotAction::LoadSources
            },
            (Phase::CapturingBase, BotEvent::Answered(Answer::Failed(e))) => {
                BotAction::Finish(Some(e))
            },
            (Phase::Loading, BotEvent::Loaded(sources)) => {
                if sources.check() {
                    self.sources = sources;
                    self.index = 0;
                    self.next_source()
                } else {
                    self.restore(Some(unexpected()))
                }
            },
            (Phase::CheckingOutBase, BotEvent::Done) => {
                if self.sources.source_at(self.index).frozen() {
                    self.turn_ends(Outcome::Frozen)
                } else {
                    let branch = branch_name(self.sources.name_at(self.index).as_str());
                    self.phase = Phase::CreatingBranch;
                    BotAction::Checkout { reference: branch, create_or_reset: true }
                }
            },
            (Phase::CreatingBranch, BotEvent::Done) => {
                let working = self.sources.source_at(self.index).clone();
                match working.update() {
                    Step::Ask(query, progress) => {
                        self.phase = Phase::Updating { working, progress };
                        BotAction::Ask(query)
                    },
                    Step::Done(_) => self.turn_ends(Outcome::UpToDate),
                    Step::Failed(e) => self.restore(Some(e)),
                }
            },
            (Phase::Updating { working, progress }, BotEvent::Answered(answer)) => {
                self.updating(working, progress, answer)
            },
            (Phase::Enriching { working, summary }, BotEvent::Answered(answer)) => {
                match working.rev_list(self.config.list_commits, answer) {
                    Err(e) => self.restore(Some(e)),
                    Ok(list) => {
                        let mut summary = summary;
                        summary.add_rev_list(list);
                        self.persist(working, summary)
                    },
                }
            },
            (Phase::Persisting { message, body }, BotEvent::Done) => {
                let user = User::new(self.config.user_name.as_str(), self.config.user_email.as_str());
                self.phase = Phase::Committing { body };
                BotAction::Commit { message, user }
            },
            (Phase::Committing { body }, BotEvent::Done) => {
                let branch = branch_name(self.sources.name_at(self.index).as_str());
                self.phase = Phase::Pushing { body };
                BotAction::ForcePush { url: self.config.push_url.clone(), branch }
            },
            (Phase::Pushing { body }, BotEvent::Done) => {
                let name = self.sources.name_at(self.index).clone();
                let branch = branch_name(name.as_str());
                self.phase = Phase::Requesting;
                BotAction::OpenPullRequest { branch, name, body: Some(body) }
            },
            (Phase::Requesting, BotEvent::Answered(Answer::Text(url))) => {
                self.turn_ends(Outcome::Opened { url })
            },
            (Phase::Requesting, BotEvent::Answered(Answer::Failed(error))) => {
                self.turn_ends(Outcome::RequestFailed { error })
            },
            (Phase::Restoring { failure }, BotEvent::Done) => BotAction::Finish(failure),
            (Phase::Restoring { failure }, BotEvent::Answered(Answer::Failed(e))) => {
                BotAction::Finish(Some(e))
            },
            (Phase::Start, _)
            | (Phase::CapturingBase, _)
            | (Phase::Restoring { .. }, _)
            | (Phase::Finished, _) => BotAction::Finish(Some(unexpected())),
            (_, BotEvent::Answered(Answer::Failed(e))) => self.restore(Some(e)),
            _ => self.restore(Some(unexpected())),
        }
    }
}

/// The working tree always goes back to the base. The run finishes only from
/// the phase in which the base was checked out last, unless it had not yet
/// learnt the base; and whenever the run's work ends, for whatever reason, what
/// the bot wants done is that checkout.
pub proof fn lemma_base_is_restored(bot: BotView, event: BotEventView)
    requires
        bot_wf(bot),
    ensures
        ({
            let (after, action) = bot_step_of(bot, event);
            &&& action is Finish ==> (bot.phase is Restoring || bot.phase is Start || bot.phase
                is CapturingBase || bot.phase is Finished)
            &&& after.phase is Restoring ==> action == (BotActionView::Checkout {
                reference: bot.base,
                create_or_reset: false,
            })
            &&& after.phase is Finished <==> action is Finish
            &&& !(bot.phase is CapturingBase) ==> after.base == bot.base
        }),
{
}

/// The failure of a request to the forge stays with its source: it is noted in
/// the report, and the next source has its turn as after a success. The run does
/// not fail with it.
pub proof fn lemma_request_failure_is_isolated(bot: BotView, error: ErrorView)
    requires
        bot_wf(bot),
        bot.phase is Requesting,
    ensures
        ({
            let (after, action) = bot_step_of(
                bot,
                BotEventView::Answered(AnswerView::Failed(error)),
            );
            let (succeeded, same_action) = bot_step_of(
                bot,
                BotEventView::Answered(AnswerView::Text(Seq::empty())),
            );
            &&& after.index == bot.index + 1
            &&& after.report == bot.report.push(
                (bot.sources[bot.index].0, OutcomeView::RequestFailed { error }),
            )
            &&& after.phase == succeeded.phase
            &&& action == same_action
            &&& after.phase is Restoring ==> after.phase == (PhaseView::Restoring { failure: None })
            &&& !(action is Finish)
        }),
{
}

/// Every failure but that of the forge ends the run's work: the working tree
/// goes back to the base, and the run then finishes with that failure.
pub proof fn lemma_other_failures_are_fatal(bot: BotView, error: ErrorView)
    requires
        bot_wf(bot),
        bot.phase is Loading || bot.phase is CheckingOutBase || bot.phase is CreatingBranch
            || bot.phase is Updating || bot.phase is Enriching || bot.phase is Persisting
            || bot.phase is Committing || bot.phase is Pushing,
    ensures
        ({
            let failed = BotEventView::Answered(AnswerView::Failed(error));
            let (after, action) = bot_step_of(bot, failed);
            &&& (after, action) == restore_of(bot, Some(error))
            &&& after.report == bot.report
            &&& bot_step_of(after, BotEventView::Done).1 == BotActionView::Finish(Some(error))
        }),
{
}

/// The registry that was read is never changed: each source is updated in a
/// copy of its own, and what is written for one source holds no change to
/// another.
pub proof fn lemma_sources_are_updated_apart(bot: BotView, event: BotEventView)
    requires
        bot_wf(bot),
        !(bot.phase is Loading),
    ensures
        ({
            let (after, action) = bot_step_of(bot, event);
            &&& after.sources == bot.sources
            &&& bot_wf(after)
            &&& match action {
                BotActionView::Persist { sources } => {
                    &&& sources.len() == bot.sources.len()
                    &&& forall|i: int|
                        0 <= i < sources.len() && i != bot.index ==> sources[i] == bot.sources[i]
                    &&& sources[bot.index].0 == bot.sources[bot.index].0
                },
                _ => true,
            }
        }),
{
    let (after, action) = bot_step_of(bot, event);
    match action {
        BotActionView::Persist { sources } => {
            let name = bot.sources[bot.index].0;
            crate::sources::lemma_find_name(bot.sources, name, 0);
            let k = crate::sources::find_name(bot.sources, name, 0);
            crate::sources::lemma_names_are_unique(bot.sources, k, bot.index);
        },
        _ => {},
    }
}

/// A frozen source is passed over: nothing is asked about it, no branch is made
/// for it, and the report says that it is frozen.
pub proof fn lemma_frozen_source_is_passed_over(bot: BotView)
    requires
        bot_wf(bot),
        bot.phase is CheckingOutBase,
        bot.sources[bot.index].1.frozen(),
    ensures
        ({
            let (after, action) = bot_step_of(bot, BotEventView::Done);
            &&& !(action is Ask)
            &&& action == (BotActionView::Checkout { reference: bot.base, create_or_reset: false })
            &&& after.index == bot.index + 1
            &&& after.report == bot.report.push((bot.sources[bot.index].0, OutcomeView::Frozen))
        }),
{
}

} // verus!
