//! The control loop: the one consumer of the bus. It takes one message at a
//! time, keeps the outputs announced so far, and says when the pipeline is to
//! be started and stopped.

use crate::message::{EventMessage, EventView, JobError, JobErrorView, Level, Media, MediaView,
    Response};
use vstd::prelude::*;

verus! {

/// Where a job stands.
#[derive(Clone, Debug, PartialEq, Eq)]
pub enum LoopState {
    /// Nothing runs yet.
    Starting,
    /// The pipeline runs and no message has been taken yet.
    Running,
    /// The pipeline runs and messages are being taken.
    Draining,
    /// The input ended; the pipeline is stopped.
    StoppedSuccess,
    /// A failure ended the job; the pipeline is stopped.
    StoppedFailure(JobError),
}

/// A state as plain values.
pub enum StateView {
    Starting,
    Running,
    Draining,
    StoppedSuccess,
    StoppedFailure(JobErrorView),
}

impl View for LoopState {
    type V = StateView;

    open spec fn view(&self) -> StateView {
        match self {
            LoopState::Starting => StateView::Starting,
            LoopState::Running => StateView::Running,
            LoopState::Draining => StateView::Draining,
            LoopState::StoppedSuccess => StateView::StoppedSuccess,
            LoopState::StoppedFailure(cause) => StateView::StoppedFailure(cause@),
        }
    }
}

/// What the owner of the pipeline is to do next.
#[derive(Clone, Debug, PartialEq, Eq)]
pub enum LoopAction {
    /// Start the pipeline, then wait for a message.
    StartPipeline,
    /// Wait for the next message.
    Receive,
    /// Log this, then wait for the next message.
    Log { level: Level, text: String },
    /// Stop the pipeline; the job is over.
    StopPipeline,
    /// The message came outside a running job and was dropped.
    Dropped,
}

/// An action as plain values.
pub enum ActionView {
    StartPipeline,
    Receive,
    Log { level: Level, text: Seq<char> },
    StopPipeline,
    Dropped,
}

impl View for LoopAction {
    type V = ActionView;

    open spec fn view(&self) -> ActionView {
        match self {
            LoopAction::StartPipeline => ActionView::StartPipeline,
            LoopAction::Receive => ActionView::Receive,
            LoopAction::Log { level, text } => ActionView::Log { level: *level, text: text@ },
            LoopAction::StopPipeline => ActionView::StopPipeline,
            LoopAction::Dropped => ActionView::Dropped,
        }
    }
}

/// The control loop of one job.
#[derive(Debug)]
pub struct ControlLoop {
    state: LoopState,
    medias: Vec<Media>,
}

/// A control loop as plain values: its state and the outputs announced so
/// far, in arrival order.
pub struct LoopView {
    pub state: StateView,
    pub medias: Seq<MediaView>,
}

impl View for ControlLoop {
    type V = LoopView;

    closed spec fn view(&self) -> LoopView {
        LoopView {
            state: self.state@,
            medias: self.medias@.map_values(|media: Media| media@),
        }
    }
}

/// A loop that has taken nothing, in state `state`.
pub open spec fn fresh(state: StateView) -> LoopView {
    LoopView { state, medias: Seq::empty() }
}

/// Whether the pipeline runs in this state.
pub open spec fn is_live(state: StateView) -> bool {
    state is Running || state is Draining
}

/// Whether the job is over in this state.
pub open spec fn is_stopped(state: StateView) -> bool {
    state is StoppedSuccess || state is StoppedFailure
}

/// Whether `message` ends a job.
pub open spec fn ends_job(message: EventView) -> bool {
    message is Terminal || message is FatalError
}

/// The loop after it has been asked to start.
pub open spec fn started(before: LoopView) -> LoopView {
    if before.state is Starting {
        LoopView { state: StateView::Running, ..before }
    } else {
        before
    }
}

/// What the loop asks for when it is asked to start.
pub open spec fn start_reaction(before: LoopView) -> ActionView {
    if before.state is Starting {
        ActionView::StartPipeline
    } else {
        ActionView::Dropped
    }
}

/// The loop after it has been handed `message`.
///
/// While the pipeline runs, a diagnostic changes nothing but the state, an
/// announced output is appended, the end of input stops the job with the
/// outputs announced so far, and a failure stops it with the cause and
/// without any output. In every other state the message is dropped.
pub open spec fn next(before: LoopView, message: EventView) -> LoopView {
    if is_live(before.state) {
        match message {
            EventView::Terminal => LoopView { state: StateView::StoppedSuccess, ..before },
            EventView::FatalError { cause, .. } => LoopView {
                state: StateView::StoppedFailure(cause),
                medias: Seq::empty(),
            },
            EventView::Diagnostic { .. } => LoopView { state: StateView::Draining, ..before },
            EventView::StreamProduced(media) => LoopView {
                state: StateView::Draining,
                medias: before.medias.push(media),
            },
        }
    } else {
        before
    }
}

/// What the loop asks for when it is handed `message`.
pub open spec fn reaction(before: LoopView, message: EventView) -> ActionView {
    if is_live(before.state) {
        match message {
            EventView::Terminal => ActionView::StopPipeline,
            EventView::FatalError { .. } => ActionView::StopPipeline,
            EventView::Diagnostic { level, text } => ActionView::Log { level, text },
            EventView::StreamProduced(_) => ActionView::Receive,
        }
    } else {
        ActionView::Dropped
    }
}

/// The result of the job: the outputs in arrival order after a normal end,
/// the failure after a fatal error, nothing while the job is not over.
pub open spec fn result_of(view: LoopView) -> Option<Result<Seq<MediaView>, JobErrorView>> {
    match view.state {
        StateView::StoppedSuccess => Some(Ok(view.medias)),
        StateView::StoppedFailure(cause) => Some(Err(cause)),
        _ => None,
    }
}

/// A job result as plain values.
pub open spec fn result_view(result: Option<Result<Response, JobError>>) -> Option<
    Result<Seq<MediaView>, JobErrorView>,
> {
    match result {
        Some(Ok(response)) => Some(Ok(response@)),
        Some(Err(cause)) => Some(Err(cause@)),
        None => None,
    }
}

impl ControlLoop {
    /// A loop for a job that has not started.
    pub fn new() -> (control: ControlLoop)
        ensures
            control@ == fresh(StateView::Starting),
    {
        let control = ControlLoop { state: LoopState::Starting, medias: Vec::new() };
        assert(control@.medias =~= Seq::<MediaView>::empty());
        control
    }

    /// Starts the job: a loop that has not started asks for the pipeline to
    /// be started and counts as running from then on. A loop in any other
    /// state stays as it is.
    pub fn start(&mut self) -> (action: LoopAction)
        ensures
            final(self)@ == started(old(self)@),
            action@ == start_reaction(old(self)@),
    {
        let starting = match &self.state {
            LoopState::Starting => true,
            _ => false,
        };
        if starting {
            self.state = LoopState::Running;
            LoopAction::StartPipeline
        } else {
            LoopAction::Dropped
        }
    }

    /// Takes one message from the bus.
    pub fn on_message(&mut self, message: EventMessage) -> (action: LoopAction)
        ensures
            final(self)@ == next(old(self)@, message@),
            action@ == reaction(old(self)@, message@),
    {
        let live = match &self.state {
            LoopState::Running => true,
            LoopState::Draining => true,
            _ => false,
        };
        if !live {
            return LoopAction::Dropped;
        }
        match message {
            EventMessage::Terminal => {
                self.state = LoopState::StoppedSuccess;
                LoopAction::StopPipeline
            },
            EventMessage::FatalError { message: _, debug_info: _, cause } => {
                self.state = LoopState::StoppedFailure(cause);
                self.medias.clear();
                assert(self@.medias =~= Seq::<MediaView>::empty());
                LoopAction::StopPipeline
            },
            EventMessage::Diagnostic { level, text } => {
                self.state = LoopState::Draining;
                LoopAction::Log { level, text }
            },
            EventMessage::StreamProduced(media) => {
                self.state = LoopState::Draining;
                self.medias.push(media);
                assert(self@.medias =~= old(self)@.medias.push(media@));
                LoopAction::Receive
            },
        }
    }

    /// The state that the job is in.
    pub fn state(&self) -> (state: &LoopState)
        ensures
            state@ == self@.state,
    {
        &self.state
    }

    /// Whether the job is over.
    pub fn is_over(&self) -> (over: bool)
        ensures
            over == is_stopped(self@.state),
    {
        match &self.state {
            LoopState::StoppedSuccess => true,
            LoopState::StoppedFailure(_) => true,
            _ => false,
        }
    }

    /// The job's result, once the job is over.
    pub fn finish(self) -> (result: Option<Result<Response, JobError>>)
        ensures
            result_view(result) == result_of(self@),
    {
        match self.state {
            LoopState::StoppedSuccess => Some(Ok(Response { medias: self.medias })),
            LoopState::StoppedFailure(cause) => Some(Err(cause)),
            _ => None,
        }
    }
}

/// The loop after it has been handed `messages` one after the other.
pub open spec fn run(before: LoopView, messages: Seq<EventView>) -> LoopView
    decreases messages.len(),
{
    if messages.len() == 0 {
        before
    } else {
        next(run(before, messages.drop_last()), messages.last())
    }
}

/// How often the loop asks for the pipeline to be stopped while it is handed
/// `messages` one after the other.
pub open spec fn stops(before: LoopView, messages: Seq<EventView>) -> nat
    decreases messages.len(),
{
    if messages.len() == 0 {
        0
    } else {
        let earlier = stops(before, messages.drop_last());
        if reaction(run(before, messages.drop_last()), messages.last()) is StopPipeline {
            earlier + 1
        } else {
            earlier
        }
    }
}

/// Place of the first message of `messages` that ends a job, or the length
/// of `messages` where none does.
pub open spec fn first_end(messages: Seq<EventView>) -> int
    decreases messages.len(),
{
    if messages.len() == 0 {
        0
    } else if ends_job(messages[0]) {
        0
    } else {
        1 + first_end(messages.skip(1))
    }
}

/// The outputs that `messages` announce, in order.
pub open spec fn announced(messages: Seq<EventView>) -> Seq<MediaView>
    decreases messages.len(),
{
    if messages.len() == 0 {
        Seq::empty()
    } else {
        match messages.last() {
            EventView::StreamProduced(media) => announced(messages.drop_last()).push(media),
            _ => announced(messages.drop_last()),
        }
    }
}

/// The loop that a job-ending message leaves behind, `collected` being the
/// outputs announced before it.
pub open spec fn ended(collected: Seq<MediaView>, message: EventView) -> LoopView {
    match message {
        EventView::FatalError { cause, .. } => LoopView {
            state: StateView::StoppedFailure(cause),
            medias: Seq::empty(),
        },
        _ => LoopView { state: StateView::StoppedSuccess, medias: collected },
    }
}

/// `first_end` is a place in `messages` or its length; no message before it
/// ends a job, and the message at it does.
pub proof fn lemma_first_end(messages: Seq<EventView>)
    ensures
        0 <= first_end(messages) <= messages.len(),
        first_end(messages) < messages.len() ==> ends_job(messages[first_end(messages)]),
        forall|k: int| 0 <= k < first_end(messages) ==> !ends_job(#[trigger] messages[k]),
    decreases messages.len(),
{
    if messages.len() > 0 && !ends_job(messages[0]) {
        let rest = messages.skip(1);
        lemma_first_end(rest);
        assert forall|k: int| 0 <= k < first_end(messages) implies !ends_job(
            #[trigger] messages[k],
        ) by {
            if k > 0 {
                assert(messages[k] == rest[k - 1]);
            }
        }
    }
}

/// A job that is over stays as it is: whatever arrives later is dropped, and
/// the pipeline is not stopped again.
pub proof fn lemma_stopped_is_final(before: LoopView, messages: Seq<EventView>)
    requires
        is_stopped(before.state),
    ensures
        run(before, messages) == before,
        stops(before, messages) == 0,
    decreases messages.len(),
{
    if messages.len() > 0 {
        lemma_stopped_is_final(before, messages.drop_last());
    }
}

/// A job that has not started drops what it is handed.
pub proof fn lemma_not_started_drops(before: LoopView, messages: Seq<EventView>)
    requires
        before.state is Starting,
    ensures
        run(before, messages) == before,
        stops(before, messages) == 0,
    decreases messages.len(),
{
    if messages.len() > 0 {
        lemma_not_started_drops(before, messages.drop_last());
    }
}

/// Handing a loop two runs of messages one after the other is handing it
/// their concatenation.
pub proof fn lemma_run_concat(before: LoopView, head: Seq<EventView>, tail: Seq<EventView>)
    ensures
        run(before, head + tail) == run(run(before, head), tail),
        stops(before, head + tail) == stops(before, head) + stops(run(before, head), tail),
    decreases tail.len(),
{
    if tail.len() == 0 {
        assert(head + tail =~= head);
    } else {
        assert((head + tail).drop_last() =~= head + tail.drop_last());
        assert((head + tail).last() == tail.last());
        lemma_run_concat(before, head, tail.drop_last());
    }
}

/// While no message ends the job, a running loop collects the announced
/// outputs in arrival order and never asks for the pipeline to be stopped.
pub proof fn lemma_run_while_live(before: LoopView, messages: Seq<EventView>)
    requires
        is_live(before.state),
        forall|k: int| 0 <= k < messages.len() ==> !ends_job(#[trigger] messages[k]),
    ensures
        run(before, messages).medias == before.medias + announced(messages),
        run(before, messages).state == if messages.len() == 0 {
            before.state
        } else {
            StateView::Draining
        },
        stops(before, messages) == 0,
    decreases messages.len(),
{
    if messages.len() == 0 {
        assert(before.medias + announced(messages) =~= before.medias);
    } else {
        let earlier = messages.drop_last();
        assert forall|k: int| 0 <= k < earlier.len() implies !ends_job(#[trigger] earlier[k]) by {
            assert(earlier[k] == messages[k]);
        }
        lemma_run_while_live(before, earlier);
        assert(!ends_job(messages[messages.len() - 1]));
        assert(run(before, messages).medias =~= before.medias + announced(messages));
    }
}

/// The outcome of a running job for any bus traffic: the job ends at the
/// first message that ends a job. After the end of input it shows the
/// outputs announced before it, after a failure the cause and no output.
/// Whatever arrives later changes nothing, and the pipeline is stopped once.
pub proof fn lemma_run_outcome(before: LoopView, messages: Seq<EventView>)
    requires
        is_live(before.state),
        first_end(messages) < messages.len(),
    ensures
        run(before, messages) == ended(
            before.medias + announced(messages.take(first_end(messages))),
            messages[first_end(messages)],
        ),
        stops(before, messages) == 1,
{
    let at = first_end(messages);
    lemma_first_end(messages);
    let head = messages.take(at);
    let ending = seq![messages[at]];
    let tail = messages.skip(at + 1);
    assert(messages =~= head + ending + tail);
    lemma_run_concat(before, head + ending, tail);
    lemma_run_concat(before, head, ending);
    lemma_run_while_live(before, head);
    let live = run(before, head);
    assert(is_live(live.state));
    assert(ending.drop_last() =~= Seq::<EventView>::empty());
    assert(ending.last() == messages[at]);
    assert(run(live, ending.drop_last()) == live);
    assert(stops(live, ending.drop_last()) == 0);
    assert(reaction(live, messages[at]) is StopPipeline);
    assert(run(live, ending) == next(live, messages[at]));
    assert(stops(live, ending) == 1);
    lemma_stopped_is_final(run(live, ending), tail);
}

/// The pipeline is stopped exactly once per job, on every way out: however
/// the traffic runs, the loop asks for the stop once if the job has come to
/// an end, and not at all if it has not.
pub proof fn lemma_stops_once(messages: Seq<EventView>)
    ensures
        stops(fresh(StateView::Running), messages) == if is_stopped(
            run(fresh(StateView::Running), messages).state,
        ) {
            1nat
        } else {
            0nat
        },
        is_stopped(run(fresh(StateView::Running), messages).state) <==> exists|k: int|
            0 <= k < messages.len() && ends_job(#[trigger] messages[k]),
{
    let before = fresh(StateView::Running);
    lemma_first_end(messages);
    if first_end(messages) < messages.len() {
        lemma_run_outcome(before, messages);
    } else {
        lemma_run_while_live(before, messages);
    }
}

} // verus!
