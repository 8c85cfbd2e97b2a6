//! The orchestrator: a first-in, first-out queue of pass identities, the
//! registry of known passes, and the history of what has run.
//!
//! The orchestrator decides; it does not run passes. `process` takes what
//! happened last and answers with what to do next. Nor does it delete
//! anything: artifacts that a later pass supersedes stay with the caller,
//! who reported them, to dispose of.

use std::collections::VecDeque;
use vstd::prelude::*;
use crate::object::{Object, ObjectView, User, UserView};
use crate::pp::{
    applies, occurrences, PassIdentity, PipelineError, PostProcessInput, PostProcessOutput,
    PostProcessOutputView, RETRY_BUDGET,
};

verus! {

/// Where a pipeline stands.
#[derive(Clone, Copy, Debug, PartialEq, Eq, Structural)]
pub enum Phase {
    /// Not started.
    Idle,
    /// Waiting to hear whether the pass applies to the current artifact.
    Checking(PassIdentity),
    /// Waiting for the pass to finish.
    Executing(PassIdentity),
    /// The queue ran empty; the artifact is final.
    Finished,
    /// A pass failed or the queue named an unknown pass.
    Failed,
}

/// What the caller does next.
#[derive(Clone, Copy, Debug, PartialEq, Eq, Structural)]
pub enum Dispatch {
    /// Ask the pass whether it applies to the current input.
    Check(PassIdentity),
    /// Run the pass on the current input.
    Execute(PassIdentity),
    /// Nothing: the pipeline is done.
    Finished,
}

/// What the caller reports.
pub enum PassEvent {
    /// Begin a pipeline over the orchestrator's artifact.
    Start,
    /// The pass asked about applies, or does not.
    Checked { applies: bool },
    /// The pass ran and produced this.
    Completed { output: PostProcessOutput },
    /// The pass ran and failed.
    Failed { error: PipelineError },
}

/// `PassEvent` as a mathematical value.
pub enum PassEventView {
    Start,
    Checked { applies: bool },
    Completed { output: PostProcessOutputView },
    Failed { error: PipelineError },
}

impl View for PassEvent {
    type V = PassEventView;

    open spec fn view(&self) -> PassEventView {
        match self {
            PassEvent::Start => PassEventView::Start,
            PassEvent::Checked { applies } => PassEventView::Checked { applies: *applies },
            PassEvent::Completed { output } => PassEventView::Completed { output: output@ },
            PassEvent::Failed { error } => PassEventView::Failed { error: *error },
        }
    }
}

/// Sequences passes over one artifact.
pub struct PostProcessOrchestrator {
    user: User,
    object: Object,
    post_processors: Vec<PassIdentity>,
    postprocessors_to_run: Vec<PassIdentity>,
    current: Object,
    queue: VecDeque<PassIdentity>,
    previous_passes: Vec<PassIdentity>,
    phase: Phase,
}

/// The orchestrator as a mathematical value.
pub struct OrchestratorView {
    /// The owner of the artifact.
    pub user: UserView,
    /// The artifact the pipeline started from, or ended with once finished.
    pub object: ObjectView,
    /// The identities of the registered passes.
    pub registry: Set<PassIdentity>,
    /// The passes a pipeline starts with, in order.
    pub seeds: Seq<PassIdentity>,
    /// The artifact the next pass will see.
    pub current: ObjectView,
    /// The passes waiting, front first.
    pub queue: Seq<PassIdentity>,
    /// The passes that ran, oldest first.
    pub history: Seq<PassIdentity>,
    pub phase: Phase,
}

/// Takes the front of the queue and asks about it; with nothing waiting,
/// the pipeline is finished and its current artifact becomes the
/// orchestrator's. A front that names no registered pass is an error.
pub open spec fn dispatch_next(m: OrchestratorView) -> (OrchestratorView, Result<
    Dispatch,
    PipelineError,
>) {
    if m.queue.len() == 0 {
        (
            OrchestratorView { object: m.current, phase: Phase::Finished, ..m },
            Ok(Dispatch::Finished),
        )
    } else {
        let identity = m.queue[0];
        let queue = m.queue.drop_first();
        if m.registry.contains(identity) {
            (
                OrchestratorView { queue, phase: Phase::Checking(identity), ..m },
                Ok(Dispatch::Check(identity)),
            )
        } else {
            (
                OrchestratorView { queue, phase: Phase::Failed, ..m },
                Err(PipelineError::UnknownPassIdentity(identity)),
            )
        }
    }
}

/// Whether a pipeline may be started in this phase.
pub open spec fn at_rest(phase: Phase) -> bool {
    phase == Phase::Idle || phase == Phase::Finished || phase == Phase::Failed
}

/// One step of the pipeline: the next state and what to do, for each state
/// and event.
pub open spec fn step(m: OrchestratorView, event: PassEventView) -> (OrchestratorView, Result<
    Dispatch,
    PipelineError,
>) {
    match (m.phase, event) {
        (phase, PassEventView::Start) => if at_rest(phase) {
            dispatch_next(
                OrchestratorView { current: m.object, queue: m.seeds, history: Seq::empty(), ..m },
            )
        } else {
            (m, Err(PipelineError::OutOfTurn))
        },
        (Phase::Checking(identity), PassEventView::Checked { applies }) => if applies {
            (
                OrchestratorView { phase: Phase::Executing(identity), ..m },
                Ok(Dispatch::Execute(identity)),
            )
        } else {
            dispatch_next(m)
        },
        (Phase::Executing(identity), PassEventView::Completed { output }) => dispatch_next(
            OrchestratorView {
                current: output.file,
                queue: m.queue + output.additional_passes,
                history: m.history.push(identity),
                ..m
            },
        ),
        (Phase::Executing(identity), PassEventView::Failed { error }) => (
            OrchestratorView { phase: Phase::Failed, ..m },
            Err(error),
        ),
        _ => (m, Err(PipelineError::OutOfTurn)),
    }
}

impl View for PostProcessOrchestrator {
    type V = OrchestratorView;

    closed spec fn view(&self) -> OrchestratorView {
        OrchestratorView {
            user: self.user@,
            object: self.object@,
            registry: self.post_processors@.to_set(),
            seeds: self.postprocessors_to_run@,
            current: self.current@,
            queue: self.queue@,
            history: self.previous_passes@,
            phase: self.phase,
        }
    }
}

fn copy_identities(list: &Vec<PassIdentity>) -> (r: Vec<PassIdentity>)
    ensures
        r@ == list@,
{
    let mut r: Vec<PassIdentity> = Vec::new();
    let mut i: usize = 0;
    while i < list.len()
        invariant
            i <= list.len(),
            r@ == list@.take(i as int),
        decreases list.len() - i,
    {
        r.push(list[i]);
        i += 1;
    }
    assert(list@.take(list@.len() as int) == list@);
    r
}

impl PostProcessOrchestrator {
    /// An orchestrator for `object`, owned by `user`, with no passes yet.
    pub fn new(user: User, object: Object) -> (r: Self)
        ensures
            r@ == (OrchestratorView {
                user: user@,
                object: object@,
                registry: Set::empty(),
                seeds: Seq::empty(),
                current: object@,
                queue: Seq::empty(),
                history: Seq::empty(),
                phase: Phase::Idle,
            }),
    {
        let current = object.clone();
        let r = PostProcessOrchestrator {
            user,
            object,
            post_processors: Vec::new(),
            postprocessors_to_run: Vec::new(),
            current,
            queue: VecDeque::new(),
            previous_passes: Vec::new(),
            phase: Phase::Idle,
        };
        assert(r.post_processors@.to_set() =~= Set::<PassIdentity>::empty());
        r
    }

    /// Whether a pass is registered under `identity`.
    pub fn is_registered(&self, identity: PassIdentity) -> (r: bool)
        ensures
            r == self@.registry.contains(identity),
    {
        let mut i: usize = 0;
        while i < self.post_processors.len()
            invariant
                i <= self.post_processors.len(),
                forall|j: int| 0 <= j < i ==> self.post_processors@[j] != identity,
            decreases self.post_processors.len() - i,
        {
            if self.post_processors[i] == identity {
                assert(self.post_processors@.contains(identity));
                return true;
            }
            i += 1;
        }
        assert(!self.post_processors@.contains(identity));
        false
    }

    /// Registers the pass `identity`; with `and_run`, every pipeline starts
    /// by queueing it. Hands the orchestrator back for the next registration.
    pub fn add_post_processor(&mut self, identity: PassIdentity, and_run: bool) -> (r: &mut Self)
        ensures
            r@ == (OrchestratorView {
                registry: old(self)@.registry.insert(identity),
                seeds: if and_run {
                    old(self)@.seeds.push(identity)
                } else {
                    old(self)@.seeds
                },
                ..old(self)@
            }),
            *final(self) == *final(r),
    {
        let ghost before = self.post_processors@;
        if !self.is_registered(identity) {
            self.post_processors.push(identity);
        }
        assert(self.post_processors@.to_set() =~= before.to_set().insert(identity)) by {
            assert forall|x: PassIdentity|
                self.post_processors@.to_set().contains(x) <==> before.to_set().insert(
                    identity,
                ).contains(x) by {
                if self.post_processors@ == before {
                    assert(before.contains(identity));
                } else {
                    assert(self.post_processors@ == before.push(identity));
                    if before.contains(x) {
                        let k = choose|k: int| 0 <= k < before.len() && before[k] == x;
                        assert(self.post_processors@[k] == x);
                    }
                    if x == identity {
                        assert(self.post_processors@[before.len() as int] == x);
                    }
                    if self.post_processors@.contains(x) {
                        let k = choose|k: int|
                            0 <= k < self.post_processors@.len() && self.post_processors@[k] == x;
                        if k < before.len() {
                            assert(before[k] == x);
                        }
                    }
                }
            }
        }
        if and_run {
            self.postprocessors_to_run.push(identity);
        }
        self
    }

    /// The artifact the pipeline started from or, once finished, ended with.
    pub fn object(&self) -> (r: &Object)
        ensures
            r@ == self@.object,
    {
        &self.object
    }

    /// Where the pipeline stands.
    pub fn phase(&self) -> (r: Phase)
        ensures
            r == self@.phase,
    {
        self.phase
    }

    /// What the pass asked about next is to be given: the current artifact,
    /// its owner, and the history so far.
    pub fn input(&self) -> (r: PostProcessInput)
        ensures
            r.file@ == self@.current,
            r.user@ == self@.user,
            r.previous_passes@ == self@.history,
    {
        PostProcessInput {
            file: self.current.clone(),
            user: self.user.clone(),
            previous_passes: copy_identities(&self.previous_passes),
        }
    }

    fn dispatch(&mut self) -> (r: Result<Dispatch, PipelineError>)
        ensures
            (final(self)@, r) == dispatch_next(old(self)@),
    {
        match self.queue.pop_front() {
            None => {
                self.object = self.current.clone();
                self.phase = Phase::Finished;
                Ok(Dispatch::Finished)
            },
            Some(identity) => {
                assert(self.queue@ == old(self).queue@.drop_first());
                if self.is_registered(identity) {
                    self.phase = Phase::Checking(identity);
                    Ok(Dispatch::Check(identity))
                } else {
                    self.phase = Phase::Failed;
                    Err(PipelineError::UnknownPassIdentity(identity))
                }
            },
        }
    }

    fn enqueue(&mut self, identities: &Vec<PassIdentity>)
        ensures
            final(self)@ == (OrchestratorView {
                queue: old(self)@.queue + identities@,
                ..old(self)@
            }),
    {
        let mut i: usize = 0;
        assert(self.queue@ == old(self).queue@ + identities@.take(0));
        while i < identities.len()
            invariant
                i <= identities.len(),
                self.queue@ == old(self).queue@ + identities@.take(i as int),
                self.user == old(self).user,
                self.object == old(self).object,
                self.post_processors == old(self).post_processors,
                self.postprocessors_to_run == old(self).postprocessors_to_run,
                self.current == old(self).current,
                self.previous_passes == old(self).previous_passes,
                self.phase == old(self).phase,
            decreases identities.len() - i,
        {
            self.queue.push_back(identities[i]);
            assert(identities@.take(i as int + 1) == identities@.take(i as int).push(
                identities@[i as int],
            ));
            i += 1;
        }
        assert(identities@.take(identities@.len() as int) == identities@);
    }

    /// Takes what happened last and says what to do next.
    ///
    /// `Start` begins a pipeline over the orchestrator's artifact. After
    /// `Check`, report `Checked`; after `Execute`, report `Completed` or
    /// `Failed`. An event that does not answer the last request is refused
    /// with `OutOfTurn` and changes nothing.
    pub fn process(&mut self, event: PassEvent) -> (r: Result<Dispatch, PipelineError>)
        ensures
            (final(self)@, r) == step(old(self)@, event@),
    {
        match (self.phase, event) {
            (phase, PassEvent::Start) => {
                if matches!(phase, Phase::Idle | Phase::Finished | Phase::Failed) {
                    self.current = self.object.clone();
                    self.queue = VecDeque::new();
                    self.previous_passes = Vec::new();
                    let seeds = copy_identities(&self.postprocessors_to_run);
                    self.enqueue(&seeds);
                    assert(self.queue@ == old(self)@.seeds);
                    self.dispatch()
                } else {
                    Err(PipelineError::OutOfTurn)
                }
            },
            (Phase::Checking(identity), PassEvent::Checked { applies }) => {
                if applies {
                    self.phase = Phase::Executing(identity);
                    Ok(Dispatch::Execute(identity))
                } else {
                    self.dispatch()
                }
            },
            (Phase::Executing(identity), PassEvent::Completed { output }) => {
                self.current = output.file;
                self.previous_passes.push(identity);
                self.enqueue(&output.additional_passes);
                self.dispatch()
            },
            (Phase::Executing(identity), PassEvent::Failed { error }) => {
                self.phase = Phase::Failed;
                Err(error)
            },
            _ => Err(PipelineError::OutOfTurn),
        }
    }
}

/// A pass that does not apply is skipped: it is not executed, and neither
/// the artifact nor the history changes.
pub proof fn lemma_inapplicable_pass_is_skipped(m: OrchestratorView, identity: PassIdentity)
    requires
        m.phase == Phase::Checking(identity),
    ensures
        ({
            let (next, dispatch) = step(m, PassEventView::Checked { applies: false });
            &&& !(dispatch matches Ok(Dispatch::Execute(_)))
            &&& !(next.phase matches Phase::Executing(_))
            &&& next.current == m.current
            &&& next.history == m.history
        }),
{
}

/// For an artifact no larger than the limit of the re-encode pass, the
/// check says no and the orchestrator moves on without executing the pass.
pub proof fn lemma_small_artifact_is_never_encoded(m: OrchestratorView, max_size: u64)
    requires
        m.phase == Phase::Checking(PassIdentity::FfmpegResize),
        m.current.size <= max_size,
    ensures
        !applies(max_size, m.current),
        ({
            let (next, dispatch) = step(
                m,
                PassEventView::Checked { applies: applies(max_size, m.current) },
            );
            &&& !(dispatch matches Ok(Dispatch::Execute(_)))
            &&& !(next.phase matches Phase::Executing(_))
            &&& next.current == m.current
            &&& next.history == m.history
        }),
{
}

/// First in, first out: when a pass completes, the entry that was at the
/// front of the queue is dealt with next, and whatever the pass queued
/// stands behind every entry that was already waiting.
pub proof fn lemma_queue_is_first_in_first_out(
    m: OrchestratorView,
    identity: PassIdentity,
    output: PostProcessOutputView,
)
    requires
        m.phase == Phase::Executing(identity),
        m.queue.len() > 0,
    ensures
        ({
            let (next, dispatch) = step(m, PassEventView::Completed { output });
            &&& dispatch == Ok::<Dispatch, PipelineError>(Dispatch::Check(m.queue[0])) || dispatch
                == Err::<Dispatch, PipelineError>(PipelineError::UnknownPassIdentity(m.queue[0]))
            &&& next.queue == m.queue.drop_first() + output.additional_passes
            &&& forall|i: int|
                1 <= i < m.queue.len() ==> next.queue[i - 1] == #[trigger] m.queue[i]
            &&& forall|j: int|
                0 <= j < output.additional_passes.len() ==> next.queue[m.queue.len() - 1 + j]
                    == #[trigger] output.additional_passes[j]
            &&& next.history == m.history.push(identity)
        }),
{
    let (next, dispatch) = step(m, PassEventView::Completed { output });
    let grown = m.queue + output.additional_passes;
    assert(grown[0] == m.queue[0]);
    assert(grown.drop_first() == m.queue.drop_first() + output.additional_passes);
}

/// Two passes queued at the start, the first of which queues itself again:
/// the second is asked about before the first comes up again.
pub proof fn lemma_requeued_pass_waits_its_turn(
    m: OrchestratorView,
    first: PassIdentity,
    second: PassIdentity,
    output: PostProcessOutputView,
)
    requires
        at_rest(m.phase),
        m.seeds == seq![first, second],
        m.registry.contains(first),
        m.registry.contains(second),
        output.additional_passes == seq![first],
    ensures
        ({
            let (checking, asked) = step(m, PassEventView::Start);
            let (executing, started) = step(checking, PassEventView::Checked { applies: true });
            let (after, next) = step(executing, PassEventView::Completed { output });
            &&& asked == Ok::<Dispatch, PipelineError>(Dispatch::Check(first))
            &&& started == Ok::<Dispatch, PipelineError>(Dispatch::Execute(first))
            &&& next == Ok::<Dispatch, PipelineError>(Dispatch::Check(second))
            &&& after.queue == seq![first]
            &&& after.history == seq![first]
        }),
{
    let (checking, asked) = step(m, PassEventView::Start);
    assert(m.seeds.drop_first() == seq![second]);
    assert(checking.queue == seq![second]);
    let (executing, started) = step(checking, PassEventView::Checked { applies: true });
    let (after, next) = step(executing, PassEventView::Completed { output });
    let grown = executing.queue + output.additional_passes;
    assert(grown == seq![second, first]);
    assert(grown.drop_first() == seq![first]);
    assert(Seq::<PassIdentity>::empty().push(first) == seq![first]);
}

/// The state after a series of events, each answered by one step.
pub open spec fn after(m: OrchestratorView, events: Seq<PassEventView>) -> OrchestratorView
    decreases events.len(),
{
    if events.len() == 0 {
        m
    } else {
        step(after(m, events.drop_last()), events.last()).0
    }
}

/// Whether `event` can come from a caller that runs the re-encode pass as
/// this library defines it: with its retry budget used up, the pass does
/// not complete.
pub open spec fn honours_retry_budget(m: OrchestratorView, event: PassEventView) -> bool {
    m.phase == Phase::Executing(PassIdentity::FfmpegResize) && occurrences(
        m.history,
        PassIdentity::FfmpegResize,
    ) >= RETRY_BUDGET ==> !(event is Completed)
}

/// Whether every event of a series honours the retry budget in the state
/// it arrives in.
pub open spec fn all_honour_retry_budget(m: OrchestratorView, events: Seq<PassEventView>) -> bool {
    forall|k: int|
        0 <= k < events.len() ==> honours_retry_budget(
            after(m, events.take(k)),
            #[trigger] events[k],
        )
}

/// One step keeps the re-encode pass within its retry budget.
pub proof fn lemma_step_keeps_retry_budget(m: OrchestratorView, event: PassEventView)
    requires
        occurrences(m.history, PassIdentity::FfmpegResize) <= RETRY_BUDGET,
        honours_retry_budget(m, event),
    ensures
        occurrences(step(m, event).0.history, PassIdentity::FfmpegResize) <= RETRY_BUDGET,
{
    let next = step(m, event).0;
    match (m.phase, event) {
        (Phase::Executing(identity), PassEventView::Completed { output }) => {
            let grown = m.history.push(identity);
            assert(grown.drop_last() == m.history);
            assert(grown.last() == identity);
            assert(next.history == grown);
        },
        (phase, PassEventView::Start) => {
            if at_rest(phase) {
                assert(next.history == Seq::<PassIdentity>::empty());
            }
        },
        _ => {
            assert(next.history == m.history);
        },
    }
}

/// However long a pipeline runs, the re-encode pass is recorded at most
/// `RETRY_BUDGET` times in its history.
pub proof fn lemma_retry_budget_bounds_history(m: OrchestratorView, events: Seq<PassEventView>)
    requires
        occurrences(m.history, PassIdentity::FfmpegResize) <= RETRY_BUDGET,
        all_honour_retry_budget(m, events),
    ensures
        occurrences(after(m, events).history, PassIdentity::FfmpegResize) <= RETRY_BUDGET,
    decreases events.len(),
{
    if events.len() > 0 {
        let front = events.drop_last();
        assert forall|k: int| 0 <= k < front.len() implies honours_retry_budget(
            after(m, front.take(k)),
            #[trigger] front[k],
        ) by {
            assert(front.take(k) == events.take(k));
            assert(front[k] == events[k]);
        }
        lemma_retry_budget_bounds_history(m, front);
        assert(events.take(events.len() - 1) == front);
        assert(honours_retry_budget(after(m, front), events[events.len() - 1]));
        lemma_step_keeps_retry_budget(after(m, front), events.last());
    }
}

/// Whether `event` answers what the pipeline asked for last.
pub open spec fn in_turn(m: OrchestratorView, event: PassEventView) -> bool {
    match (m.phase, event) {
        (Phase::Checking(_), PassEventView::Checked { .. }) => true,
        (Phase::Executing(_), PassEventView::Completed { .. }) => true,
        (Phase::Executing(_), PassEventView::Failed { .. }) => true,
        _ => false,
    }
}

/// Whether the re-encode pass is the only pass this pipeline knows.
pub open spec fn only_reencodes(m: OrchestratorView) -> bool {
    &&& forall|identity: PassIdentity| #[trigger]
        m.registry.contains(identity) ==> identity == PassIdentity::FfmpegResize
    &&& m.phase matches Phase::Checking(identity) ==> identity == PassIdentity::FfmpegResize
    &&& m.phase matches Phase::Executing(identity) ==> identity == PassIdentity::FfmpegResize
}

/// Whether `event` is one the re-encode pass can give rise to: it
/// completes only within its retry budget, and then queues itself at most
/// once.
pub open spec fn as_the_reencode_pass_reports(m: OrchestratorView, event: PassEventView) -> bool {
    event matches PassEventView::Completed { output } ==> {
        &&& occurrences(m.history, PassIdentity::FfmpegResize) < RETRY_BUDGET
        &&& output.additional_passes.len() <= 1
    }
}

/// An upper bound on the steps a pipeline that only re-encodes still has
/// ahead of it.
pub open spec fn steps_ahead(m: OrchestratorView) -> int {
    let waiting = 2 * m.queue.len();
    let retries = 3 * (RETRY_BUDGET - occurrences(m.history, PassIdentity::FfmpegResize));
    match m.phase {
        Phase::Checking(_) => waiting + retries + 1,
        Phase::Executing(_) => waiting + retries,
        _ => 0,
    }
}

/// The retry budget makes pipelines end: in a pipeline that only
/// re-encodes, every step either ends the pipeline or lowers the bound on
/// the steps still ahead, which never falls below zero.
pub proof fn lemma_retry_budget_ends_pipelines(m: OrchestratorView, event: PassEventView)
    requires
        only_reencodes(m),
        occurrences(m.history, PassIdentity::FfmpegResize) <= RETRY_BUDGET,
        in_turn(m, event),
        as_the_reencode_pass_reports(m, event),
    ensures
        ({
            let next = step(m, event).0;
            at_rest(next.phase) || {
                &&& 0 <= steps_ahead(next) < steps_ahead(m)
                &&& only_reencodes(next)
                &&& occurrences(next.history, PassIdentity::FfmpegResize) <= RETRY_BUDGET
            }
        }),
{
    let next = step(m, event).0;
    match (m.phase, event) {
        (Phase::Executing(identity), PassEventView::Completed { output }) => {
            let grown = m.history.push(identity);
            assert(grown.drop_last() == m.history);
            assert(grown.last() == identity);
            let queued = m.queue + output.additional_passes;
            if queued.len() > 0 {
                assert(queued.drop_first().len() == queued.len() - 1);
            }
        },
        (Phase::Checking(identity), PassEventView::Checked { applies }) => {
            if !applies && m.queue.len() > 0 {
                assert(m.queue.drop_first().len() == m.queue.len() - 1);
            }
        },
        _ => {},
    }
}

/// A start followed by `skips` answers that the pass asked about does not
/// apply.
pub open spec fn start_then_skip(skips: nat) -> Seq<PassEventView> {
    seq![PassEventView::Start] + Seq::new(
        skips,
        |i: int| PassEventView::Checked { applies: false },
    )
}

/// While passes are being skipped, the pipeline works its way down the
/// queue it started with and touches nothing else.
pub proof fn lemma_skipping_walks_the_queue(m: OrchestratorView, skips: nat)
    requires
        at_rest(m.phase),
        forall|i: int| 0 <= i < m.seeds.len() ==> m.registry.contains(#[trigger] m.seeds[i]),
        skips < m.seeds.len(),
    ensures
        after(m, start_then_skip(skips)) == (OrchestratorView {
            current: m.object,
            queue: m.seeds.skip(skips as int + 1),
            history: Seq::empty(),
            phase: Phase::Checking(m.seeds[skips as int]),
            ..m
        }),
    decreases skips,
{
    let events = start_then_skip(skips);
    let front = events.drop_last();
    let end = after(m, events);
    assert(end == step(after(m, front), events.last()).0);
    if skips == 0 {
        assert(front == Seq::<PassEventView>::empty());
        assert(after(m, front) == m);
        assert(events.last() == PassEventView::Start);
        assert(m.seeds.drop_first() == m.seeds.skip(1));
        assert(m.registry.contains(m.seeds[0]));
    } else {
        let before = (skips - 1) as nat;
        lemma_skipping_walks_the_queue(m, before);
        assert(front == start_then_skip(before));
        assert(events.last() == PassEventView::Checked { applies: false });
        let waiting = m.seeds.skip(before as int + 1);
        assert(waiting.len() > 0);
        assert(waiting[0] == m.seeds[skips as int]);
        assert(waiting.drop_first() == m.seeds.skip(skips as int + 1));
        assert(m.registry.contains(m.seeds[skips as int]));
    }
}

/// Where no queued pass applies, the pipeline finishes with the artifact it
/// started from and an empty history.
pub proof fn lemma_nothing_applies_nothing_changes(m: OrchestratorView)
    requires
        at_rest(m.phase),
        forall|i: int| 0 <= i < m.seeds.len() ==> m.registry.contains(#[trigger] m.seeds[i]),
    ensures
        ({
            let end = after(m, start_then_skip(m.seeds.len()));
            &&& end.phase == Phase::Finished
            &&& end.object == m.object
            &&& end.current == m.object
            &&& end.history == Seq::<PassIdentity>::empty()
        }),
{
    let events = start_then_skip(m.seeds.len());
    let front = events.drop_last();
    let end = after(m, events);
    assert(end == step(after(m, front), events.last()).0);
    if m.seeds.len() == 0 {
        assert(front == Seq::<PassEventView>::empty());
        assert(after(m, front) == m);
        assert(events.last() == PassEventView::Start);
    } else {
        let before = (m.seeds.len() - 1) as nat;
        lemma_skipping_walks_the_queue(m, before);
        assert(front == start_then_skip(before));
        assert(events.last() == PassEventView::Checked { applies: false });
        assert(m.seeds.skip(before as int + 1).len() == 0);
    }
}

} // verus!
