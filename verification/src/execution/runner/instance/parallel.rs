//! The parallel runner: events at or above a priority threshold are handled in order on the
//! running thread; the rest of a micro-step's events are handled on a thread pool, and the
//! commands they produce are applied to the model on the running thread.
use crate::context::{ActiveExecutorContext, EventContext, ExecutorStatus};
use crate::execution::phase::{EventPhase, MicroStepHandler, MicroStepResult, SourceStepContext};
use crate::context::jump_target;
use crate::execution::registration_calls;
use crate::execution::runner::{
    declined_at, declined_tick, end_step, end_tick, event_calls, event_ids, fire_due_sources, first_time, firing_keys, handed_the_due_events,
    lemma_step_hands_due_events, log_hands_due_events, log_last_tick, log_statuses, log_next_ticks, queue_keys, run_calls, tick_calls, tick_hands_due_events, took_the_due, Runner,
    StepRecord, TickRecord,
};
use crate::execution::strategy::{AlwaysContinueStrategy, ContinueStrategy};
use crate::execution::{Engine, SimulationResult};
use crate::modeling::event::{Event, EventPriority};
use crate::modeling::model::Model;
use crate::modeling::hook::instance::HookCall;
use crate::primitive::id::{EventId, SourceId};
use crate::primitive::time::{Duration, MicroStep, SimTime, TickStatus};
use crate::source_handler::SourceReadyEntry;
use rayon::iter::{IntoParallelIterator, ParallelIterator};
use std::collections::VecDeque;
use std::marker::PhantomData;
use std::sync::mpsc::{Receiver, Sender};
use vstd::prelude::*;

verus! {

broadcast use crate::modeling::hook::instance::lemma_recorded;

/// The sending half of a `std` channel.
#[verifier::external_type_specification]
#[verifier::external_body]
#[verifier::reject_recursive_types(T)]
pub struct ExSender<T>(Sender<T>);

/// A model whose events can be handled on other threads: there it only reads itself and sends
/// commands, which the running thread then applies to it.
pub trait ParallelModel<E, Command>: Model<E> {
    /// Handles `event` on a worker thread, sending the changes it calls for as commands.
    fn handle_event_parallel(&self, event: Event<E>, sender: Sender<Command>);

    /// Applies `command` to the model on the running thread.
    fn apply_command(&mut self, context: &mut EventContext<E, Self>, command: Command);
}

/// The receiving half of a `std` channel.
#[verifier::external_type_specification]
#[verifier::external_body]
#[verifier::reject_recursive_types(T)]
pub struct ExReceiver<T>(Receiver<T>);

/// `std::sync::mpsc::channel`: a new channel for commands, its sending and receiving halves.
/// Nothing is stated of them.
#[verifier::external_body]
fn command_channel<Command: Send>() -> (Sender<Command>, Receiver<Command>) {
    std::sync::mpsc::channel()
}

/// `rayon`'s `into_par_iter` and `for_each_with`: hands each of `events` to
/// `handle_event_parallel` of `model` on the thread pool, each call with a clone of `sender`,
/// and returns once every event was handled.
#[verifier::external_body]
fn handle_events_in_parallel<E: Send, Command: Send, M: ParallelModel<E, Command> + Sync>(
    model: &M,
    events: VecDeque<Event<E>>,
    sender: Sender<Command>,
) {
    events.into_par_iter().for_each_with(sender, |sender, event| model.handle_event_parallel(event, sender.clone()));
}

/// `std::sync::mpsc::Receiver::try_iter`, collected: what is waiting on the channel of
/// `receiver`, in the order it arrived. What arrived, and in which order, depends on the threads
/// that sent it, so nothing is stated of the result.
#[verifier::external_body]
fn received_commands<Command>(receiver: &Receiver<Command>) -> Vec<Command> {
    receiver.try_iter().collect()
}

/// Processes the ticks in order like the standard runner, except for the events of each
/// micro-step: while the first of them has a priority at or above `sync_priority_threshold` it is
/// handled on the running thread; the rest are handled in parallel.
pub struct ParallelRunner<Command, CS> {
    skippable: bool,
    continue_strategy: CS,
    sync_priority_threshold: EventPriority,
    _command: PhantomData<Command>,
    log: Ghost<Seq<TickRecord>>,
    abort: Ghost<(CS, MicroStep)>,
    registrations: Ghost<Seq<(SourceId, Option<Duration>)>>,
    calls: Ghost<Seq<HookCall>>,
    queries: Ghost<Seq<TickStatus>>,
    splits: Ghost<Seq<Seq<SplitRecord<Command>>>>,
}

impl<Command, CS: Clone> Clone for ParallelRunner<Command, CS> {
    fn clone(&self) -> (r: Self) {
        ParallelRunner {
            skippable: self.skippable,
            continue_strategy: self.continue_strategy.clone(),
            sync_priority_threshold: self.sync_priority_threshold,
            _command: PhantomData,
            log: self.log,
            abort: Ghost(arbitrary()),
            registrations: self.registrations,
            calls: self.calls,
            queries: self.queries,
            splits: self.splits,
        }
    }
}

impl<Command> ParallelRunner<Command, AlwaysContinueStrategy> {
    /// A runner that lets every tick take as many micro-steps as it needs.
    pub fn new(skippable: bool, sync_priority_threshold: EventPriority) -> (r: Self)
        ensures
            r.skips() == skippable,
            r.threshold() == sync_priority_threshold,
            r.strategy() == AlwaysContinueStrategy,
    {
        ParallelRunner { skippable, continue_strategy: AlwaysContinueStrategy::new(), sync_priority_threshold, _command: PhantomData,
            log: Ghost(Seq::empty()),
            abort: Ghost(arbitrary()),
            registrations: Ghost(Seq::empty()),
            calls: Ghost(Seq::empty()), queries: Ghost(Seq::empty()),
            splits: Ghost(Seq::empty()),
        }
    }
}

impl<Command, CS> ParallelRunner<Command, CS> {
    /// Whether idle ticks are skipped.
    pub closed spec fn skips(&self) -> bool {
        self.skippable
    }

    /// The lowest priority handled on the running thread.
    pub closed spec fn threshold(&self) -> EventPriority {
        self.sync_priority_threshold
    }

    /// The continuation strategy.
    pub closed spec fn strategy(&self) -> CS {
        self.continue_strategy
    }

    /// For each tick of the last run, how the event phase of each of its micro-steps split the
    /// events between the running thread and the parallel call.
    pub closed spec fn last_run_splits(&self) -> Seq<Seq<SplitRecord<Command>>> {
        self.splits@
    }

    /// A runner with `continue_strategy`.
    pub fn new_with_continue_strategy(skippable: bool, sync_priority_threshold: EventPriority, continue_strategy: CS) -> (r: Self)
        ensures
            r.skips() == skippable,
            r.threshold() == sync_priority_threshold,
            r.strategy() == continue_strategy,
    {
        ParallelRunner { skippable, continue_strategy, sync_priority_threshold, _command: PhantomData,
            log: Ghost(Seq::empty()),
            abort: Ghost(arbitrary()),
            registrations: Ghost(Seq::empty()),
            calls: Ghost(Seq::empty()), queries: Ghost(Seq::empty()),
            splits: Ghost(Seq::empty()),
        }
    }

    /// Whether idle ticks are skipped.
    pub fn skippable(&self) -> (r: bool)
        ensures
            r == self.skips(),
    {
        self.skippable
    }

    /// The lowest priority handled on the running thread.
    pub fn sync_priority_threshold(&self) -> (r: EventPriority)
        ensures
            r == self.threshold(),
    {
        self.sync_priority_threshold
    }
}

/// Handles the events of `event_phase`: while the first has a priority at or above `threshold`
/// it is handed to the model; the rest are handled in parallel and the commands they produce are
/// applied to the model in the order they were received. The context stays at its tick and
/// micro-step.
///
/// The result records what happened: the events handed to the model, which are the leading
/// events at or above the threshold, in order; the events handed to the parallel call, which are
/// all the others, in order; the commands the parallel call returned; and the commands applied
/// to the model, which are those, each once, in order.
pub fn handle_events_split<E: Send, Command: Send, M: ParallelModel<E, Command> + Sync>(
    event_phase: &mut EventPhase<E, M>,
    model: &mut M,
    threshold: EventPriority,
) -> (r: Ghost<(Seq<Event<E>>, Seq<Event<E>>, Seq<Command>, Seq<Command>)>)
    ensures
        final(event_phase).ready() == Seq::<Event<E>>::empty(),
        final(event_phase).context().tick_status() == old(event_phase).context().tick_status(),
        final(event_phase).context().micro_step_status() == old(event_phase).context().micro_step_status(),
        old(event_phase).ready() == r@.0 + r@.1,
        final(event_phase).handled() == old(event_phase).handled() + r@.0,
        forall|i: int| 0 <= i < r@.0.len() ==> (#[trigger] r@.0[i]).priority.0 >= threshold.0,
        r@.1.len() > 0 ==> r@.1[0].priority.0 < threshold.0,
        r@.3 == r@.2,
        final(event_phase).calls() == old(event_phase).calls() + event_calls(
            old(event_phase).context().tick_status().current_tick,
            old(event_phase).context().micro_step_status().current_micro_step,
            event_ids(r@.0),
        ),
{
    let ghost tick_status = event_phase.context().tick_status();
    let ghost micro_step_status = event_phase.context().micro_step_status();
    let ghost due = event_phase.ready();
    let ghost handled0 = event_phase.handled();
    let ghost calls0 = event_phase.calls();
    let ghost mut k: int = 0;
    loop
        invariant
            event_phase.context().tick_status() == tick_status,
            event_phase.context().micro_step_status() == micro_step_status,
            old(event_phase).context().tick_status() == tick_status,
            old(event_phase).context().micro_step_status() == micro_step_status,
            due == old(event_phase).ready(),
            handled0 == old(event_phase).handled(),
            0 <= k <= due.len(),
            event_phase.ready() == due.skip(k),
            event_phase.handled() == handled0 + due.take(k),
            forall|i: int| 0 <= i < k ==> (#[trigger] due[i]).priority.0 >= threshold.0,
            calls0 == old(event_phase).calls(),
            event_phase.calls() == calls0 + event_calls(tick_status.current_tick, micro_step_status.current_micro_step, event_ids(due.take(k))),
        decreases event_phase.ready().len(),
    {
        let at_or_above = |e: &Event<E>| -> (r: bool)
            ensures
                r == (e.priority.0 >= threshold.0),
        { e.priority.0 >= threshold.0 };
        let synchronous = event_phase.take_front_if(at_or_above);
        match synchronous {
            Some(event_ready) => {
                event_phase.handle_event(model, event_ready);
                proof {
                    assert(due.skip(k).drop_first() =~= due.skip(k + 1));
                    assert(due.take(k + 1) =~= due.take(k).push(due[k]));
                    assert(event_phase.handled() =~= handled0 + due.take(k + 1));
                    let ids = event_ids(due.take(k + 1));
                    assert(ids.drop_last() =~= event_ids(due.take(k)));
                    assert(event_phase.calls() =~= calls0 + event_calls(tick_status.current_tick, micro_step_status.current_micro_step, ids));
                    k = k + 1;
                }
            },
            None => {
                let parallel_events = event_phase.take_all();
                let ghost parallel = parallel_events@;
                let (sender, receiver) = command_channel();
                handle_events_in_parallel(&*model, parallel_events, sender);
                let mut commands = received_commands(&receiver);
                let ghost received = commands@;
                let ghost mut applied: Seq<Command> = Seq::empty();
                let tick = event_phase.get_context().tick_status_now();
                let micro_step = event_phase.get_context().micro_step_status_now();
                while commands.len() > 0
                    invariant
                        event_phase.context().tick_status() == tick_status,
                        event_phase.context().micro_step_status() == micro_step_status,
                        tick == tick_status,
                        micro_step == micro_step_status,
                        old(event_phase).context().tick_status() == tick_status,
                        old(event_phase).context().micro_step_status() == micro_step_status,
                        event_phase.ready() == Seq::<Event<E>>::empty(),
                        event_phase.handled() == handled0 + due.take(k),
                        event_phase.calls() == calls0 + event_calls(tick_status.current_tick, micro_step_status.current_micro_step, event_ids(due.take(k))),
                        applied + commands@ == received,
                    decreases commands@.len(),
                {
                    let command = commands.remove(0);
                    proof {
                        applied = applied.push(command);
                        assert(applied + commands@ =~= received);
                    }
                    model.apply_command(event_phase.get_context(), command);
                    event_phase.get_context().settle_at(tick, micro_step);
                }
                proof {
                    assert(applied =~= received);
                    assert(due =~= due.take(k) + due.skip(k));
                }
                return Ghost((due.take(k), parallel, received, applied));
            },
        }
    }
}

/// What the event phase of a micro-step of the parallel runner did: the events handed to the
/// model on the running thread and those handed to the parallel call, each as its id and
/// priority, in order; then the commands the parallel call returned and those applied to the
/// model, in order.
pub type SplitRecord<Command> = (Seq<(EventId, u64)>, Seq<(EventId, u64)>, Seq<Command>, Seq<Command>);

/// The id and priority of each event of `s`.
pub open spec fn id_priorities<E>(s: Seq<Event<E>>) -> Seq<(EventId, u64)> {
    s.map_values(|e: Event<E>| (e.event_id, e.priority.0))
}

/// The ids of `(id, priority)` pairs.
pub open spec fn split_ids(s: Seq<(EventId, u64)>) -> Seq<EventId> {
    s.map_values(|p: (EventId, u64)| p.0)
}

/// In the micro-step `step`, the events handed to the model on the running thread were the
/// leading handed events whose priority is at or above `threshold`, in order, the others went to
/// the parallel call, in order, and the commands it returned were applied once each, in order.
pub open spec fn split_at_threshold<Command>(split: SplitRecord<Command>, step: StepRecord, threshold: u64) -> bool {
    &&& split_ids(split.0) + split_ids(split.1) == step.3
    &&& split_ids(split.0) == step.5
    &&& forall|j: int| 0 <= j < split.0.len() ==> (#[trigger] split.0[j]).1 >= threshold
    &&& split.1.len() > 0 ==> split.1[0].1 < threshold
    &&& split.3 == split.2
}

/// The event phase of the micro-step in `handler` for the parallel runner: calls the
/// `before_event_phase` hook, hands the due events out as [`handle_events_split`] does, and calls
/// the `after_event_phase` hook. Returns the handler for the end of the micro-step with a record:
/// the ready queue of events when the phase began (time and id of each), the ids of the events
/// handed out, those of the events handed to the model on the running thread, and the split.
pub fn hand_due_events_split<E: Send, Command: Send, M: ParallelModel<E, Command> + Sync>(
    handler: MicroStepHandler<SourceStepContext<E, M>>,
    model: &mut M,
    threshold: EventPriority,
) -> (r: (MicroStepHandler<EventContext<E, M>>, Ghost<(Seq<(SimTime, EventId)>, Seq<EventId>, Seq<EventId>, SplitRecord<Command>)>))
    requires
        handler.context().handler().wf(),
        handler.context().handler().all_at_or_after(handler.context().source_context().tick_status().current_tick.0),
    ensures
        ({
            let c = handler.context().source_context();
            let tick = c.tick_status().current_tick;
            let micro_step = c.micro_step_status().current_micro_step;
            &&& r.1@.0 == queue_keys(c.scheduler().ready())
            &&& took_the_due(r.1@.0, r.1@.1, tick)
            &&& r.0.context().tick_status() == c.tick_status()
            &&& r.0.context().micro_step_status() == c.micro_step_status()
            &&& r.0.context().hooks().calls().len() > 0
            &&& r.0.context().hooks().calls().last() == (HookCall::AfterEventPhase { tick, micro_step })
            &&& split_ids(r.1@.3.0) == r.1@.2
            &&& split_ids(r.1@.3.0) + split_ids(r.1@.3.1) == r.1@.1
            &&& forall|j: int| 0 <= j < r.1@.3.0.len() ==> (#[trigger] r.1@.3.0[j]).1 >= threshold.0
            &&& r.1@.3.1.len() > 0 ==> r.1@.3.1[0].1 < threshold.0
            &&& r.1@.3.3 == r.1@.3.2
        }),
{
    let ghost c = handler.context().source_context();
    let ghost tick_status = c.tick_status();
    let ghost queue = c.scheduler().ready();
    let mut event_phase = handler.to_event_phase(&*model);
    let ghost due = event_phase.ready();
    let ghost rest = event_phase.context().scheduler().ready();
    let split = handle_events_split(&mut event_phase, model, threshold);
    proof {
        lemma_step_hands_due_events(queue, due, rest, tick_status.current_tick);
        assert(event_ids(due) =~= event_ids(split@.0) + event_ids(split@.1));
        assert(split_ids(id_priorities(split@.0)) =~= event_ids(split@.0));
        assert(split_ids(id_priorities(split@.1)) =~= event_ids(split@.1));
        assert(forall|j: int| 0 <= j < split@.0.len() ==> (#[trigger] id_priorities(split@.0)[j]).1 == split@.0[j].priority.0);
    }
    let next = event_phase.complete_event_phase(&*model);
    let ghost record = (
        queue_keys(queue),
        event_ids(due),
        event_ids(split@.0),
        (id_priorities(split@.0), id_priorities(split@.1), split@.2, split@.3),
    );
    (next, Ghost(record))
}

/// Runs the micro-steps of the begun tick of `active` like [`crate::execution::runner::run_micro_steps`],
/// with the events of each micro-step handled by [`hand_due_events_split`]. Returns also the split
/// of each micro-step.
pub fn run_parallel_micro_steps<E: Send, Command: Send, M: ParallelModel<E, Command> + Sync, CS: ContinueStrategy<E, M, ()>>(
    strategy: &mut CS,
    active: ActiveExecutorContext<E, M>,
    model: &mut M,
    threshold: EventPriority,
) -> (r: (ActiveExecutorContext<E, M>, Option<CS::Error>, Ghost<Seq<StepRecord>>, Ghost<(CS, MicroStep)>, Ghost<Seq<SplitRecord<Command>>>))
    requires
        active.micro_step_status().current_micro_step.0 == 0,
    ensures
        r.1 matches Some(e) ==> r.3@.0.aborts_at(r.3@.1) && e == r.3@.0.error_at(r.3@.1),
        r.0.tick_status() == active.tick_status(),
        r.1 is None ==> r.0.tick_finished(),
        old(strategy).never_aborts() ==> r.1 is None && final(strategy).never_aborts(),
        tick_hands_due_events((active.tick_status(), r.2@, r.1 is Some)),
        r.2@.len() > 0,
        r.2@[0].0 == firing_keys(active.handler().ready()),
        r.2@[0].2 == queue_keys(active.scheduler().ready()),
        r.4@.len() == r.2@.len(),
        forall|k: int| 0 <= k < r.2@.len() ==> split_at_threshold(#[trigger] r.4@[k], r.2@[k], threshold.0),
        r.0.micro_step_status().current_micro_step.0 == if r.1 is Some { r.2@.len() as int } else { r.2@.len() - 1 },
{
    let ghost tick_status = active.tick_status();
    let ghost mut steps: Seq<StepRecord> = Seq::empty();
    let ghost mut splits: Seq<SplitRecord<Command>> = Seq::empty();
    let mut current = active;
    loop
        invariant
            current.tick_status() == tick_status,
            active.tick_status() == tick_status,
            old(strategy).never_aborts() ==> strategy.never_aborts(),
            forall|k: int| 0 <= k < steps.len() ==> handed_the_due_events(#[trigger] steps[k], tick_status.current_tick, MicroStep(k as u64)),
            splits.len() == steps.len(),
            forall|k: int| 0 <= k < steps.len() ==> split_at_threshold(#[trigger] splits[k], steps[k], threshold.0),
            current.micro_step_status().current_micro_step.0 == steps.len(),
            steps.len() > 0 ==> steps[0].0 == firing_keys(active.handler().ready()) && steps[0].2 == queue_keys(active.scheduler().ready()),
            steps.len() == 0 ==> current == active,
        decreases u64::MAX - current.micro_step_status().current_micro_step.0,
    {
        proof {
            use_type_invariant(&current);
        }
        let micro_step_handler = current.begin_micro_step(&*model);
        let (micro_step_handler, Ghost(sources)) = fire_due_sources(micro_step_handler, &*model);
        let (micro_step_handler, Ghost(events)) = hand_due_events_split(micro_step_handler, model, threshold);
        let (decision, Ghost(extra), Ghost(deciding)) = end_step(micro_step_handler, strategy, &*model);
        let ghost record: StepRecord = (sources.0, sources.1, events.0, events.1, sources.2, events.2, extra);
        proof {
            steps = steps.push(record);
            splits = splits.push(events.3);
        }
        match decision {
            Ok(next_active) => {
                current = next_active;
            },
            Err((next_active, error)) => {
                return (next_active, error, Ghost(steps), Ghost(deciding), Ghost(splits));
            },
        }
    }
}

impl<E: Send, Command: Send, M: ParallelModel<E, Command> + Sync, CS: ContinueStrategy<E, M, ()>> Runner<E, M, CS> for ParallelRunner<Command, CS> {
    /// The runner's strategy never ends a run.
    open spec fn never_aborts(&self) -> bool {
        self.strategy().never_aborts()
    }

    closed spec fn last_run(&self) -> Seq<TickRecord> {
        self.log@
    }

    closed spec fn last_abort(&self) -> (CS, MicroStep) {
        self.abort@
    }

    closed spec fn last_run_registrations(&self) -> Seq<(SourceId, Option<Duration>)> {
        self.registrations@
    }

    closed spec fn last_run_calls(&self) -> Seq<HookCall> {
        self.calls@
    }

    closed spec fn last_run_queries(&self) -> Seq<TickStatus> {
        self.queries@
    }

    /// Runs the simulation of `engine` on `model` as [`Runner::run`] says; in each micro-step,
    /// the events are split between the running thread and the parallel call at the threshold
    /// (see [`split_at_threshold`]).
    #[verifier::loop_isolation(false)]
    fn run<F>(&mut self, engine: Engine<E, M>, model: M, mut should_stop: F) -> (r: SimulationResult<M, CS::Error>)
        where
            F: FnMut(&M, ExecutorStatus, TickStatus) -> bool,
        ensures
            final(self).skips() == old(self).skips(),
            final(self).threshold() == old(self).threshold(),
            log_next_ticks(final(self).last_run(), old(self).skips()),
            !old(self).skips() ==> forall|i: int| 0 <= i < final(self).last_run().len() ==> (#[trigger] final(self).last_run()[i]).0.current_tick.0 == i
                && final(self).last_run()[i].0.skipped.0 == 0,
            final(self).last_run_splits().len() == final(self).last_run().len(),
            forall|i: int| 0 <= i < final(self).last_run().len() ==> (#[trigger] final(self).last_run_splits()[i]).len() == final(self).last_run()[i].1.len(),
            forall|i: int, k: int| 0 <= i < final(self).last_run().len() && 0 <= k < final(self).last_run()[i].1.len() ==> split_at_threshold(
                #[trigger] final(self).last_run_splits()[i][k],
                final(self).last_run()[i].1[k],
                old(self).threshold().0,
            ),
    {
        let mut model = model;
        let ghost stop0 = should_stop;
        let ghost names = engine.handler().names();
        let ghost awaiting = engine.handler().awaiting();
        let ghost threshold = self.sync_priority_threshold.0;
        let mut executor = engine.begin_simulation(&model);
        proof {
            self.log@ = Seq::empty();
            self.queries@ = Seq::empty();
            assert(log_statuses(self.log@) =~= Seq::<TickStatus>::empty());
            self.splits@ = Seq::empty();
            self.registrations@ = executor.registrations();
            self.calls@ = seq![HookCall::BeforeSimulation] + registration_calls(executor.registrations(), names);
        }
        let ghost mut processed = false;
        loop
            invariant
                !processed ==> executor.last_tick().0 == 0 && executor.upcoming() == (TickStatus { current_tick: SimTime(0), skipped: Duration(0) }),
                processed ==> executor.upcoming().current_tick.0 > executor.last_tick().0 && declined_at(stop0, executor.last_tick()),
                !processed <==> self.log@.len() == 0,
                executor.last_tick() == log_last_tick(self.log@),
                log_hands_due_events(self.log@),
                self.queries@ == log_statuses(self.log@),
                forall|i: int| 0 <= i < self.log@.len() ==> !(#[trigger] self.log@[i]).2,
                forall|i: int| 0 <= i < self.log@.len() ==> declined_tick(stop0, #[trigger] self.log@[i].0),
                self.skippable == old(self).skippable,
                self.sync_priority_threshold.0 == threshold,
                old(self).threshold().0 == threshold,
                self.registrations@.len() == awaiting.len(),
                forall|k: int| 0 <= k < self.registrations@.len() ==> (#[trigger] self.registrations@[k]).0 == awaiting[k],
                self.calls@ == seq![HookCall::BeforeSimulation] + registration_calls(self.registrations@, names) + run_calls(self.log@),
                log_next_ticks(self.log@, self.skippable),
                processed ==> executor.upcoming() == if self.skippable {
                    jump_target(self.log@.last().0.current_tick.0, executor.handler().next_time(), executor.scheduler().next_time())
                } else {
                    TickStatus { current_tick: SimTime((self.log@.last().0.current_tick.0 + 1) as u64), skipped: Duration(0) }
                },
                !self.skippable ==> forall|i: int| 0 <= i < self.log@.len() ==> (#[trigger] self.log@[i]).0.current_tick.0 == i && self.log@[i].0.skipped.0 == 0,
                self.splits@.len() == self.log@.len(),
                forall|i: int| 0 <= i < self.log@.len() ==> (#[trigger] self.splits@[i]).len() == self.log@[i].1.len(),
                forall|i: int, k: int| 0 <= i < self.log@.len() && 0 <= k < self.log@[i].1.len() ==> split_at_threshold(
                    #[trigger] self.splits@[i][k],
                    self.log@[i].1[k],
                    threshold,
                ),
                should_stop == stop0,
                forall|m: &M, s: ExecutorStatus, t: TickStatus| call_requires(should_stop, (m, s, t)),
                executor.ready_for_next_tick(),
                old(self).strategy().never_aborts() ==> self.strategy().never_aborts(),
            decreases u64::MAX - executor.upcoming().current_tick.0,
        {
            let (executor_status, tick_status) = executor.peek_next_tick();
            let ghost earlier_queries = self.queries@;
            proof {
                self.queries@ = self.queries@.push(tick_status);
            }
            if should_stop(&model, executor_status, tick_status) {
                proof {
                    assert(call_ensures(stop0, (&model, executor_status, tick_status), true));
                    assert(self.queries@.take(self.log@.len() as int) =~= log_statuses(self.log@));
                }
                let ghost stopped_model = model;
                let (result, Ghost(final_calls)) = executor.finish_ok(model);
                proof {
                    assert(call_ensures(should_stop, (&stopped_model, executor_status, self.queries@.last()), true));
                    assert(final_calls.last() == (HookCall::AfterSimulation { end_tick: log_last_tick(self.log@) }));
                    self.calls@ = self.calls@.push(HookCall::AfterSimulation { end_tick: log_last_tick(self.log@) });
                }
                return result;
            }
            let ghost model_then = model;
            proof {
                assert(call_ensures(stop0, (&model_then, executor_status, tick_status), false));
            }
            let ghost upcoming = executor.upcoming();
            let ghost before_tick = executor;
            let active = executor.begin_tick(&model);
            proof {
                assert(active.hooks().calls().last() == (HookCall::BeforeTick { tick: upcoming.current_tick, skipped: upcoming.skipped }));
                let h = before_tick.handler();
                let q = before_tick.scheduler();
                assert(h.ready().len() > 0 ==> firing_keys(h.ready())[0].0 == h.ready()[0].scheduled_at);
                assert(q.ready().len() > 0 ==> queue_keys(q.ready())[0].0 == q.ready()[0].scheduled_at);
            }
            let (active, runner_error, Ghost(steps), Ghost(decision), Ghost(tick_splits)) = run_parallel_micro_steps(
                &mut self.continue_strategy,
                active,
                &mut model,
                self.sync_priority_threshold,
            );
            let at_last_tick = active.current_tick_status().current().0 == u64::MAX;
            let ghost ended = active;
            executor = end_tick(active, &model, self.skippable);
            proof {
                assert(executor.hooks().calls().last() == (HookCall::AfterTick {
                    tick: upcoming.current_tick,
                    last_micro_step: ended.micro_step_status().current_micro_step,
                }));
                assert(call_ensures(stop0, (&model_then, executor_status, upcoming), false));
                let record: TickRecord = (upcoming, steps, runner_error is Some);
                let earlier = self.log@;
                let earlier_splits = self.splits@;
                self.log@ = self.log@.push(record);
                assert(log_statuses(self.log@) =~= log_statuses(earlier).push(upcoming));
                assert(self.queries@.take(self.log@.len() as int) =~= self.queries@);
                self.splits@ = self.splits@.push(tick_splits);
                assert(self.log@.drop_last() =~= earlier);
                self.calls@ = self.calls@ + tick_calls(record);
                assert(self.calls@ =~= seq![HookCall::BeforeSimulation] + registration_calls(self.registrations@, names) + run_calls(self.log@));
                if earlier.len() > 0 {
                    assert(first_time(steps[0].0) == before_tick.handler().next_time());
                    assert(first_time(steps[0].2) == before_tick.scheduler().next_time());
                }
                assert forall|i: int, k: int| 0 <= i < self.log@.len() && 0 <= k < self.log@[i].1.len() implies split_at_threshold(
                    #[trigger] self.splits@[i][k],
                    self.log@[i].1[k],
                    threshold,
                ) by {
                    if i < earlier.len() {
                        assert(self.splits@[i] == earlier_splits[i]);
                        assert(self.log@[i] == earlier[i]);
                    }
                }
            }
            match runner_error {
                Some(error) => {
                    proof {
                        self.abort@ = decision;
                    }
                    let (result, Ghost(final_calls)) = executor.finish_error(model, error);
                    proof {
                        self.calls@ = self.calls@.push(HookCall::AfterSimulation { end_tick: log_last_tick(self.log@) });
                    }
                    return result;
                },
                None => {},
            }
            if at_last_tick {
                let (result, Ghost(final_calls)) = executor.finish_ok(model);
                proof {
                    self.calls@ = self.calls@.push(HookCall::AfterSimulation { end_tick: log_last_tick(self.log@) });
                }
                return result;
            }
            proof {
                processed = true;
            }
        }
    }
}

} // verus!
