//! Runners: they drive a simulation from an engine and a model, tick by tick, until told to
//! stop.
pub mod instance;

use crate::context::{jump_target, ActiveExecutorContext, ExecutorContext, ExecutorStatus};
use crate::context::EventContext;
use crate::execution::phase::{MicroStepHandler, MicroStepResult, SourceStepContext};
use crate::execution::strategy::ContinueStrategy;
use crate::event_scheduler::{ScheduledEvent, as_events};
use crate::execution::registration_calls;
use crate::execution::{Engine, SimulationResult};
use crate::modeling::event::Event;
use crate::modeling::hook::instance::HookCall;
use crate::primitive::id::{EventId, SourceId};
use crate::source_handler::{as_entries, ScheduledSource, SourceReadyEntry, SourceView};
use crate::modeling::model::Model;
use crate::primitive::time::{MicroStep, done_ticks, Duration, SimTime, TickStatus, TimeTick};
use vstd::prelude::*;

verus! {

broadcast use crate::modeling::hook::instance::lemma_recorded;

/// What a micro-step did:
/// - `.0`: the ready queue of source firings when the source phase began, as the time and source
///   id of each firing; `.1`: the ids of the sources fired, in order;
/// - `.2`: the ready queue of scheduled events when the event phase began, as the time and id of
///   each event; `.3`: the ids of the events handed to the model, in the order they were handed
///   over;
/// - `.4`: the hook calls made for the fired sources, in order;
/// - `.5`: the ids of the events handed to the model on the running thread, between the
///   `before_event` and `after_event` hooks, in order;
/// - `.6`: the hook call made after `after_micro_step` when the work left at the tick was
///   discarded (`on_discard_remain_micro_step`), or none.
pub type StepRecord = (Seq<(SimTime, SourceId)>, Seq<SourceId>, Seq<(SimTime, EventId)>, Seq<EventId>, Seq<HookCall>, Seq<EventId>, Seq<HookCall>);

/// A tick processed by a run: its status, what each of its micro-steps did, and whether the
/// strategy ended the run at the end of its last micro-step.
pub type TickRecord = (TickStatus, Seq<StepRecord>, bool);

/// The `before_event` and `after_event` calls for the events `ids`, in order, at `tick` and
/// `micro_step`.
pub open spec fn event_calls(tick: SimTime, micro_step: MicroStep, ids: Seq<EventId>) -> Seq<HookCall>
    decreases ids.len(),
{
    if ids.len() == 0 {
        Seq::empty()
    } else {
        event_calls(tick, micro_step, ids.drop_last()).push(HookCall::BeforeEvent { tick, micro_step, event: ids.last() }).push(
            HookCall::AfterEvent { tick, micro_step, event: ids.last() },
        )
    }
}

/// `calls` is, for each source of `ids` in order, a `before_source` and an `after_source` call
/// for that source at `tick` and `micro_step`.
pub open spec fn source_calls_for(calls: Seq<HookCall>, tick: SimTime, micro_step: MicroStep, ids: Seq<SourceId>) -> bool
    decreases ids.len(),
{
    if ids.len() == 0 {
        calls.len() == 0
    } else {
        &&& calls.len() >= 2
        &&& source_calls_for(calls.take(calls.len() - 2), tick, micro_step, ids.drop_last())
        &&& calls[calls.len() - 2] matches HookCall::BeforeSource { tick: t, micro_step: m, source } && t == tick && m == micro_step
            && source.source_id == ids.last()
        &&& calls[calls.len() - 1] matches HookCall::AfterSource { tick: t, micro_step: m, source, .. } && t == tick && m == micro_step
            && source.source_id == ids.last()
    }
}

/// The hook calls the library made in a micro-step `micro_step` of `tick` that did `step`.
pub open spec fn step_calls(tick: SimTime, micro_step: MicroStep, step: StepRecord) -> Seq<HookCall> {
    seq![HookCall::BeforeMicroStep { tick, micro_step }, HookCall::BeforeSourcePhase { tick, micro_step }] + step.4 + seq![
        HookCall::AfterSourcePhase { tick, micro_step },
        HookCall::BeforeEventPhase { tick, micro_step },
    ] + event_calls(tick, micro_step, step.5) + seq![HookCall::AfterEventPhase { tick, micro_step }, HookCall::AfterMicroStep { tick, micro_step }]
        + step.6
}

/// The hook calls the library made in the micro-steps `steps` of `tick`, the first being
/// micro-step 0.
pub open spec fn steps_calls(tick: SimTime, steps: Seq<StepRecord>) -> Seq<HookCall>
    decreases steps.len(),
{
    if steps.len() == 0 {
        Seq::empty()
    } else {
        steps_calls(tick, steps.drop_last()) + step_calls(tick, MicroStep((steps.len() - 1) as u64), steps.last())
    }
}

/// The hook calls the library made in the tick `record`: `before_tick`, those of its micro-steps,
/// and `after_tick` with the micro-step the tick ended at (the one after the last, for a tick the
/// strategy ended).
pub open spec fn tick_calls(record: TickRecord) -> Seq<HookCall> {
    let tick = record.0.current_tick;
    let last = if record.2 {
        record.1.len()
    } else {
        (record.1.len() - 1) as nat
    };
    seq![HookCall::BeforeTick { tick, skipped: record.0.skipped }] + steps_calls(tick, record.1) + seq![
        HookCall::AfterTick { tick, last_micro_step: MicroStep(last as u64) },
    ]
}

/// The hook calls the library made in the ticks of `log`, in order.
pub open spec fn run_calls(log: Seq<TickRecord>) -> Seq<HookCall>
    decreases log.len(),
{
    if log.len() == 0 {
        Seq::empty()
    } else {
        run_calls(log.drop_last()) + tick_calls(log.last())
    }
}

/// The hook calls the library made over a run that began with the registration calls
/// `registrations` of sources named in `names` and processed the ticks of `log`:
/// `before_simulation`, a `before_register_source`/`after_register_source` pair for each source,
/// the calls of each tick in order, and `after_simulation` with the tick processed last.
pub open spec fn lifecycle_calls(registrations: Seq<(SourceId, Option<Duration>)>, names: Seq<&'static str>, log: Seq<TickRecord>) -> Seq<HookCall> {
    seq![HookCall::BeforeSimulation] + registration_calls(registrations, names) + run_calls(log) + seq![
        HookCall::AfterSimulation { end_tick: log_last_tick(log) },
    ]
}

/// A run's hook calls begin with `before_simulation` and end with `after_simulation` at the tick
/// it processed last; those of each tick it processed begin with `before_tick` and end with
/// `after_tick`, both at that tick.
pub proof fn law_lifecycle_bracketed(registrations: Seq<(SourceId, Option<Duration>)>, names: Seq<&'static str>, log: Seq<TickRecord>, i: int)
    requires
        0 <= i < log.len(),
    ensures
        lifecycle_calls(registrations, names, log)[0] == HookCall::BeforeSimulation,
        lifecycle_calls(registrations, names, log).last() == (HookCall::AfterSimulation { end_tick: log_last_tick(log) }),
        tick_calls(log[i])[0] == (HookCall::BeforeTick { tick: log[i].0.current_tick, skipped: log[i].0.skipped }),
        tick_calls(log[i]).last() matches HookCall::AfterTick { tick, .. } && tick == log[i].0.current_tick,
{
}

/// The first time in a queue of `(time, key)` entries, if any.
pub open spec fn first_time<K>(q: Seq<(SimTime, K)>) -> Option<SimTime> {
    if q.len() > 0 {
        Some(q[0].0)
    } else {
        None
    }
}

/// The time and id of each event of `q`.
pub open spec fn queue_keys<E>(q: Seq<ScheduledEvent<E>>) -> Seq<(SimTime, EventId)> {
    q.map_values(|x: ScheduledEvent<E>| (x.scheduled_at, x.event.event_id))
}

/// The time and source id of each firing of `q`.
pub open spec fn firing_keys(q: Seq<ScheduledSource>) -> Seq<(SimTime, SourceId)> {
    q.map_values(|x: ScheduledSource| (x.scheduled_at, x.entry.source_id))
}

/// The ids of the events of `s`.
pub open spec fn event_ids<E>(s: Seq<Event<E>>) -> Seq<EventId> {
    s.map_values(|e: Event<E>| e.event_id)
}

/// The ids of the sources fired, as recorded by a source phase.
pub open spec fn fired_ids(s: Seq<(SourceId, Option<Duration>)>) -> Seq<SourceId> {
    s.map_values(|f: (SourceId, Option<Duration>)| f.0)
}

/// The keys of the entries of `q`.
pub open spec fn key_ids<K>(q: Seq<(SimTime, K)>) -> Seq<K> {
    q.map_values(|k: (SimTime, K)| k.1)
}

/// `taken` is exactly the entries of `queue` due at `tick`, in queue order, and every other
/// entry of `queue` is due later.
pub open spec fn took_the_due<K>(queue: Seq<(SimTime, K)>, taken: Seq<K>, tick: SimTime) -> bool {
    exists|n: int| #![trigger queue.take(n)] {
        &&& 0 <= n <= queue.len()
        &&& taken == key_ids(queue.take(n))
        &&& forall|i: int| 0 <= i < n ==> (#[trigger] queue[i]).0 == tick
        &&& forall|i: int| n <= i < queue.len() ==> (#[trigger] queue[i]).0.0 > tick.0
    }
}

/// In the micro-step `micro_step`, the sources fired were exactly those due at `tick`, in queue
/// order, each between a `before_source` and an `after_source` call, and the model was handed
/// exactly the events due at `tick`, in queue order; at most an `on_discard_remain_micro_step`
/// call followed the micro-step.
pub open spec fn handed_the_due_events(step: StepRecord, tick: SimTime, micro_step: MicroStep) -> bool {
    &&& took_the_due(step.0, step.1, tick)
    &&& took_the_due(step.2, step.3, tick)
    &&& source_calls_for(step.4, tick, micro_step, step.1)
    &&& step.6.len() <= 1
    &&& step.6.len() == 1 ==> step.6[0] is OnDiscardRemainMicroStep
}

/// Every micro-step of a tick fired the sources and handed the model the events due at the
/// tick, and the tick took at least one micro-step.
pub open spec fn tick_hands_due_events(record: TickRecord) -> bool {
    &&& record.1.len() > 0
    &&& forall|k: int| 0 <= k < record.1.len() ==> handed_the_due_events(#[trigger] record.1[k], record.0.current_tick, MicroStep(k as u64))
}

/// Every tick of `log` fired the sources and handed the model the events due at it, in every
/// micro-step, and the ticks come in increasing order; only the last tick can have been ended by
/// the strategy.
pub open spec fn log_hands_due_events(log: Seq<TickRecord>) -> bool {
    &&& forall|i: int| 0 <= i < log.len() ==> tick_hands_due_events(#[trigger] log[i])
    &&& forall|i: int, j: int| 0 <= i < j < log.len() ==> (#[trigger] log[i]).0.current_tick.0 < (#[trigger] log[j]).0.current_tick.0
    &&& forall|i: int| 0 <= i < log.len() - 1 ==> !(#[trigger] log[i]).2
}

/// Each tick of `log` after the first is the one after the tick before it (`skips` false) or the
/// jump target from it (`skips` true): the earliest tick at which a source firing or an event was
/// queued when the tick before it ended, which is what the first micro-step of the tick found in
/// the queues.
pub open spec fn log_next_ticks(log: Seq<TickRecord>, skips: bool) -> bool {
    forall|i: int| 0 <= i < log.len() - 1 ==> #[trigger] log[i + 1].0 == if skips {
        jump_target(log[i].0.current_tick.0, first_time(log[i + 1].1[0].0), first_time(log[i + 1].1[0].2))
    } else {
        TickStatus { current_tick: SimTime((log[i].0.current_tick.0 + 1) as u64), skipped: Duration(0) }
    }
}

/// The status of each tick of `log`, in order.
pub open spec fn log_statuses(log: Seq<TickRecord>) -> Seq<TickStatus> {
    log.map_values(|record: TickRecord| record.0)
}

/// `should_stop` was asked about `queries`, in order: about each tick of `log` before it was
/// processed, and at most once more, about the tick after the last.
pub open spec fn asked_before_each_tick(queries: Seq<TickStatus>, log: Seq<TickRecord>) -> bool {
    &&& log.len() <= queries.len() <= log.len() + 1
    &&& queries.take(log.len() as int) == log_statuses(log)
}

/// The tick a run with the record `log` processed last: that of its last record, or tick 0 when
/// it processed none.
pub open spec fn log_last_tick(log: Seq<TickRecord>) -> SimTime {
    if log.len() > 0 {
        log.last().0.current_tick
    } else {
        SimTime(0)
    }
}

/// The source phase of the micro-step begun in `handler`: calls the `before_source_phase` hook,
/// fires every source firing due at the tick, in queue order, and calls the `after_source_phase`
/// hook. Returns the handler for the event phase with a record: the ready queue of firings when
/// the phase began (time and source id of each), the ids of the sources fired, and the
/// `before_source`/`after_source` calls made for them.
pub fn fire_due_sources<E, M: Model<E>>(
    handler: MicroStepHandler<ActiveExecutorContext<E, M>>,
    model: &M,
) -> (r: (MicroStepHandler<SourceStepContext<E, M>>, Ghost<(Seq<(SimTime, SourceId)>, Seq<SourceId>, Seq<HookCall>)>))
    requires
        handler.context().handler().wf(),
    ensures
        ({
            let a = handler.context();
            let tick = a.tick_status().current_tick;
            let micro_step = a.micro_step_status().current_micro_step;
            let c = r.0.context().source_context();
            &&& r.1@.0 == firing_keys(a.handler().ready())
            &&& took_the_due(r.1@.0, r.1@.1, tick)
            &&& source_calls_for(r.1@.2, tick, micro_step, r.1@.1)
            &&& c.tick_status() == a.tick_status()
            &&& c.micro_step_status() == a.micro_step_status()
            &&& c.scheduler().ready() == a.scheduler().ready()
            &&& c.hooks().count() == a.hooks().count()
            &&& c.hooks().calls() == a.hooks().calls() + seq![HookCall::BeforeSourcePhase { tick, micro_step }] + r.1@.2 + seq![
                HookCall::AfterSourcePhase { tick, micro_step },
            ]
            &&& r.0.context().handler().wf()
            &&& r.0.context().handler().all_at_or_after(tick.0)
        }),
{
    let ghost a = handler.context();
    let ghost tick = a.tick_status().current_tick;
    let ghost step = a.micro_step_status();
    let ghost source_queue = a.handler().ready();
    let mut source_phase = handler.start_source_phase(model);
    let ghost due_sources = source_phase.ready();
    let ghost source_rest = source_phase.handler().ready();
    let ghost count = source_phase.handler().count();
    let ghost calls0 = source_phase.context().hooks().calls();
    let ghost mut source_calls: Seq<HookCall> = Seq::empty();
    proof {
        lemma_step_fires_due_sources(source_queue, due_sources, source_rest, tick);
        assert forall|i: int| 0 <= i < due_sources.len() implies (#[trigger] due_sources[i]).source_id.0 < count by {
            assert(due_sources[i] == source_queue[i].entry);
        }
    }
    loop
        invariant
            tick == a.tick_status().current_tick,
            source_phase.wf(),
            source_phase.context().tick_status() == a.tick_status(),
            source_phase.context().micro_step_status() == step,
            source_phase.context().scheduler().ready() == a.scheduler().ready(),
            source_phase.context().hooks().count() == a.hooks().count(),
            source_phase.context().hooks().calls() == calls0 + source_calls,
            calls0 == a.hooks().calls().push(HookCall::BeforeSourcePhase { tick, micro_step: step.current_micro_step }),
            source_calls_for(source_calls, tick, step.current_micro_step, fired_ids(source_phase.fired())),
            source_phase.handler().count() == count,
            source_phase.handler().all_at_or_after(tick.0),
            fired_ids(source_phase.fired()) + source_phase.ready().map_values(|e: SourceReadyEntry| e.source_id)
                == due_sources.map_values(|e: SourceReadyEntry| e.source_id),
            forall|i: int| 0 <= i < source_phase.ready().len() ==> (#[trigger] source_phase.ready()[i]).source_id.0 < count,
        ensures
            source_phase.wf(),
            source_phase.context().tick_status() == a.tick_status(),
            source_phase.context().micro_step_status() == step,
            source_phase.context().scheduler().ready() == a.scheduler().ready(),
            source_phase.context().hooks().count() == a.hooks().count(),
            source_phase.context().hooks().calls() == calls0 + source_calls,
            source_calls_for(source_calls, tick, step.current_micro_step, fired_ids(source_phase.fired())),
            fired_ids(source_phase.fired()) == due_sources.map_values(|e: SourceReadyEntry| e.source_id),
            source_phase.handler().all_at_or_after(tick.0),
        decreases source_phase.ready().len(),
    {
        let ghost before = source_phase.ready();
        let ghost fired_before = source_phase.fired();
        let ghost calls_before = source_calls;
        match source_phase.take_one() {
            Some(source_ready) => {
                let ghost hooks_before = source_phase.context().hooks();
                source_phase.fire_and_schedule(model, source_ready);
                proof {
                    let view = SourceView { source_id: source_ready.source_id, name: source_ready.name };
                    let b = HookCall::BeforeSource { tick, micro_step: step.current_micro_step, source: view };
                    let after = source_phase.context().hooks().calls().last();
                    assert(source_phase.context().hooks().calls() == hooks_before.calls().push(b).push(after));
                    source_calls = source_calls.push(b).push(after);
                    assert(source_phase.context().hooks().calls() =~= calls0 + source_calls);
                    assert(source_calls.take(source_calls.len() - 2) =~= calls_before);
                    assert(fired_ids(source_phase.fired()) =~= fired_ids(fired_before).push(source_ready.source_id));
                    assert(fired_ids(source_phase.fired()).drop_last() =~= fired_ids(fired_before));
                    assert(before.map_values(|e: SourceReadyEntry| e.source_id) =~= seq![source_ready.source_id]
                        + source_phase.ready().map_values(|e: SourceReadyEntry| e.source_id));
                    assert(fired_ids(source_phase.fired()) + source_phase.ready().map_values(|e: SourceReadyEntry| e.source_id)
                        =~= due_sources.map_values(|e: SourceReadyEntry| e.source_id));
                    assert forall|i: int| 0 <= i < source_phase.ready().len() implies (#[trigger] source_phase.ready()[i]).source_id.0 < count by {
                        assert(source_phase.ready()[i] == before[i + 1]);
                    }
                }
            },
            None => {
                proof {
                    assert(fired_ids(source_phase.fired()) =~= due_sources.map_values(|e: SourceReadyEntry| e.source_id));
                }
                break;
            },
        }
    }
    let ghost fired = fired_ids(source_phase.fired());
    let next = source_phase.complete_source_phase(model);
    proof {
        assert(next.context().source_context().hooks().calls() =~= a.hooks().calls()
            + seq![HookCall::BeforeSourcePhase { tick, micro_step: step.current_micro_step }] + source_calls
            + seq![HookCall::AfterSourcePhase { tick, micro_step: step.current_micro_step }]);
    }
    (next, Ghost((firing_keys(source_queue), fired, source_calls)))
}

/// The event phase of the micro-step in `handler`: calls the `before_event_phase` hook, hands
/// every event due at the tick to the model, in queue order, each between the `before_event`
/// and `after_event` hooks, and calls the `after_event_phase` hook. Returns the handler for the
/// end of the micro-step with a record: the ready queue of events when the phase began (time and
/// id of each), and the ids of the events handed to the model, in order.
pub fn hand_due_events<E, M: Model<E>>(
    handler: MicroStepHandler<SourceStepContext<E, M>>,
    model: &mut M,
) -> (r: (MicroStepHandler<EventContext<E, M>>, Ghost<(Seq<(SimTime, EventId)>, Seq<EventId>)>))
    requires
        handler.context().handler().wf(),
        handler.context().handler().all_at_or_after(handler.context().source_context().tick_status().current_tick.0),
    ensures
        ({
            let c = handler.context().source_context();
            let tick = c.tick_status().current_tick;
            let micro_step = c.micro_step_status().current_micro_step;
            &&& r.1@.0 == queue_keys(c.scheduler().ready())
            &&& took_the_due(r.1@.0, r.1@.1, tick)
            &&& r.0.context().tick_status() == c.tick_status()
            &&& r.0.context().micro_step_status() == c.micro_step_status()
            &&& r.0.context().hooks().calls().len() > 0
            &&& r.0.context().hooks().calls().last() == (HookCall::AfterEventPhase { tick, micro_step })
        }),
{
    let ghost c = handler.context().source_context();
    let ghost tick_status = c.tick_status();
    let ghost step = c.micro_step_status();
    let ghost queue = c.scheduler().ready();
    let mut event_phase = handler.to_event_phase(model);
    let ghost due = event_phase.ready();
    let ghost rest = event_phase.context().scheduler().ready();
    loop
        invariant
            event_phase.context().tick_status() == tick_status,
            event_phase.context().micro_step_status() == step,
            event_phase.handled() + event_phase.ready() == due,
            event_phase.calls() == event_calls(tick_status.current_tick, step.current_micro_step, event_ids(event_phase.handled())),
        ensures
            event_phase.context().tick_status() == tick_status,
            event_phase.context().micro_step_status() == step,
            event_phase.handled() == due,
            event_phase.calls() == event_calls(tick_status.current_tick, step.current_micro_step, event_ids(event_phase.handled())),
        decreases event_phase.ready().len(),
    {
        let ghost handled_before = event_phase.handled();
        match event_phase.take_one() {
            Some(event_ready) => {
                event_phase.handle_event(model, event_ready);
                proof {
                    assert(event_phase.handled() + event_phase.ready() =~= due);
                    assert(event_ids(event_phase.handled()) =~= event_ids(handled_before).push(event_ready.event_id));
                    assert(event_ids(event_phase.handled()).drop_last() =~= event_ids(handled_before));
                }
            },
            None => {
                proof {
                    assert(event_phase.handled() =~= due);
                }
                break;
            },
        }
    }
    proof {
        lemma_step_hands_due_events(queue, due, rest, tick_status.current_tick);
    }
    let ghost handed = event_ids(event_phase.handled());
    let next = event_phase.complete_event_phase(model);
    (next, Ghost((queue_keys(queue), handed)))
}

/// Ends the micro-step in `handler` and, when the tick has more to do, asks `strategy` whether it
/// may go on. Returns the context to go on with (`Continue`), or the context at the end of the
/// tick with the strategy's error if it ended the run, with the record of the hook call made
/// after `after_micro_step` (an `on_discard_remain_micro_step` call, or none) and the decision
/// that ended the run.
pub fn end_step<E, M: Model<E>, CS: ContinueStrategy<E, M, ()>>(
    handler: MicroStepHandler<EventContext<E, M>>,
    strategy: &mut CS,
    model: &M,
) -> (r: (Result<ActiveExecutorContext<E, M>, (ActiveExecutorContext<E, M>, Option<CS::Error>)>, Ghost<Seq<HookCall>>, Ghost<(CS, MicroStep)>))
    ensures
        ({
            let c = handler.context();
            let micro_step = c.micro_step_status().current_micro_step;
            &&& r.1@.len() <= 1
            &&& r.1@.len() == 1 ==> r.1@[0] is OnDiscardRemainMicroStep
            &&& old(strategy).never_aborts() ==> final(strategy).never_aborts() && (r.0 is Ok || r.0->Err_0.1 is None)
            &&& r.0 matches Ok(a) ==> a.tick_status() == c.tick_status() && micro_step.0 < u64::MAX
                && a.micro_step_status().current_micro_step.0 == micro_step.0 + 1
            &&& r.0 matches Err(p) ==> p.0.tick_status() == c.tick_status()
                && (p.1 is None ==> p.0.tick_finished() && p.0.micro_step_status().current_micro_step == micro_step)
                && (p.1 is Some ==> micro_step.0 < u64::MAX && p.0.micro_step_status().current_micro_step.0 == micro_step.0 + 1)
            &&& r.0 matches Err(p) ==> (p.1 matches Some(e) ==> r.2@.0.aborts_at(r.2@.1) && e == r.2@.0.error_at(r.2@.1))
        }),
{
    let ghost c = handler.context();
    let ghost after = c.hooks().recorded(HookCall::AfterMicroStep {
        tick: c.tick_status().current_tick,
        micro_step: c.micro_step_status().current_micro_step,
    });
    match handler.end_micro_step(model) {
        MicroStepResult::Continue(unchecked) => {
            let ghost deciding = (*strategy, unchecked.ended_micro_step());
            let ghost u = unchecked.executor();
            match strategy.handle_micro_step_continue(model, unchecked) {
                Ok(next_active) => {
                    let ghost extra = if next_active == u { Seq::<HookCall>::empty() } else { seq![next_active.hooks().calls().last()] };
                    (Ok(next_active), Ghost(extra), Ghost(deciding))
                },
                Err((next_active, error)) => {
                    let ghost extra = if next_active == u { Seq::<HookCall>::empty() } else { seq![next_active.hooks().calls().last()] };
                    (Err((next_active, Some(error))), Ghost(extra), Ghost(deciding))
                },
            }
        },
        MicroStepResult::Complete(next_active, _) => {
            let ghost extra = if next_active.hooks() == after { Seq::<HookCall>::empty() } else { seq![next_active.hooks().calls().last()] };
            (Err((next_active, None)), Ghost(extra), Ghost(arbitrary()))
        },
    }
}

/// Runs the micro-steps of the begun tick of `active`: each fires the due sources, hands the due
/// events to the model and, when the tick has more to do, asks `strategy` whether it may go on.
/// Returns the context at the end of the tick with the strategy's error if it ended the run,
/// the record of each micro-step, and the decision that ended the run.
pub fn run_micro_steps<E, M: Model<E>, CS: ContinueStrategy<E, M, ()>>(
    strategy: &mut CS,
    active: ActiveExecutorContext<E, M>,
    model: &mut M,
) -> (r: (ActiveExecutorContext<E, M>, Option<CS::Error>, Ghost<Seq<StepRecord>>, Ghost<(CS, MicroStep)>))
    requires
        active.micro_step_status().current_micro_step.0 == 0,
    ensures
        r.1 matches Some(e) ==> r.3@.0.aborts_at(r.3@.1) && e == r.3@.0.error_at(r.3@.1),
        r.0.tick_status() == active.tick_status(),
        r.1 is None ==> r.0.tick_finished(),
        old(strategy).never_aborts() ==> r.1 is None && final(strategy).never_aborts(),
        tick_hands_due_events((active.tick_status(), r.2@, r.1 is Some)),
        r.2@.len() > 0,
        r.2@[0].0 == firing_keys(active.handler().ready()),
        r.2@[0].2 == queue_keys(active.scheduler().ready()),
        forall|k: int| 0 <= k < r.2@.len() ==> (#[trigger] r.2@[k]).5 == r.2@[k].3,
        r.0.micro_step_status().current_micro_step.0 == if r.1 is Some { r.2@.len() as int } else { r.2@.len() - 1 },
{
    let ghost tick_status = active.tick_status();
    let ghost mut steps: Seq<StepRecord> = Seq::empty();
    let mut current = active;
    loop
        invariant
            current.tick_status() == tick_status,
            active.tick_status() == tick_status,
            old(strategy).never_aborts() ==> strategy.never_aborts(),
            forall|k: int| 0 <= k < steps.len() ==> handed_the_due_events(#[trigger] steps[k], tick_status.current_tick, MicroStep(k as u64)),
            forall|k: int| 0 <= k < steps.len() ==> (#[trigger] steps[k]).5 == steps[k].3,
            current.micro_step_status().current_micro_step.0 == steps.len(),
            steps.len() > 0 ==> steps[0].0 == firing_keys(active.handler().ready()) && steps[0].2 == queue_keys(active.scheduler().ready()),
            steps.len() == 0 ==> current == active,
        decreases u64::MAX - current.micro_step_status().current_micro_step.0,
    {
        proof {
            use_type_invariant(&current);
        }
        let ghost at_start = current;
        let micro_step_handler = current.begin_micro_step(&*model);
        let (micro_step_handler, Ghost(sources)) = fire_due_sources(micro_step_handler, &*model);
        let (micro_step_handler, Ghost(events)) = hand_due_events(micro_step_handler, model);
        let (decision, Ghost(extra), Ghost(deciding)) = end_step(micro_step_handler, strategy, &*model);
        let ghost record: StepRecord = (sources.0, sources.1, events.0, events.1, sources.2, events.1, extra);
        proof {
            steps = steps.push(record);
        }
        match decision {
            Ok(next_active) => {
                current = next_active;
            },
            Err((next_active, error)) => {
                return (next_active, error, Ghost(steps), Ghost(deciding));
            },
        }
    }
}

/// The firings taken out of `queue` as due at `tick`, with `rest` left and due later, are the
/// firings due at the tick.
pub proof fn lemma_step_fires_due_sources(queue: Seq<ScheduledSource>, due: Seq<SourceReadyEntry>, rest: Seq<ScheduledSource>, tick: SimTime)
    requires
        due.len() <= queue.len(),
        queue == queue.take(due.len() as int) + rest,
        due == as_entries(queue.take(due.len() as int)),
        forall|i: int| 0 <= i < due.len() ==> (#[trigger] queue[i]).scheduled_at == tick,
        forall|i: int| 0 <= i < rest.len() ==> (#[trigger] rest[i]).scheduled_at.0 > tick.0,
    ensures
        took_the_due(firing_keys(queue), due.map_values(|e: SourceReadyEntry| e.source_id), tick),
{
    let n = due.len() as int;
    let keys = firing_keys(queue);
    let ids = due.map_values(|e: SourceReadyEntry| e.source_id);
    assert(ids =~= key_ids(keys.take(n)));
    assert forall|i: int| 0 <= i < n implies (#[trigger] keys[i]).0 == tick by {
        assert(queue[i].scheduled_at == tick);
    }
    assert forall|i: int| n <= i < keys.len() implies (#[trigger] keys[i]).0.0 > tick.0 by {
        assert(queue[i] == rest[i - n]);
    }
    assert(ids == key_ids(keys.take(n)));
}

/// The events taken out of `queue` as due at `tick`, with `rest` left and due later, make a step
/// in which the model was handed exactly the due events.
pub proof fn lemma_step_hands_due_events<E>(queue: Seq<ScheduledEvent<E>>, due: Seq<Event<E>>, rest: Seq<ScheduledEvent<E>>, tick: SimTime)
    requires
        due.len() <= queue.len(),
        queue == queue.take(due.len() as int) + rest,
        due == as_events(queue.take(due.len() as int)),
        forall|i: int| 0 <= i < due.len() ==> (#[trigger] queue[i]).scheduled_at == tick,
        forall|i: int| 0 <= i < rest.len() ==> (#[trigger] rest[i]).scheduled_at.0 > tick.0,
    ensures
        took_the_due(queue_keys(queue), event_ids(due), tick),
{
    let n = due.len() as int;
    let keys = queue_keys(queue);
    let step = (keys, event_ids(due));
    assert(event_ids(due) =~= key_ids(keys.take(n)));
    assert forall|i: int| 0 <= i < n implies (#[trigger] step.0[i]).0 == tick by {
        assert(queue[i].scheduled_at == tick);
    }
    assert forall|i: int| n <= i < step.0.len() implies (#[trigger] step.0[i]).0.0 > tick.0 by {
        assert(queue[i] == rest[i - n]);
    }
    assert(step.1 == key_ids(step.0.take(n)));
}

/// Ends the tick of `active`: when `skippable` it jumps to the earliest tick at which a source
/// or an event is queued, otherwise it goes to the following tick. At the last representable
/// tick, and when work is still due at the tick (which only a run ended by its strategy leaves
/// behind, and which then ends), the tick ends in place.
pub fn end_tick<E, M: Model<E>>(active: ActiveExecutorContext<E, M>, model: &M, skippable: bool) -> (r: ExecutorContext<E, M>)
    ensures
        r.hooks() == active.hooks().recorded(HookCall::AfterTick {
            tick: active.tick_status().current_tick,
            last_micro_step: active.micro_step_status().current_micro_step,
        }),
        r.handler() == active.handler(),
        r.scheduler() == active.scheduler(),
        r.last_tick() == active.tick_status().current_tick,
        active.tick_finished() ==> r.ready_for_next_tick(),
        active.tick_status().current_tick.0 == u64::MAX ==> r.upcoming() == active.tick_status(),
        active.tick_status().current_tick.0 < u64::MAX && (active.tick_finished() || !skippable) ==> r.upcoming().current_tick.0 > active.tick_status().current_tick.0,
        active.tick_status().current_tick.0 < u64::MAX && !skippable ==> r.upcoming() == (TickStatus {
            current_tick: SimTime((active.tick_status().current_tick.0 + 1) as u64),
            skipped: Duration(0),
        }),
        active.tick_status().current_tick.0 < u64::MAX && skippable && active.tick_finished() ==> r.upcoming() == jump_target(
            active.tick_status().current_tick.0,
            active.handler().next_time(),
            active.scheduler().next_time(),
        ),
{
    if active.current_tick_status().current().0 == u64::MAX {
        active.end_tick_in_place(model)
    } else if skippable {
        if active.has_due_now() {
            active.end_tick_in_place(model)
        } else {
            active.end_tick_with_jump_to_next_tick(model)
        }
    } else {
        active.end_tick_with_increment_tick(model)
    }
}

/// `should_stop` was asked about the tick of `status` and declined to stop.
pub open spec fn declined_tick<M, F: FnMut(&M, ExecutorStatus, TickStatus) -> bool>(should_stop: F, status: TickStatus) -> bool {
    exists|m: M, s: ExecutorStatus| #[trigger] call_ensures(should_stop, (&m, s, status), false)
}

/// `should_stop` declined to stop before the tick `tick` was processed.
pub open spec fn declined_at<M, F: FnMut(&M, ExecutorStatus, TickStatus) -> bool>(should_stop: F, tick: SimTime) -> bool {
    exists|m: M, s: ExecutorStatus, t: TickStatus| #[trigger] call_ensures(should_stop, (&m, s, t), false) && t.current_tick == tick
}

/// The run ended because `should_stop` accepted the state it ended in, asked about a tick that
/// was not processed: either tick 0 before any tick was processed, or a tick after `last_tick`,
/// the last tick processed, about which `should_stop` had declined to stop. Or the run ended
/// after the last representable tick.
pub open spec fn stopped_on_request<M, F: FnMut(&M, ExecutorStatus, TickStatus) -> bool>(should_stop: F, model: M, last_tick: SimTime) -> bool {
    ||| last_tick.0 == u64::MAX
    ||| exists|s: ExecutorStatus, t: TickStatus| #[trigger] call_ensures(should_stop, (&model, s, t), true) && {
        ||| t.current_tick.0 == 0 && last_tick.0 == 0
        ||| t.current_tick.0 > last_tick.0 && declined_at(should_stop, last_tick)
    }
}

/// Drives a simulation from an engine and a model; the runner itself has no errors of its own
/// (the unit type is what it hands to the continuation strategy as its error type).
pub trait Runner<E, M: Model<E>, CS: ContinueStrategy<E, M, ()>> {
    /// The runner's strategy never ends a run.
    spec fn never_aborts(&self) -> bool;

    /// The record of the runner's last run: each tick it processed, in order, and what each
    /// micro-step of the tick handed the model.
    spec fn last_run(&self) -> Seq<TickRecord>;

    /// The decision with which the strategy ended the last run, if it did: the strategy as it
    /// was when it decided, and the micro-step that had ended.
    spec fn last_abort(&self) -> (CS, MicroStep);

    /// The registration calls made when the last run began: each source's id and the delay to its
    /// first firing that it returned.
    spec fn last_run_registrations(&self) -> Seq<(SourceId, Option<Duration>)>;

    /// The hook calls the library made over the last run, in order.
    spec fn last_run_calls(&self) -> Seq<HookCall>;

    /// The tick statuses `should_stop` was asked about over the last run, in order.
    spec fn last_run_queries(&self) -> Seq<TickStatus>;

    /// Runs the simulation of `engine` on `model`. Before each tick `should_stop` is asked, with
    /// the model, whether an event is queued and the status of that tick; the run ends when it
    /// answers `true`, when the strategy ends it with an error, or after the last representable
    /// tick. A runner whose strategy never aborts completes its run. `should_stop` was asked about
    /// each tick processed, with its status, and declined. In every micro-step of every tick
    /// processed, the sources due at the tick are fired and the model is handed exactly the events
    /// due at the tick, in queue order; the ticks are processed in increasing order, and the run
    /// ends at the last tick it processed. `should_stop` is asked about each tick before it is
    /// processed, and once more only when it ends the run. The strategy ends the run exactly when
    /// it decides to abort: the run then ends at that tick, with the error the strategy gave for
    /// the micro-step that had ended, and neither `should_stop` is asked again nor a later tick
    /// begun. The hooks are called in the order
    /// [`lifecycle_calls`] gives: `before_simulation`, the registration hooks, for each tick
    /// `before_tick`, the hooks of its micro-steps and `after_tick`, and `after_simulation` last.
    fn run<F>(&mut self, engine: Engine<E, M>, model: M, should_stop: F) -> (r: SimulationResult<M, CS::Error>)
        where
            F: FnMut(&M, ExecutorStatus, TickStatus) -> bool,
        requires
            forall|m: &M, s: ExecutorStatus, t: TickStatus| call_requires(should_stop, (m, s, t)),
        ensures
            r is Ok ==> stopped_on_request(should_stop, r->Ok_0.spec_model(), r->Ok_0.spec_last_tick()),
            old(self).never_aborts() ==> r is Ok,
            log_hands_due_events(final(self).last_run()),
            forall|i: int| 0 <= i < final(self).last_run().len() ==> declined_tick(should_stop, #[trigger] final(self).last_run()[i].0),
            r is Ok ==> r->Ok_0.spec_last_tick() == log_last_tick(final(self).last_run()),
            r is Err ==> final(self).last_run().len() > 0 && r->Err_0.spec_last_tick() == log_last_tick(final(self).last_run()),
            r is Err ==> final(self).last_abort().0.aborts_at(final(self).last_abort().1)
                && r->Err_0.spec_error() == final(self).last_abort().0.error_at(final(self).last_abort().1),
            r is Err <==> final(self).last_run().len() > 0 && final(self).last_run().last().2,
            asked_before_each_tick(final(self).last_run_queries(), final(self).last_run()),
            r is Err ==> final(self).last_run_queries().len() == final(self).last_run().len(),
            r is Ok && final(self).last_run_queries().len() > final(self).last_run().len() ==> exists|s: ExecutorStatus| #[trigger] call_ensures(
                should_stop,
                (&r->Ok_0.spec_model(), s, final(self).last_run_queries().last()),
                true,
            ),
            r is Ok && final(self).last_run_queries().len() == final(self).last_run().len() ==> r->Ok_0.spec_last_tick().0 == u64::MAX,
            final(self).last_run_registrations().len() == engine.handler().awaiting().len(),
            forall|k: int| 0 <= k < final(self).last_run_registrations().len() ==> (#[trigger] final(self).last_run_registrations()[k]).0
                == engine.handler().awaiting()[k],
            final(self).last_run_calls() == lifecycle_calls(
                final(self).last_run_registrations(),
                engine.handler().names(),
                final(self).last_run(),
            ),
    ;
}

/// A run limited to `tick_count` ticks processed none past the count, and the tick it would have
/// processed next is past the count; `last_tick` is the last tick processed (0 when none was).
/// Or the run ended after the last representable tick.
pub open spec fn stopped_at_count(tick_count: TimeTick, include_zero_tick: bool, last_tick: SimTime) -> bool {
    ||| last_tick.0 == u64::MAX
    ||| exists|t: TickStatus| #[trigger] done_ticks(t.current_tick.0, include_zero_tick, tick_count) && {
        ||| t.current_tick.0 == 0 && last_tick.0 == 0
        ||| t.current_tick.0 > last_tick.0 && !done_ticks(last_tick.0, include_zero_tick, tick_count)
    }
}

/// Runs the simulation with `runner` until the tick to process next is past `tick_count` ticks
/// (see [`done_ticks`]).
pub fn run_for_ticks<E, M: Model<E>, CS: ContinueStrategy<E, M, ()>, R: Runner<E, M, CS>>(
    runner: &mut R,
    engine: Engine<E, M>,
    model: M,
    tick_count: TimeTick,
    include_zero_tick: bool,
) -> (r: SimulationResult<M, CS::Error>)
    ensures
        r is Ok ==> stopped_at_count(tick_count, include_zero_tick, r->Ok_0.spec_last_tick()),
        old(runner).never_aborts() ==> r is Ok,
{
    let stop = |model: &M, status: ExecutorStatus, next_tick_status: TickStatus| -> (r: bool)
        ensures
            r == done_ticks(next_tick_status.current_tick.0, include_zero_tick, tick_count),
    { next_tick_status.is_done_ticks(include_zero_tick, tick_count) };
    runner.run(engine, model, stop)
}

/// Runs the simulation with `runner` until no event is queued.
pub fn run_while_busy<E, M: Model<E>, CS: ContinueStrategy<E, M, ()>, R: Runner<E, M, CS>>(
    runner: &mut R,
    engine: Engine<E, M>,
    model: M,
) -> (r: SimulationResult<M, CS::Error>)
    ensures
        old(runner).never_aborts() ==> r is Ok,
{
    let stop = |model: &M, status: ExecutorStatus, next_tick_status: TickStatus| -> (r: bool)
        ensures
            r == (status == ExecutorStatus::NoMoreEvent),
    { status == ExecutorStatus::NoMoreEvent };
    runner.run(engine, model, stop)
}

/// Runs the simulation with `runner` until `should_stop_model_condition` accepts the model,
/// asked before each tick.
pub fn run_until_accepted<E, M: Model<E>, CS: ContinueStrategy<E, M, ()>, R: Runner<E, M, CS>, F: Fn(&M) -> bool>(
    runner: &mut R,
    engine: Engine<E, M>,
    model: M,
    should_stop_model_condition: F,
) -> (r: SimulationResult<M, CS::Error>)
    requires
        forall|m: &M| call_requires(should_stop_model_condition, (m,)),
    ensures
        r is Ok ==> call_ensures(should_stop_model_condition, (&r->Ok_0.spec_model(),), true) || r->Ok_0.spec_last_tick().0 == u64::MAX,
        old(runner).never_aborts() ==> r is Ok,
{
    let condition = &should_stop_model_condition;
    let stop = move |model: &M, status: ExecutorStatus, next_tick_status: TickStatus| -> (r: bool)
        requires
            call_requires(condition, (model,)),
        ensures
            call_ensures(condition, (model,), r),
    { condition(model) };
    runner.run(engine, model, stop)
}

/// The ways to run a simulation that every runner offers on top of [`Runner::run`].
pub trait RunnerExt<E, M: Model<E>, CS: ContinueStrategy<E, M, ()>>: Runner<E, M, CS> + Sized {
    /// Runs the simulation until the tick to process next is past `tick_count` ticks (see
    /// [`done_ticks`]).
    fn run_do_ticks(&mut self, engine: Engine<E, M>, model: M, tick_count: TimeTick, include_zero_tick: bool) -> (r: SimulationResult<M, CS::Error>)
        ensures
            r is Ok ==> stopped_at_count(tick_count, include_zero_tick, r->Ok_0.spec_last_tick()),
            old(self).never_aborts() ==> r is Ok,
    {
        run_for_ticks(self, engine, model, tick_count, include_zero_tick)
    }

    /// Runs the simulation until no event is queued.
    fn run_until_idle(&mut self, engine: Engine<E, M>, model: M) -> (r: SimulationResult<M, CS::Error>)
        ensures
            old(self).never_aborts() ==> r is Ok,
    {
        run_while_busy(self, engine, model)
    }

    /// Runs the simulation until `should_stop_model_condition` accepts the model, asked before
    /// each tick.
    fn run_until_model_condition<F: Fn(&M) -> bool>(&mut self, engine: Engine<E, M>, model: M, should_stop_model_condition: F) -> (r: SimulationResult<M, CS::Error>)
        requires
            forall|m: &M| call_requires(should_stop_model_condition, (m,)),
        ensures
            r is Ok ==> call_ensures(should_stop_model_condition, (&r->Ok_0.spec_model(),), true) || r->Ok_0.spec_last_tick().0 == u64::MAX,
            old(self).never_aborts() ==> r is Ok,
    {
        run_until_accepted(self, engine, model, should_stop_model_condition)
    }
}

impl<E, M: Model<E>, CS: ContinueStrategy<E, M, ()>, R: Runner<E, M, CS>> RunnerExt<E, M, CS> for R {
}

} // verus!
