//! The real-time runner: ticks paced to wall-clock time, idle ticks skipped.
use crate::context::ExecutorStatus;
use crate::context::jump_target;
use crate::execution::registration_calls;
use crate::execution::runner::{
    asked_before_each_tick, declined_at, declined_tick, end_tick, first_time, firing_keys, lifecycle_calls, log_hands_due_events, log_last_tick, log_statuses, log_next_ticks, queue_keys,
    run_calls, run_micro_steps, stopped_on_request, tick_calls, TickRecord,
};
use crate::modeling::hook::instance::HookCall;
use crate::primitive::id::SourceId;
use crate::primitive::time::{Duration, SimTime};
use crate::execution::strategy::{AlwaysContinueStrategy, ContinueStrategy};
use crate::execution::{Engine, SimulationResult};
use crate::modeling::model::Model;
use crate::primitive::time::{MicroStep, TickStatus};
use vstd::prelude::*;

verus! {

broadcast use crate::modeling::hook::instance::lemma_recorded;

/// Processes the ticks at the pace of wall-clock time: tick `t` starts no earlier than `t` times
/// `tick_unit_duration` after the run started. Ticks at which nothing is queued are skipped.
/// Given deterministic models, sources and hooks, a run is deterministic.
pub struct RealtimeRunner<CS> {
    continue_strategy: CS,
    tick_unit_duration: std::time::Duration,
    log: Ghost<Seq<TickRecord>>,
    abort: Ghost<(CS, MicroStep)>,
    registrations: Ghost<Seq<(SourceId, Option<Duration>)>>,
    calls: Ghost<Seq<HookCall>>,
    queries: Ghost<Seq<TickStatus>>,
}

impl<CS: Clone> Clone for RealtimeRunner<CS> {
    fn clone(&self) -> (r: Self) {
        RealtimeRunner {
            continue_strategy: self.continue_strategy.clone(),
            tick_unit_duration: self.tick_unit_duration,
            log: self.log,
            abort: Ghost(arbitrary()),
            registrations: self.registrations,
            calls: self.calls,
            queries: self.queries,
        }
    }
}

impl RealtimeRunner<AlwaysContinueStrategy> {
    /// A runner whose ticks last `tick_unit_duration` of wall-clock time and that lets every tick
    /// take as many micro-steps as it needs.
    pub fn new(tick_unit_duration: std::time::Duration) -> (r: Self)
        ensures
            r.unit() == tick_unit_duration,
            r.strategy() == AlwaysContinueStrategy,
    {
        RealtimeRunner {
            continue_strategy: AlwaysContinueStrategy::new(),
            tick_unit_duration,
            log: Ghost(Seq::empty()),
            abort: Ghost(arbitrary()),
            registrations: Ghost(Seq::empty()),
            calls: Ghost(Seq::empty()), queries: Ghost(Seq::empty()),
        }
    }
}

impl<CS> RealtimeRunner<CS> {
    /// The wall-clock duration of a tick.
    pub closed spec fn unit(&self) -> std::time::Duration {
        self.tick_unit_duration
    }

    /// The continuation strategy.
    pub closed spec fn strategy(&self) -> CS {
        self.continue_strategy
    }

    /// The decision with which the strategy ended the last run, if it did: the strategy as it
    /// was when it decided, and the micro-step that had ended.
    pub closed spec fn last_abort(&self) -> (CS, MicroStep) {
        self.abort@
    }

    /// The record of the last run: each tick it processed, in order, and what each micro-step
    /// of the tick handed the model.
    pub closed spec fn last_run(&self) -> Seq<TickRecord> {
        self.log@
    }

    /// The registration calls made when the last run began: each source's id and the delay to its
    /// first firing that it returned.
    pub closed spec fn last_run_registrations(&self) -> Seq<(SourceId, Option<Duration>)> {
        self.registrations@
    }

    /// The hook calls the library made over the last run, in order.
    pub closed spec fn last_run_calls(&self) -> Seq<HookCall> {
        self.calls@
    }

    /// The tick statuses `should_stop` was asked about over the last run, in order.
    pub closed spec fn last_run_queries(&self) -> Seq<TickStatus> {
        self.queries@
    }

    /// A runner whose ticks last `tick_unit_duration` of wall-clock time, with
    /// `continue_strategy`.
    pub fn new_with_continue_strategy(tick_unit_duration: std::time::Duration, continue_strategy: CS) -> (r: Self)
        ensures
            r.unit() == tick_unit_duration,
            r.strategy() == continue_strategy,
    {
        RealtimeRunner {
            continue_strategy,
            tick_unit_duration,
            log: Ghost(Seq::empty()),
            abort: Ghost(arbitrary()),
            registrations: Ghost(Seq::empty()),
            calls: Ghost(Seq::empty()), queries: Ghost(Seq::empty()),
        }
    }

    /// The wall-clock duration of a tick.
    pub fn tick_unit_duration(&self) -> (r: std::time::Duration)
        ensures
            r == self.unit(),
    {
        self.tick_unit_duration
    }

    /// The continuation strategy.
    pub fn continue_strategy(&self) -> (r: &CS)
        ensures
            *r == self.strategy(),
    {
        &self.continue_strategy
    }

    /// Runs the simulation of `engine` on `model`, calling `wait_for_tick` with the status of
    /// each tick before it is processed, so that the caller can hold the tick back until its
    /// wall-clock time. Before that, `should_stop` is asked, with the model, whether an event is
    /// queued and the status of the tick; the run ends when it answers `true`, when the strategy
    /// ends it with an error, or after the last representable tick. With a strategy that never
    /// aborts, the run completes. Each tick after the first is the earliest tick at which a
    /// source firing or an event was queued when the tick before it ended; the rest is as
    /// [`crate::execution::runner::Runner::run`] says.
    #[verifier::loop_isolation(false)]
    pub fn run_paced<E, M: Model<E>, F, W>(
        &mut self,
        engine: Engine<E, M>,
        model: M,
        mut should_stop: F,
        mut wait_for_tick: W,
    ) -> (r: SimulationResult<M, CS::Error>)
        where
            CS: ContinueStrategy<E, M, ()>,
            F: FnMut(&M, ExecutorStatus, TickStatus) -> bool,
            W: FnMut(TickStatus),
        requires
            forall|m: &M, s: ExecutorStatus, t: TickStatus| call_requires(should_stop, (m, s, t)),
            forall|t: TickStatus| call_requires(wait_for_tick, (t,)),
        ensures
            r is Ok ==> stopped_on_request(should_stop, r->Ok_0.spec_model(), r->Ok_0.spec_last_tick()),
            old(self).strategy().never_aborts() ==> r is Ok,
            log_hands_due_events(final(self).last_run()),
            forall|i: int| 0 <= i < final(self).last_run().len() ==> declined_tick(should_stop, #[trigger] final(self).last_run()[i].0),
            r is Ok ==> r->Ok_0.spec_last_tick() == log_last_tick(final(self).last_run()),
            r is Err ==> final(self).last_run().len() > 0 && r->Err_0.spec_last_tick() == log_last_tick(final(self).last_run()),
            r is Err ==> final(self).last_abort().0.aborts_at(final(self).last_abort().1)
                && r->Err_0.spec_error() == final(self).last_abort().0.error_at(final(self).last_abort().1),
            r is Err <==> final(self).last_run().len() > 0 && final(self).last_run().last().2,
            asked_before_each_tick(final(self).last_run_queries(), final(self).last_run()),
            r is Err ==> final(self).last_run_queries().len() == final(self).last_run().len(),
            r is Ok && final(self).last_run_queries().len() > final(self).last_run().len() ==> exists|s: ExecutorStatus| #[trigger] call_ensures(
                should_stop,
                (&r->Ok_0.spec_model(), s, final(self).last_run_queries().last()),
                true,
            ),
            r is Ok && final(self).last_run_queries().len() == final(self).last_run().len() ==> r->Ok_0.spec_last_tick().0 == u64::MAX,
            forall|i: int| 0 <= i < final(self).last_run().len() ==> call_ensures(wait_for_tick, (#[trigger] final(self).last_run()[i].0,), ()),
            log_next_ticks(final(self).last_run(), true),
            final(self).last_run_registrations().len() == engine.handler().awaiting().len(),
            forall|k: int| 0 <= k < final(self).last_run_registrations().len() ==> (#[trigger] final(self).last_run_registrations()[k]).0
                == engine.handler().awaiting()[k],
            final(self).last_run_calls() == lifecycle_calls(
                final(self).last_run_registrations(),
                engine.handler().names(),
                final(self).last_run(),
            ),
    {
        let mut model = model;
        let ghost stop0 = should_stop;
        let ghost wait0 = wait_for_tick;
        let ghost names = engine.handler().names();
        let ghost awaiting = engine.handler().awaiting();
        let mut executor = engine.begin_simulation(&model);
        proof {
            self.log@ = Seq::empty();
            self.queries@ = Seq::empty();
            assert(log_statuses(self.log@) =~= Seq::<TickStatus>::empty());
            self.registrations@ = executor.registrations();
            self.calls@ = seq![HookCall::BeforeSimulation] + registration_calls(executor.registrations(), names);
        }
        let ghost mut processed = false;
        loop
            invariant
                !processed ==> executor.last_tick().0 == 0 && executor.upcoming() == (TickStatus { current_tick: SimTime(0), skipped: Duration(0) }),
                processed ==> executor.upcoming().current_tick.0 > executor.last_tick().0 && declined_at(stop0, executor.last_tick()),
                !processed <==> self.log@.len() == 0,
                executor.last_tick() == log_last_tick(self.log@),
                log_hands_due_events(self.log@),
                self.queries@ == log_statuses(self.log@),
                forall|i: int| 0 <= i < self.log@.len() ==> !(#[trigger] self.log@[i]).2,
                forall|i: int| 0 <= i < self.log@.len() ==> declined_tick(stop0, #[trigger] self.log@[i].0),
                forall|i: int| 0 <= i < self.log@.len() ==> call_ensures(wait0, (#[trigger] self.log@[i].0,), ()),
                self.registrations@.len() == awaiting.len(),
                forall|k: int| 0 <= k < self.registrations@.len() ==> (#[trigger] self.registrations@[k]).0 == awaiting[k],
                self.calls@ == seq![HookCall::BeforeSimulation] + registration_calls(self.registrations@, names) + run_calls(self.log@),
                log_next_ticks(self.log@, true),
                processed ==> executor.upcoming() == jump_target(
                    self.log@.last().0.current_tick.0,
                    executor.handler().next_time(),
                    executor.scheduler().next_time(),
                ),
                should_stop == stop0,
                wait_for_tick == wait0,
                forall|m: &M, s: ExecutorStatus, t: TickStatus| call_requires(should_stop, (m, s, t)),
                forall|t: TickStatus| call_requires(wait_for_tick, (t,)),
                executor.ready_for_next_tick(),
                old(self).strategy().never_aborts() ==> self.strategy().never_aborts(),
            decreases u64::MAX - executor.upcoming().current_tick.0,
        {
            let (executor_status, tick_status) = executor.peek_next_tick();
            let ghost earlier_queries = self.queries@;
            proof {
                self.queries@ = self.queries@.push(tick_status);
            }
            if should_stop(&model, executor_status, tick_status) {
                proof {
                    assert(call_ensures(stop0, (&model, executor_status, tick_status), true));
                    assert(self.queries@.take(self.log@.len() as int) =~= log_statuses(self.log@));
                }
                let ghost stopped_model = model;
                let (result, Ghost(final_calls)) = executor.finish_ok(model);
                proof {
                    assert(call_ensures(should_stop, (&stopped_model, executor_status, self.queries@.last()), true));
                    self.calls@ = self.calls@.push(HookCall::AfterSimulation { end_tick: log_last_tick(self.log@) });
                }
                return result;
            }
            let ghost model_then = model;
            proof {
                assert(call_ensures(stop0, (&model_then, executor_status, tick_status), false));
            }
            wait_for_tick(tick_status);
            let ghost upcoming = executor.upcoming();
            let ghost before_tick = executor;
            let active = executor.begin_tick(&model);
            proof {
                let h = before_tick.handler();
                let q = before_tick.scheduler();
                assert(h.ready().len() > 0 ==> firing_keys(h.ready())[0].0 == h.ready()[0].scheduled_at);
                assert(q.ready().len() > 0 ==> queue_keys(q.ready())[0].0 == q.ready()[0].scheduled_at);
            }
            let (active, runner_error, Ghost(steps), Ghost(decision)) = run_micro_steps(&mut self.continue_strategy, active, &mut model);
            let at_last_tick = active.current_tick_status().current().0 == u64::MAX;
            executor = end_tick(active, &model, true);
            proof {
                assert(call_ensures(stop0, (&model_then, executor_status, upcoming), false));
                let record: TickRecord = (upcoming, steps, runner_error is Some);
                let earlier = self.log@;
                self.log@ = self.log@.push(record);
                assert(log_statuses(self.log@) =~= log_statuses(earlier).push(upcoming));
                assert(self.queries@.take(self.log@.len() as int) =~= self.queries@);
                assert(self.log@.drop_last() =~= earlier);
                self.calls@ = self.calls@ + tick_calls(record);
                assert(self.calls@ =~= seq![HookCall::BeforeSimulation] + registration_calls(self.registrations@, names) + run_calls(self.log@));
                if earlier.len() > 0 {
                    assert(first_time(steps[0].0) == before_tick.handler().next_time());
                    assert(first_time(steps[0].2) == before_tick.scheduler().next_time());
                }
            }
            match runner_error {
                Some(error) => {
                    proof {
                        self.abort@ = decision;
                    }
                    let (result, Ghost(final_calls)) = executor.finish_error(model, error);
                    proof {
                        self.calls@ = self.calls@.push(HookCall::AfterSimulation { end_tick: log_last_tick(self.log@) });
                    }
                    return result;
                },
                None => {},
            }
            if at_last_tick {
                let (result, Ghost(final_calls)) = executor.finish_ok(model);
                proof {
                    self.calls@ = self.calls@.push(HookCall::AfterSimulation { end_tick: log_last_tick(self.log@) });
                }
                return result;
            }
            proof {
                processed = true;
            }
        }
    }
}

} // verus!
