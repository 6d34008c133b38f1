//! The standard runner: ticks one after another, optionally skipping idle ticks.
use crate::context::ExecutorStatus;
use crate::context::jump_target;
use crate::execution::registration_calls;
use crate::execution::runner::{
    declined_at, declined_tick, end_tick, first_time, firing_keys, lifecycle_calls, log_hands_due_events, log_last_tick, log_statuses, log_next_ticks, queue_keys,
    run_calls, run_micro_steps, tick_calls, Runner, TickRecord,
};
use crate::modeling::hook::instance::HookCall;
use crate::primitive::id::SourceId;
use crate::execution::strategy::{AlwaysContinueStrategy, ContinueStrategy};
use crate::execution::{Engine, SimulationResult};
use crate::modeling::model::Model;
use crate::primitive::time::{MicroStep, Duration, SimTime, TickStatus};
use vstd::prelude::*;

verus! {

broadcast use crate::modeling::hook::instance::lemma_recorded;

/// Processes the ticks in order, each in as many micro-steps as its strategy lets it take. With
/// `skippable`, ticks at which nothing is queued are skipped. Given deterministic models,
/// sources and hooks, a run is deterministic.
#[derive(Clone)]
pub struct StandardRunner<CS> {
    skippable: bool,
    continue_strategy: CS,
    log: Ghost<Seq<TickRecord>>,
    abort: Ghost<(CS, MicroStep)>,
    registrations: Ghost<Seq<(SourceId, Option<Duration>)>>,
    calls: Ghost<Seq<HookCall>>,
    queries: Ghost<Seq<TickStatus>>,
}

impl StandardRunner<AlwaysContinueStrategy> {
    /// A runner that lets every tick take as many micro-steps as it needs.
    pub fn new(skippable: bool) -> (r: Self)
        ensures
            r.skips() == skippable,
            r.strategy() == AlwaysContinueStrategy,
    {
        StandardRunner { skippable, continue_strategy: AlwaysContinueStrategy::new(), log: Ghost(Seq::empty()), abort: Ghost(arbitrary()), registrations: Ghost(Seq::empty()), calls: Ghost(Seq::empty()), queries: Ghost(Seq::empty()) }
    }
}

impl<CS> StandardRunner<CS> {
    /// Whether idle ticks are skipped.
    pub closed spec fn skips(&self) -> bool {
        self.skippable
    }

    /// The continuation strategy.
    pub closed spec fn strategy(&self) -> CS {
        self.continue_strategy
    }

    /// A runner with `continue_strategy`.
    pub fn new_with_continue_strategy(skippable: bool, continue_strategy: CS) -> (r: Self)
        ensures
            r.skips() == skippable,
            r.strategy() == continue_strategy,
    {
        StandardRunner { skippable, continue_strategy, log: Ghost(Seq::empty()), abort: Ghost(arbitrary()), registrations: Ghost(Seq::empty()), calls: Ghost(Seq::empty()), queries: Ghost(Seq::empty()) }
    }

    /// Whether idle ticks are skipped.
    pub fn skippable(&self) -> (r: bool)
        ensures
            r == self.skips(),
    {
        self.skippable
    }

    /// The continuation strategy.
    pub fn continue_strategy(&self) -> (r: &CS)
        ensures
            *r == self.strategy(),
    {
        &self.continue_strategy
    }
}

impl<E, M: Model<E>, CS: ContinueStrategy<E, M, ()>> Runner<E, M, CS> for StandardRunner<CS> {
    /// The runner's strategy never ends a run.
    open spec fn never_aborts(&self) -> bool {
        self.strategy().never_aborts()
    }

    closed spec fn last_run(&self) -> Seq<TickRecord> {
        self.log@
    }

    closed spec fn last_abort(&self) -> (CS, MicroStep) {
        self.abort@
    }

    closed spec fn last_run_registrations(&self) -> Seq<(SourceId, Option<Duration>)> {
        self.registrations@
    }

    closed spec fn last_run_calls(&self) -> Seq<HookCall> {
        self.calls@
    }

    closed spec fn last_run_queries(&self) -> Seq<TickStatus> {
        self.queries@
    }

    /// Runs the simulation of `engine` on `model`. Before each tick `should_stop` is asked, with
    /// the model, whether an event is queued and the status of that tick; the run ends when it
    /// answers `true`, when the strategy ends it with an error, or after the last representable
    /// tick.
    #[verifier::loop_isolation(false)]
    fn run<F>(&mut self, engine: Engine<E, M>, model: M, mut should_stop: F) -> (r: SimulationResult<M, CS::Error>)
        where
            F: FnMut(&M, ExecutorStatus, TickStatus) -> bool,
        ensures
            final(self).skips() == old(self).skips(),
            log_next_ticks(final(self).last_run(), old(self).skips()),
            !old(self).skips() ==> forall|i: int| 0 <= i < final(self).last_run().len() ==> (#[trigger] final(self).last_run()[i]).0.current_tick.0 == i
                && final(self).last_run()[i].0.skipped.0 == 0,
    {
        let mut model = model;
        let ghost stop0 = should_stop;
        let ghost names = engine.handler().names();
        let ghost awaiting = engine.handler().awaiting();
        let mut executor = engine.begin_simulation(&model);
        proof {
            self.log@ = Seq::empty();
            self.queries@ = Seq::empty();
            assert(log_statuses(self.log@) =~= Seq::<TickStatus>::empty());
            self.registrations@ = executor.registrations();
            self.calls@ = seq![HookCall::BeforeSimulation] + registration_calls(executor.registrations(), names);
        }
        let ghost mut processed = false;
        loop
            invariant
                !processed ==> executor.last_tick().0 == 0 && executor.upcoming() == (TickStatus { current_tick: SimTime(0), skipped: Duration(0) }),
                processed ==> executor.upcoming().current_tick.0 > executor.last_tick().0 && declined_at(stop0, executor.last_tick()),
                !processed <==> self.log@.len() == 0,
                executor.last_tick() == log_last_tick(self.log@),
                log_hands_due_events(self.log@),
                self.queries@ == log_statuses(self.log@),
                forall|i: int| 0 <= i < self.log@.len() ==> !(#[trigger] self.log@[i]).2,
                forall|i: int| 0 <= i < self.log@.len() ==> declined_tick(stop0, #[trigger] self.log@[i].0),
                self.skippable == old(self).skippable,
                self.registrations@.len() == awaiting.len(),
                forall|k: int| 0 <= k < self.registrations@.len() ==> (#[trigger] self.registrations@[k]).0 == awaiting[k],
                self.calls@ == seq![HookCall::BeforeSimulation] + registration_calls(self.registrations@, names) + run_calls(self.log@),
                log_next_ticks(self.log@, self.skippable),
                processed ==> executor.upcoming() == if self.skippable {
                    jump_target(self.log@.last().0.current_tick.0, executor.handler().next_time(), executor.scheduler().next_time())
                } else {
                    TickStatus { current_tick: SimTime((self.log@.last().0.current_tick.0 + 1) as u64), skipped: Duration(0) }
                },
                !self.skippable ==> forall|i: int| 0 <= i < self.log@.len() ==> (#[trigger] self.log@[i]).0.current_tick.0 == i && self.log@[i].0.skipped.0 == 0,
                should_stop == stop0,
                forall|m: &M, s: ExecutorStatus, t: TickStatus| call_requires(should_stop, (m, s, t)),
                executor.ready_for_next_tick(),
                old(self).strategy().never_aborts() ==> self.strategy().never_aborts(),
            decreases u64::MAX - executor.upcoming().current_tick.0,
        {
            let (executor_status, tick_status) = executor.peek_next_tick();
            let ghost earlier_queries = self.queries@;
            proof {
                self.queries@ = self.queries@.push(tick_status);
            }
            if should_stop(&model, executor_status, tick_status) {
                proof {
                    assert(call_ensures(stop0, (&model, executor_status, tick_status), true));
                    assert(self.queries@.take(self.log@.len() as int) =~= log_statuses(self.log@));
                }
                let ghost stopped_model = model;
                let (result, Ghost(final_calls)) = executor.finish_ok(model);
                proof {
                    assert(call_ensures(should_stop, (&stopped_model, executor_status, self.queries@.last()), true));
                    assert(final_calls.last() == (HookCall::AfterSimulation { end_tick: log_last_tick(self.log@) }));
                    self.calls@ = self.calls@.push(HookCall::AfterSimulation { end_tick: log_last_tick(self.log@) });
                }
                return result;
            }
            let ghost model_then = model;
            proof {
                assert(call_ensures(stop0, (&model_then, executor_status, tick_status), false));
            }
            let ghost upcoming = executor.upcoming();
            let ghost before_tick = executor;
            let active = executor.begin_tick(&model);
            proof {
                assert(active.hooks().calls().last() == (HookCall::BeforeTick { tick: upcoming.current_tick, skipped: upcoming.skipped }));
                let h = before_tick.handler();
                let q = before_tick.scheduler();
                assert(h.ready().len() > 0 ==> firing_keys(h.ready())[0].0 == h.ready()[0].scheduled_at);
                assert(q.ready().len() > 0 ==> queue_keys(q.ready())[0].0 == q.ready()[0].scheduled_at);
            }
            let (active, runner_error, Ghost(steps), Ghost(decision)) = run_micro_steps(&mut self.continue_strategy, active, &mut model);
            let at_last_tick = active.current_tick_status().current().0 == u64::MAX;
            let ghost ended = active;
            executor = end_tick(active, &model, self.skippable);
            proof {
                assert(executor.hooks().calls().last() == (HookCall::AfterTick {
                    tick: upcoming.current_tick,
                    last_micro_step: ended.micro_step_status().current_micro_step,
                }));
                assert(call_ensures(stop0, (&model_then, executor_status, upcoming), false));
                let record: TickRecord = (upcoming, steps, runner_error is Some);
                let earlier = self.log@;
                self.log@ = self.log@.push(record);
                assert(log_statuses(self.log@) =~= log_statuses(earlier).push(upcoming));
                assert(self.queries@.take(self.log@.len() as int) =~= self.queries@);
                assert(self.log@.drop_last() =~= earlier);
                self.calls@ = self.calls@ + tick_calls(record);
                assert(self.calls@ =~= seq![HookCall::BeforeSimulation] + registration_calls(self.registrations@, names) + run_calls(self.log@));
                if earlier.len() > 0 {
                    assert(first_time(steps[0].0) == before_tick.handler().next_time());
                    assert(first_time(steps[0].2) == before_tick.scheduler().next_time());
                }
            }
            match runner_error {
                Some(error) => {
                    proof {
                        self.abort@ = decision;
                    }
                    let (result, Ghost(final_calls)) = executor.finish_error(model, error);
                    proof {
                        self.calls@ = self.calls@.push(HookCall::AfterSimulation { end_tick: log_last_tick(self.log@) });
                    }
                    return result;
                },
                None => {},
            }
            if at_last_tick {
                let (result, Ghost(final_calls)) = executor.finish_ok(model);
                proof {
                    self.calls@ = self.calls@.push(HookCall::AfterSimulation { end_tick: log_last_tick(self.log@) });
                }
                return result;
            }
            proof {
                processed = true;
            }
        }
    }
}

} // verus!
