//! The strategy that cuts a tick short after a number of micro-steps, and ends the run once
//! that has happened more often than allowed.
use crate::context::discarded_from;
use crate::execution::phase::UncheckedActiveExecutor;
use crate::context::ActiveExecutorContext;
use crate::execution::strategy::{ContinueStrategy, ContinuousStrategyResult};
use crate::modeling::model::Model;
use crate::primitive::time::MicroStep;
use vstd::prelude::*;
use vstd::string::StringExecFns;

verus! {

/// The error with which a [`LimitAbortStrategy`] ends a run, or an error of the runner.
#[derive(Debug)]
pub enum LimitAbortStrategyError<RunnerError> {
    /// An error of the runner.
    Runner(RunnerError),
    /// A tick reached the micro-step limit once more than allowed; the count says how often.
    LimitExceeded { limit_micro_step_count: u64, limit_micro_step_exceeded_count: usize },
}

/// The character of the decimal digit `d`.
pub open spec fn digit_char(d: nat) -> char {
    ('0' as nat + d) as char
}

/// The decimal digits of `n`, most significant first, without leading zeros.
pub open spec fn decimal(n: nat) -> Seq<char>
    decreases n,
{
    if n < 10 {
        seq![digit_char(n)]
    } else {
        decimal(n / 10).push(digit_char(n % 10))
    }
}

/// The decimal digit `d` as a string of one character.
fn digit_str(d: u64) -> (r: &'static str)
    requires
        d < 10,
    ensures
        r@ == seq![digit_char(d as nat)],
{
    match d {
        0 => {
            proof {
                reveal_strlit("0");
            }
            "0"
        },
        1 => {
            proof {
                reveal_strlit("1");
            }
            "1"
        },
        2 => {
            proof {
                reveal_strlit("2");
            }
            "2"
        },
        3 => {
            proof {
                reveal_strlit("3");
            }
            "3"
        },
        4 => {
            proof {
                reveal_strlit("4");
            }
            "4"
        },
        5 => {
            proof {
                reveal_strlit("5");
            }
            "5"
        },
        6 => {
            proof {
                reveal_strlit("6");
            }
            "6"
        },
        7 => {
            proof {
                reveal_strlit("7");
            }
            "7"
        },
        8 => {
            proof {
                reveal_strlit("8");
            }
            "8"
        },
        _ => {
            proof {
                reveal_strlit("9");
            }
            "9"
        },
    }
}

/// The decimal digits of `n`, most significant first, without leading zeros.
fn decimal_string(n: u64) -> (r: String)
    ensures
        r@ == decimal(n as nat),
    decreases n,
{
    if n < 10 {
        String::from_str(digit_str(n))
    } else {
        let mut s = decimal_string(n / 10);
        s.append(digit_str(n % 10));
        s
    }
}

impl LimitAbortStrategyError<String> {
    /// The message of the error: the runner's own message, or the limit and how often it was
    /// exceeded.
    pub fn to_message(&self) -> (r: String)
        ensures
            self matches LimitAbortStrategyError::Runner(e) ==> r@ == e@,
            self matches LimitAbortStrategyError::LimitExceeded { limit_micro_step_count, limit_micro_step_exceeded_count } ==> r@
                == "The maximum limit of "@ + decimal(limit_micro_step_count as nat) + " micro-steps has been exceeded "@
                + decimal(limit_micro_step_exceeded_count as nat) + " times."@,
    {
        match self {
            LimitAbortStrategyError::Runner(e) => e.clone(),
            LimitAbortStrategyError::LimitExceeded { limit_micro_step_count, limit_micro_step_exceeded_count } => {
                let mut message = "The maximum limit of ".to_owned();
                let limit = decimal_string(*limit_micro_step_count);
                message.append(limit.as_str());
                message.append(" micro-steps has been exceeded ");
                let count = decimal_string(*limit_micro_step_exceeded_count as u64);
                message.append(count.as_str());
                message.append(" times.");
                message
            },
        }
    }
}

/// Lets a tick go on while the micro-step that ended is below the limit. From the limit on, it
/// counts an excess and discards what is still due at the tick, so that the tick ends; while the
/// count is within the allowance the run goes on, after that it ends with
/// [`LimitAbortStrategyError::LimitExceeded`].
#[derive(Clone)]
pub struct LimitAbortStrategy {
    limit_micro_step_count: u64,
    allow_error_count: usize,
    error_count: usize,
}

impl LimitAbortStrategy {
    /// The limit.
    pub closed spec fn limit(&self) -> u64 {
        self.limit_micro_step_count
    }

    /// How many excesses are allowed.
    pub closed spec fn allowance(&self) -> usize {
        self.allow_error_count
    }

    /// How many excesses were counted.
    pub closed spec fn excess_count(&self) -> usize {
        self.error_count
    }

    /// A strategy with the limit `limit_micro_step_count` that allows `allow_error_count`
    /// excesses, none counted yet.
    pub fn new(limit_micro_step_count: u64, allow_error_count: usize) -> (r: Self)
        ensures
            r.limit() == limit_micro_step_count,
            r.allowance() == allow_error_count,
            r.excess_count() == 0,
    {
        LimitAbortStrategy { limit_micro_step_count, allow_error_count, error_count: 0 }
    }

    /// The count of excesses after one more, stopping at the largest `usize`.
    pub open spec fn count_after_excess(&self) -> usize {
        if self.excess_count() < usize::MAX {
            (self.excess_count() + 1) as usize
        } else {
            self.excess_count()
        }
    }

    /// The strategy after deciding at the end of micro-step `ended`: from the limit on, one
    /// more excess is counted.
    pub closed spec fn decided(&self, ended: MicroStep) -> Self {
        if ended.0 >= self.limit() {
            LimitAbortStrategy { error_count: self.count_after_excess(), ..*self }
        } else {
            *self
        }
    }

    /// How many excesses were counted.
    pub fn error_count(&self) -> (r: usize)
        ensures
            r == self.excess_count(),
    {
        self.error_count
    }
}

impl LimitAbortStrategy {
    /// Decides whether the tick of `unchecked_executor` may go on (see the type's description).
    /// The count of excesses stops at the largest `usize`.
    pub fn decide<E, M: Model<E>, RunnerError>(
        &mut self,
        model: &M,
        unchecked_executor: UncheckedActiveExecutor<E, M>,
    ) -> (r: Result<ActiveExecutorContext<E, M>, (ActiveExecutorContext<E, M>, LimitAbortStrategyError<RunnerError>)>)
        ensures
            final(self).limit() == old(self).limit(),
            final(self).allowance() == old(self).allowance(),
            unchecked_executor.ended_micro_step().0 < old(self).limit() ==> *final(self) == *old(self)
                && (r matches Ok(a) && a == unchecked_executor.executor()),
            unchecked_executor.ended_micro_step().0 >= old(self).limit() ==> {
                &&& final(self).excess_count() == (if old(self).excess_count() < usize::MAX {
                    old(self).excess_count() + 1
                } else {
                    old(self).excess_count() as int
                })
                &&& final(self).excess_count() <= old(self).allowance() ==> (r matches Ok(a) && discarded_from(unchecked_executor.executor(), a))
                &&& final(self).excess_count() > old(self).allowance() ==> (r matches Err(p) && discarded_from(unchecked_executor.executor(), p.0)
                    && (p.1 matches LimitAbortStrategyError::LimitExceeded { limit_micro_step_count, limit_micro_step_exceeded_count }
                    && limit_micro_step_count == old(self).limit()
                    && limit_micro_step_exceeded_count == final(self).excess_count()))
            },
    {
        let current_micro_step = unchecked_executor.current_micro_step();
        if current_micro_step.value() < self.limit_micro_step_count {
            return Ok(unchecked_executor.into_active_executor());
        }
        if self.error_count < usize::MAX {
            self.error_count = self.error_count + 1;
        }
        let mut next_active = unchecked_executor.into_active_executor();
        next_active.discard_remain_micro_step(model);
        if self.error_count <= self.allow_error_count {
            Ok(next_active)
        } else {
            Err((
                next_active,
                LimitAbortStrategyError::LimitExceeded {
                    limit_micro_step_count: self.limit_micro_step_count,
                    limit_micro_step_exceeded_count: self.error_count,
                },
            ))
        }
    }
}

/// The strategy after deciding at the end of micro-step `ended` keeps its limit and allowance;
/// from the limit on it counted one more excess (stopping at the largest `usize`), before it
/// the count is as it was.
pub broadcast proof fn lemma_decided(strategy: LimitAbortStrategy, ended: MicroStep)
    ensures
        #[trigger] strategy.decided(ended).limit() == strategy.limit(),
        strategy.decided(ended).allowance() == strategy.allowance(),
        strategy.decided(ended).excess_count() == (if ended.0 >= strategy.limit() {
            strategy.count_after_excess()
        } else {
            strategy.excess_count()
        }),
{
}

impl<E, M: Model<E>, RunnerError> ContinueStrategy<E, M, RunnerError> for LimitAbortStrategy {
    type Error = LimitAbortStrategyError<RunnerError>;

    /// With the largest allowance, the saturating count never exceeds it.
    open spec fn never_aborts(&self) -> bool {
        self.allowance() == usize::MAX
    }

    /// From the limit on.
    open spec fn discards_at(&self, ended: MicroStep) -> bool {
        ended.0 >= self.limit()
    }

    /// From the limit on, once the count of excesses is past the allowance.
    open spec fn aborts_at(&self, ended: MicroStep) -> bool {
        ended.0 >= self.limit() && self.count_after_excess() > self.allowance()
    }

    open spec fn after_deciding(&self, ended: MicroStep) -> Self {
        self.decided(ended)
    }

    open spec fn error_at(&self, ended: MicroStep) -> LimitAbortStrategyError<RunnerError> {
        LimitAbortStrategyError::LimitExceeded { limit_micro_step_count: self.limit(), limit_micro_step_exceeded_count: self.count_after_excess() }
    }

    fn handle_micro_step_continue(
        &mut self,
        model: &M,
        unchecked_executor: UncheckedActiveExecutor<E, M>,
    ) -> ContinuousStrategyResult<E, M, LimitAbortStrategyError<RunnerError>> {
        self.decide(model, unchecked_executor)
    }
}

} // verus!
