//! Strategies that decide, at the end of each micro-step with work left, whether the tick may
//! take another micro-step.
mod continue_strategy;

pub use continue_strategy::{
    kept_or_discarded, lemma_decided, AlwaysContinueStrategy, ContinueStrategy, ContinuousStrategyResult, LimitAbortStrategy, LimitAbortStrategyError,
    LimitDiscardStrategy,
};
