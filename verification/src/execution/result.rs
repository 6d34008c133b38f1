//! The outcome of a run: the model and the tick the run ended at, and the error of a run that
//! was stopped by one.
use crate::primitive::time::SimTime;
use vstd::prelude::*;

verus! {

/// What a run returns: its output, or the error that stopped it.
pub type SimulationResult<M, Error> = Result<SimulationOutput<M>, SimulationError<M, Error>>;

/// The end state of a run that completed.
#[derive(Debug)]
pub struct SimulationOutput<M> {
    time: SimTime,
    model: M,
}

impl<M> SimulationOutput<M> {
    /// The tick the run ended at.
    pub closed spec fn spec_last_tick(&self) -> SimTime {
        self.time
    }

    /// The model as the run left it.
    pub closed spec fn spec_model(&self) -> M {
        self.model
    }

    /// The output of a run that ended at `time` with `model`.
    pub fn new(time: SimTime, model: M) -> (r: Self)
        ensures
            r.spec_last_tick() == time,
            r.spec_model() == model,
    {
        SimulationOutput { time, model }
    }


    /// The tick the run ended at.
    pub fn last_tick(&self) -> (r: SimTime)
        ensures
            r == self.spec_last_tick(),
    {
        self.time
    }

    /// The model as the run left it.
    pub fn model(&self) -> (r: &M)
        ensures
            *r == self.spec_model(),
    {
        &self.model
    }

    /// The model as the run left it, to change.
    pub fn model_mut(&mut self) -> (r: &mut M)
        ensures
            *r == old(self).spec_model(),
            final(self).spec_model() == *final(r),
            final(self).spec_last_tick() == old(self).spec_last_tick(),
    {
        &mut self.model
    }
}

/// The end state of a run that was stopped by an error.
#[derive(Debug)]
pub struct SimulationError<M, Error> {
    time: SimTime,
    model: M,
    error: Error,
}

impl<M, Error> SimulationError<M, Error> {
    /// The tick the run ended at.
    pub closed spec fn spec_last_tick(&self) -> SimTime {
        self.time
    }

    /// The model as the run left it.
    pub closed spec fn spec_model(&self) -> M {
        self.model
    }

    /// The error that stopped the run.
    pub closed spec fn spec_error(&self) -> Error {
        self.error
    }

    /// The state of a run stopped at `time` by `error`, with `model`.
    pub fn new(time: SimTime, model: M, error: Error) -> (r: Self)
        ensures
            r.spec_last_tick() == time,
            r.spec_model() == model,
            r.spec_error() == error,
    {
        SimulationError { time, model, error }
    }


    /// The tick the run ended at.
    pub fn last_tick(&self) -> (r: SimTime)
        ensures
            r == self.spec_last_tick(),
    {
        self.time
    }

    /// The model as the run left it.
    pub fn model(&self) -> (r: &M)
        ensures
            *r == self.spec_model(),
    {
        &self.model
    }

    /// The model as the run left it, to change.
    pub fn model_mut(&mut self) -> (r: &mut M)
        ensures
            *r == old(self).spec_model(),
            final(self).spec_model() == *final(r),
            final(self).spec_last_tick() == old(self).spec_last_tick(),
            final(self).spec_error() == old(self).spec_error(),
    {
        &mut self.model
    }

    /// The error that stopped the run.
    pub fn error(&self) -> (r: &Error)
        ensures
            *r == self.spec_error(),
    {
        &self.error
    }

    /// The error that stopped the run, to change.
    pub fn error_mut(&mut self) -> (r: &mut Error)
        ensures
            *r == old(self).spec_error(),
            final(self).spec_error() == *final(r),
            final(self).spec_last_tick() == old(self).spec_last_tick(),
            final(self).spec_model() == old(self).spec_model(),
    {
        &mut self.error
    }
}

} // verus!
