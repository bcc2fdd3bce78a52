//! What the engine shares with the event handlers of the models.

use crate::time::Time;
use vstd::prelude::*;

verus! {

/// The clock of a simulation and its source of random numbers.
///
/// Event handlers receive the services of their simulation.  They may draw from
/// the random source, and what they draw is seen by every later handler.  The
/// clock is the engine's to write: whatever a handler does to it is undone when
/// the handler returns.
#[derive(Clone, Debug)]
pub struct Services<R> {
    pub global_rng: R,
    pub global_time: Time,
}

impl<R> Services<R> {
    /// Services at the start of simulated time.
    pub fn new(global_rng: R) -> (services: Self)
        ensures
            services == (Services { global_rng, global_time: Time::zero() }),
    {
        Services { global_rng, global_time: Time::zero() }
    }

    pub fn global_rng(&mut self) -> (rng: &mut R)
        ensures
            *rng == old(self).global_rng,
            *final(self) == (Services {
                global_rng: *final(rng),
                global_time: old(self).global_time,
            }),
    {
        &mut self.global_rng
    }

    pub fn global_time(&self) -> (time: Time)
        ensures
            time == self.global_time,
    {
        self.global_time
    }

    pub fn set_global_time(&mut self, time: Time)
        ensures
            *final(self) == (Services { global_rng: old(self).global_rng, global_time: time }),
    {
        self.global_time = time;
    }

    /// These services with the clock at `time`.
    pub open spec fn at(self, time: Time) -> Self {
        Services { global_rng: self.global_rng, global_time: time }
    }
}

impl<R: Default> Default for Services<R> {
    fn default() -> (services: Self)
        ensures
            services.global_time == Time::zero(),
    {
        Services { global_rng: R::default(), global_time: Time::zero() }
    }
}

} // verus!
