//! The contract between the engine and a model.

use super::{ModelFailure, ModelMessage, ModelMessageView, ModelRecord, ModelRecordView};
use crate::simulator::Services;
use crate::time::Time;
use vstd::prelude::*;

verus! {

/// What handling one event leaves behind: the state of the model and the
/// services after the event, and what the handler returned, or the reason for
/// which it failed.
pub struct EventOutcome<S, R, T> {
    pub state: S,
    pub services: Services<R>,
    pub result: Result<T, Seq<char>>,
}

/// What a handler of external events returned.
pub open spec fn handled(result: Result<(), ModelFailure>) -> Result<(), Seq<char>> {
    match result {
        Ok(_) => Ok(()),
        Err(failure) => Err(failure@),
    }
}

/// What a handler of internal events returned.
pub open spec fn emitted(result: Result<Vec<ModelMessage>, ModelFailure>) -> Result<
    Seq<ModelMessageView>,
    Seq<char>,
> {
    match result {
        Ok(messages) => Ok(messages.deep_view()),
        Err(failure) => Err(failure@),
    }
}

/// A model in the DEVS formalism: a state with a schedule of its own.
///
/// Time passes for a model through `time_advance`.  When the time until its next
/// event has run down to zero the engine fires `events_int`, and the model may
/// emit messages on its output ports.  At any time the engine may deliver a
/// message to it through `events_ext`.
///
/// A model is a state machine.  `State` is the mathematical model of what it
/// holds.  What a handler does depends on the state, on the handler's arguments
/// and on the services, and on nothing else: each handler comes with a
/// specification function which says what it does, and the engine's own
/// contracts are stated in terms of these functions.  An implementation that is
/// to be verified defines them; their defaults say nothing.
pub trait DevsModel: Sized {
    /// The source of random numbers that the handlers draw from.
    type Rng;

    /// The mathematical model of the model's state.
    type State;

    /// The state that the model is in.
    open spec fn state(&self) -> Self::State {
        arbitrary()
    }

    /// What `events_ext` does with `incoming_message` in the state `state`.
    open spec fn spec_events_ext(
        state: Self::State,
        incoming_message: ModelMessageView,
        services: Services<Self::Rng>,
    ) -> EventOutcome<Self::State, Self::Rng, ()> {
        arbitrary()
    }

    /// What `events_int` does in the state `state`, and the messages that it
    /// emits.
    open spec fn spec_events_int(state: Self::State, services: Services<Self::Rng>) -> EventOutcome<
        Self::State,
        Self::Rng,
        Seq<ModelMessageView>,
    > {
        arbitrary()
    }

    /// The state that `state` becomes when `time_delta` passes.
    open spec fn spec_time_advance(state: Self::State, time_delta: Time) -> Self::State {
        arbitrary()
    }

    /// The time from `state` until the next internal event; `Time::Infinite` if
    /// none is scheduled.
    open spec fn spec_until_next_event(state: Self::State) -> Time {
        arbitrary()
    }

    /// Reacts to a message that arrives at one of the model's input ports.
    fn events_ext(
        &mut self,
        incoming_message: &ModelMessage,
        services: &mut Services<Self::Rng>,
    ) -> (result: Result<(), ModelFailure>)
        ensures
            Self::spec_events_ext(old(self).state(), incoming_message@, *old(services)) == (
            EventOutcome {
                state: final(self).state(),
                services: *final(services),
                result: handled(result),
            }),
    ;

    /// Makes the internal transition that is due, and returns the messages
    /// that the model emits on its output ports.
    fn events_int(&mut self, services: &mut Services<Self::Rng>) -> (result: Result<
        Vec<ModelMessage>,
        ModelFailure,
    >)
        requires
            Self::spec_until_next_event(old(self).state()) == Time::zero(),
        ensures
            Self::spec_events_int(old(self).state(), *old(services)) == (EventOutcome {
                state: final(self).state(),
                services: *final(services),
                result: emitted(result),
            }),
    ;

    /// Tells the model that `time_delta` of simulated time has passed.
    fn time_advance(&mut self, time_delta: Time)
        ensures
            final(self).state() == Self::spec_time_advance(old(self).state(), time_delta),
    ;

    /// The time until the model's next internal event.
    fn until_next_event(&self) -> (time: Time)
        ensures
            time == Self::spec_until_next_event(self.state()),
    ;
}

/// A model that can report on itself.  What it reports depends on its state
/// alone.
pub trait Reportable: DevsModel {
    /// What `status` returns in the state `state`.
    open spec fn spec_status(state: Self::State) -> Seq<char> {
        arbitrary()
    }

    /// What `records` returns in the state `state`.
    open spec fn spec_records(state: Self::State) -> Seq<ModelRecordView> {
        arbitrary()
    }

    /// A line on the state of the model.
    fn status(&self) -> (status: String)
        ensures
            status@ == Self::spec_status(self.state()),
    ;

    /// The log that the model has kept.
    fn records(&self) -> (records: &Vec<ModelRecord>)
        ensures
            records.deep_view() == Self::spec_records(self.state()),
    ;
}

/// What the engine asks of a model: the DEVS handlers and the reports.
pub trait ReportableModel: DevsModel + Reportable {

}

impl<M: DevsModel + Reportable> ReportableModel for M {

}

} // verus!
