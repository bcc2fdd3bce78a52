//! A model with its id.

use super::model_trait::{DevsModel, EventOutcome, Reportable};
use super::{ModelFailure, ModelMessage, ModelMessageView, ModelRecord, ModelRecordView};
use crate::simulator::Services;
use crate::time::Time;
use vstd::prelude::*;
use vstd::std_specs::cmp::PartialEqSpecImpl;

verus! {

/// `Model` gives a model the id under which a simulation knows it.  Connectors
/// and messages name models by id, and two models are equal if their ids are.
#[derive(Clone, Debug)]
pub struct Model<M> {
    pub id: String,
    pub inner: M,
}

/// A model as the engine sees it: its id and the state that it is in.
pub struct ModelView<S> {
    pub id: Seq<char>,
    pub state: S,
}

impl<S> ModelView<S> {
    /// This model in the state `state`.
    pub open spec fn in_state(self, state: S) -> Self {
        ModelView { id: self.id, state }
    }
}

impl<M: DevsModel> View for Model<M> {
    type V = ModelView<M::State>;

    open spec fn view(&self) -> ModelView<M::State> {
        ModelView { id: self.id@, state: self.inner.state() }
    }
}

impl<M: DevsModel> DeepView for Model<M> {
    type V = ModelView<M::State>;

    open spec fn deep_view(&self) -> ModelView<M::State> {
        self@
    }
}

impl<M> Model<M> {
    pub fn new(id: String, inner: M) -> (model: Self)
        ensures
            model == (Model { id, inner }),
    {
        Model { id, inner }
    }

    pub fn id(&self) -> (id: &str)
        ensures
            id@ == self.id@,
    {
        self.id.as_str()
    }

    /// A copy of the id.
    pub fn owned_id(&self) -> (id: String)
        ensures
            id@ == self.id@,
    {
        self.id.clone()
    }
}

impl<M> PartialEq for Model<M> {
    fn eq(&self, other: &Self) -> (equal: bool) {
        self.id == other.id
    }
}

impl<M> PartialEqSpecImpl for Model<M> {
    open spec fn obeys_eq_spec() -> bool {
        true
    }

    open spec fn eq_spec(&self, other: &Self) -> bool {
        self.id@ == other.id@
    }
}

impl<M> Eq for Model<M> {

}

/// `<String as Hash>::hash` of the standard library, which feeds the bytes of the
/// string to the hasher.  Nothing is claimed of what the hasher then holds.
pub assume_specification<H: core::hash::Hasher>[ <String as core::hash::Hash>::hash ](
    text: &String,
    hasher: &mut H,
);

impl<M> core::hash::Hash for Model<M> {
    fn hash<H: core::hash::Hasher>(&self, state: &mut H) {
        self.id.hash(state);
    }
}

impl<M: DevsModel> DevsModel for Model<M> {
    type Rng = M::Rng;

    type State = M::State;

    open spec fn state(&self) -> M::State {
        self.inner.state()
    }

    open spec fn spec_events_ext(
        state: M::State,
        incoming_message: ModelMessageView,
        services: Services<M::Rng>,
    ) -> EventOutcome<M::State, M::Rng, ()> {
        M::spec_events_ext(state, incoming_message, services)
    }

    open spec fn spec_events_int(state: M::State, services: Services<M::Rng>) -> EventOutcome<
        M::State,
        M::Rng,
        Seq<ModelMessageView>,
    > {
        M::spec_events_int(state, services)
    }

    open spec fn spec_time_advance(state: M::State, time_delta: Time) -> M::State {
        M::spec_time_advance(state, time_delta)
    }

    open spec fn spec_until_next_event(state: M::State) -> Time {
        M::spec_until_next_event(state)
    }

    fn events_ext(
        &mut self,
        incoming_message: &ModelMessage,
        services: &mut Services<M::Rng>,
    ) -> (result: Result<(), ModelFailure>)
        ensures
            final(self).id == old(self).id,
    {
        self.inner.events_ext(incoming_message, services)
    }

    fn events_int(&mut self, services: &mut Services<M::Rng>) -> (result: Result<
        Vec<ModelMessage>,
        ModelFailure,
    >)
        ensures
            final(self).id == old(self).id,
    {
        self.inner.events_int(services)
    }

    fn time_advance(&mut self, time_delta: Time)
        ensures
            final(self).id == old(self).id,
    {
        self.inner.time_advance(time_delta);
    }

    fn until_next_event(&self) -> (time: Time) {
        self.inner.until_next_event()
    }
}

impl<M: Reportable> Reportable for Model<M> {
    open spec fn spec_status(state: M::State) -> Seq<char> {
        M::spec_status(state)
    }

    open spec fn spec_records(state: M::State) -> Seq<ModelRecordView> {
        M::spec_records(state)
    }

    fn status(&self) -> (status: String) {
        self.inner.status()
    }

    fn records(&self) -> (records: &Vec<ModelRecord>) {
        self.inner.records()
    }
}

} // verus!
