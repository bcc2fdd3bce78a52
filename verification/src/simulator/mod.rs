//! The simulation: models, connectors, pending messages and services, and the
//! stepping functions that drive them.

use crate::models::{DevsModel, Model, ModelMessage, ModelRecord, ModelView, Reportable};
use crate::text::str_eq;
use crate::time::Time;
use crate::utils::errors::{ErrorView, SimulationError, SimulationResult};
use vstd::prelude::*;

pub mod collection;
pub mod coupling;
pub mod laws;
pub mod semantics;
pub mod services;

pub use self::collection::{ModelCollection, ModelCollectionType};
pub use self::coupling::{Connector, ConnectorView, Message, MessageView};
pub use self::semantics::{PhaseOutcome, RunOutcome, SimulationView};
pub use self::services::Services;

use self::collection::find_model;
use self::coupling::clone_messages;
use self::laws::{
    is_step_failure, lemma_step, lemma_step_addresses_models, lemma_step_fails_only_in_a_handler,
};
use self::semantics::{
    addressing_rule, advance_all, after_producing, after_sending, earliest_event, external_phase,
    fan_out, fan_out_all, fan_out_rule, fire, internal_phase, lemma_after_producing,
    lemma_after_sending, route, routing_rule,
};

verus! {

pub type ConnectorCollectionType = Vec<Connector>;

pub type MessageCollectionType = Vec<Message>;

/// A simulation: the models, the connectors that couple them, the messages that
/// wait for the next step, and the clock and random source.
#[derive(Clone, Debug)]
pub struct Simulation<M: DevsModel> {
    models: ModelCollection<M>,
    connectors: Vec<Connector>,
    messages: Vec<Message>,
    services: Services<M::Rng>,
}

impl<M: DevsModel> View for Simulation<M> {
    type V = SimulationView<M>;

    closed spec fn view(&self) -> SimulationView<M> {
        SimulationView {
            models: self.models@,
            connectors: self.connectors.deep_view(),
            messages: self.messages.deep_view(),
            services: self.services,
        }
    }
}

impl<M: DevsModel> Default for Simulation<M> where M::Rng: Default {
    /// A simulation without models, connectors or pending messages, at the
    /// start of simulated time.
    fn default() -> (simulation: Self)
        ensures
            simulation@.models == Seq::<ModelView<M::State>>::empty(),
            simulation@.connectors == Seq::<ConnectorView>::empty(),
            simulation@.messages == Seq::<MessageView>::empty(),
            simulation@.services.global_time == Time::zero(),
    {
        let simulation = Simulation {
            models: ModelCollection::new(),
            connectors: Vec::new(),
            messages: Vec::new(),
            services: Services::default(),
        };
        assert(simulation@.connectors =~= Seq::<ConnectorView>::empty());
        assert(simulation@.messages =~= Seq::<MessageView>::empty());
        simulation
    }
}

impl<M: DevsModel> Simulation<M> {
    /// A simulation of `models` coupled by `connectors`, at the start of
    /// simulated time, with no message pending and a random source of its own.
    pub fn post(models: Vec<Model<M>>, connectors: Vec<Connector>) -> (simulation: Self) where
        M::Rng: Default,

        ensures
            simulation@.models == models.deep_view(),
            simulation@.connectors == connectors.deep_view(),
            simulation@.messages == Seq::<MessageView>::empty(),
            simulation@.services.global_time == Time::zero(),
    {
        let simulation = Simulation {
            models: ModelCollection::from_models(models),
            connectors,
            messages: Vec::new(),
            services: Services::default(),
        };
        assert(simulation@.messages =~= Seq::<MessageView>::empty());
        simulation
    }

    /// As `post`, from models that are already collected.
    pub fn post_hd(models: ModelCollection<M>, connectors: Vec<Connector>) -> (simulation: Self)
        where M::Rng: Default
        ensures
            simulation@.models == models@,
            simulation@.connectors == connectors.deep_view(),
            simulation@.messages == Seq::<MessageView>::empty(),
            simulation@.services.global_time == Time::zero(),
    {
        let simulation = Simulation {
            models,
            connectors,
            messages: Vec::new(),
            services: Services::default(),
        };
        assert(simulation@.messages =~= Seq::<MessageView>::empty());
        simulation
    }

    /// As `post_hd`, with `global_rng` as the random source.
    pub fn post_with_rng(
        models: ModelCollection<M>,
        connectors: Vec<Connector>,
        global_rng: M::Rng,
    ) -> (simulation: Self)
        ensures
            simulation@ == (SimulationView::<M> {
                models: models@,
                connectors: connectors.deep_view(),
                messages: Seq::empty(),
                services: Services { global_rng, global_time: Time::zero() },
            }),
    {
        let simulation = Simulation {
            models,
            connectors,
            messages: Vec::new(),
            services: Services::new(global_rng),
        };
        assert(simulation@.messages =~= Seq::<MessageView>::empty());
        simulation
    }

    /// Replaces the random source.
    pub fn set_rng(&mut self, rng: M::Rng)
        ensures
            final(self)@ == (SimulationView::<M> {
                services: Services {
                    global_rng: rng,
                    global_time: old(self)@.services.global_time,
                },
                ..old(self)@
            }),
    {
        self.services.global_rng = rng;
    }

    /// Replaces the models and the connectors.  The pending messages, the clock
    /// and the random source stay.
    pub fn put(&mut self, models: Vec<Model<M>>, connectors: Vec<Connector>)
        ensures
            final(self)@ == (SimulationView::<M> {
                models: models.deep_view(),
                connectors: connectors.deep_view(),
                ..old(self)@
            }),
    {
        self.models = ModelCollection::from_models(models);
        self.connectors = connectors;
    }

    /// As `put`, from models that are already collected.
    pub fn put_hm(&mut self, models: ModelCollection<M>, connectors: Vec<Connector>)
        ensures
            final(self)@ == (SimulationView::<M> {
                models: models@,
                connectors: connectors.deep_view(),
                ..old(self)@
            }),
    {
        self.models = models;
        self.connectors = connectors;
    }

    /// The messages that wait for the next step.
    pub fn get_messages(&self) -> (messages: &Vec<Message>)
        ensures
            messages.deep_view() == self@.messages,
    {
        &self.messages
    }

    /// The time on the simulation's clock.
    pub fn get_global_time(&self) -> (time: Time)
        ensures
            time == self@.services.global_time,
    {
        self.services.global_time()
    }

    /// Forgets the pending messages and sets the clock back to the start of
    /// simulated time.  Models, connectors and random source stay as they are.
    pub fn reset(&mut self)
        ensures
            final(self)@ == (SimulationView::<M> {
                messages: Seq::empty(),
                services: old(self)@.services.at(Time::zero()),
                ..old(self)@
            }),
    {
        self.reset_messages();
        self.reset_global_time();
    }

    /// Forgets the pending messages.
    pub fn reset_messages(&mut self)
        ensures
            final(self)@ == (SimulationView::<M> { messages: Seq::empty(), ..old(self)@ }),
    {
        self.messages = Vec::new();
        assert(self.messages.deep_view() =~= Seq::<MessageView>::empty());
    }

    /// Sets the clock back to the start of simulated time.
    pub fn reset_global_time(&mut self)
        ensures
            final(self)@ == (SimulationView::<M> {
                services: old(self)@.services.at(Time::zero()),
                ..old(self)@
            }),
    {
        self.services.set_global_time(Time::zero());
    }

    /// The models of the simulation.
    pub fn get_models(&self) -> (models: &ModelCollection<M>)
        ensures
            models@ == self@.models,
    {
        &self.models
    }

    /// The model with the id `model_id`, to be changed in place.
    pub fn get_model_mut(&mut self, model_id: &str) -> (found: SimulationResult<&mut Model<M>>)
        ensures
            match found {
                Ok(model) => {
                    &&& find_model(old(self)@.models, model_id@) is Some
                    &&& model@ == old(self)@.models[find_model(old(self)@.models, model_id@)->0]
                    &&& final(self)@ == (SimulationView::<M> {
                        models: old(self)@.models.update(
                            find_model(old(self)@.models, model_id@)->0,
                            final(model)@,
                        ),
                        ..old(self)@
                    })
                },
                Err(error) => {
                    &&& find_model(old(self)@.models, model_id@) is None
                    &&& error == SimulationError::ModelNotFound
                    &&& final(self)@ == old(self)@
                },
            },
    {
        match self.models.get_mut(model_id) {
            Some(model) => Ok(model),
            None => Err(SimulationError::ModelNotFound),
        }
    }

    /// The connectors, in the order of their declaration.
    pub fn get_connectors(&self) -> (connectors: &[Connector])
        ensures
            connectors.deep_view() == self@.connectors,
    {
        let connectors = self.connectors.as_slice();
        assert(connectors.deep_view() =~= self.connectors.deep_view());
        connectors
    }

    /// The router: where the connectors lead what leaves the port `source_port`
    /// of the model `source_id`, as pairs of target id and target port, in the
    /// order in which the connectors were declared.
    pub fn get_message_target_tuple(&self, source_id: &str, source_port: &str) -> (targets: Vec<
        (String, String),
    >)
        ensures
            targets.deep_view() == route(self@.connectors, source_id@, source_port@),
    {
        let ghost connectors = self.connectors.deep_view();
        let mut targets: Vec<(String, String)> = Vec::new();
        let mut i: usize = 0;
        assert(targets.deep_view() =~= route(connectors.take(0), source_id@, source_port@));
        while i < self.connectors.len()
            invariant
                i <= self.connectors.len(),
                connectors == self.connectors.deep_view(),
                targets.deep_view() == route(connectors.take(i as int), source_id@, source_port@),
            decreases self.connectors.len() - i,
        {
            let connector = &self.connectors[i];
            let ghost before = targets.deep_view();
            proof {
                connectors.lemma_filter_map_take_succ(
                    routing_rule(source_id@, source_port@),
                    i as int,
                );
                assert(connectors[i as int] == connector@);
            }
            if str_eq(connector.source_id(), source_id) && str_eq(
                connector.source_port(),
                source_port,
            ) {
                targets.push((connector.target_id.clone(), connector.target_port.clone()));
                assert(targets.deep_view() =~= before + seq![
                    (connector.target_id@, connector.target_port@),
                ]);
            } else {
                assert(before + Seq::<(Seq<char>, Seq<char>)>::empty() =~= before);
            }
            i = i + 1;
        }
        assert(connectors.take(self.connectors.len() as int) =~= connectors);
        targets
    }

    /// Adds `message` to the pending messages.  It is delivered in the next
    /// step, after those that were pending before.
    pub fn inject_input(&mut self, message: Message)
        ensures
            final(self)@ == (SimulationView::<M> {
                messages: old(self)@.messages.push(message@),
                ..old(self)@
            }),
    {
        self.messages.push(message);
        assert(self.messages.deep_view() =~= old(self).messages.deep_view().push(message@));
    }

    /// The messages that come of `new_messages`, emitted by the model
    /// `model_id` now: for each of them, in order, one message for each target
    /// that the router gives it.
    pub fn map_new_messages(&mut self, model_id: String, new_messages: &Vec<ModelMessage>) -> (
        messages: Vec<Message>
    )
        ensures
            messages.deep_view() == fan_out_all(
                old(self)@.connectors,
                model_id@,
                new_messages.deep_view(),
                old(self)@.services.global_time,
            ),
            final(self)@ == old(self)@,
    {
        let ghost rule = fan_out_rule(self@.connectors, model_id@, self@.services.global_time);
        let ghost emitted = new_messages.deep_view();
        let mut messages: Vec<Message> = Vec::new();
        let mut i: usize = 0;
        assert(messages.deep_view() =~= emitted.take(0).map_values(rule).flatten());
        while i < new_messages.len()
            invariant
                i <= new_messages.len(),
                self@ == old(self)@,
                emitted == new_messages.deep_view(),
                rule == fan_out_rule(self@.connectors, model_id@, self@.services.global_time),
                messages.deep_view() == emitted.take(i as int).map_values(rule).flatten(),
            decreases new_messages.len() - i,
        {
            let mut fresh = self.map_new_message(model_id.clone(), &new_messages[i]);
            let ghost before = messages.deep_view();
            proof {
                let done = emitted.take(i as int).map_values(rule);
                assert(emitted[i as int] == new_messages@[i as int]@);
                assert(emitted.take(i + 1).map_values(rule) =~= done.push(rule(emitted[i as int])));
                done.lemma_flatten_push(rule(emitted[i as int]));
            }
            let ghost added = fresh.deep_view();
            messages.append(&mut fresh);
            assert(messages.deep_view() =~= before + added);
            i = i + 1;
        }
        assert(emitted.take(new_messages.len() as int) =~= emitted);
        messages
    }

    /// The messages that come of `new_message`, emitted by the model `model_id`
    /// now: one for each target that the router gives it, in the router's
    /// order, stamped with the time on the clock.
    pub fn map_new_message(&mut self, model_id: String, new_message: &ModelMessage) -> (
        messages: Vec<Message>
    )
        ensures
            messages.deep_view() == fan_out(
                old(self)@.connectors,
                model_id@,
                new_message@,
                old(self)@.services.global_time,
            ),
            final(self)@ == old(self)@,
    {
        let targets = self.get_message_target_tuple(
            model_id.as_str(),
            new_message.port_name.as_str(),
        );
        let time = self.services.global_time();
        let ghost rule = addressing_rule(model_id@, new_message@, time);
        let mut messages: Vec<Message> = Vec::new();
        let mut i: usize = 0;
        assert(messages.deep_view() =~= targets.deep_view().take(0).map_values(rule));
        while i < targets.len()
            invariant
                i <= targets.len(),
                rule == addressing_rule(model_id@, new_message@, time),
                messages.deep_view() == targets.deep_view().take(i as int).map_values(rule),
            decreases targets.len() - i,
        {
            let target = &targets[i];
            let ghost before = messages.deep_view();
            let message = Message::new(
                model_id.clone(),
                new_message.port_name.clone(),
                target.0.clone(),
                target.1.clone(),
                time,
                new_message.content.clone(),
            );
            proof {
                let routed = targets.deep_view();
                assert(routed[i as int] == (target.0@, target.1@));
                assert(message@ == rule(routed[i as int]));
                assert(routed.take(i + 1).map_values(rule) =~= routed.take(i as int).map_values(
                    rule,
                ).push(rule(routed[i as int])));
            }
            messages.push(message);
            assert(messages.deep_view() =~= before.push(message@));
            i = i + 1;
        }
        assert(targets.deep_view().take(targets.len() as int) =~= targets.deep_view());
        messages
    }

    /// The least time until the next event of any model; `Time::Infinite` if
    /// the simulation has no model.
    pub fn until_next_event(&self) -> (time: Time)
        ensures
            time == earliest_event::<M>(self@.models),
    {
        let mut earliest = Time::Infinite;
        let mut i: usize = 0;
        while i < self.models.len()
            invariant
                i <= self.models@.len(),
                earliest == earliest_event::<M>(self.models@.take(i as int)),
            decreases self.models@.len() - i,
        {
            let due = self.models.at(i).until_next_event();
            assert(self.models@.take(i + 1).drop_last() =~= self.models@.take(i as int));
            earliest = earliest.min(due);
            i = i + 1;
        }
        assert(self.models@.take(self.models@.len() as int) =~= self.models@);
        earliest
    }

    /// Lets `time_delta` pass for every model.  The clock is not moved.
    pub fn time_advance(&mut self, time_delta: Time)
        ensures
            final(self)@ == (SimulationView::<M> {
                models: advance_all::<M>(old(self)@.models, time_delta),
                ..old(self)@
            }),
    {
        let mut i: usize = 0;
        while i < self.models.len()
            invariant
                i <= self.models@.len(),
                self.models@.len() == old(self)@.models.len(),
                self.connectors.deep_view() == old(self)@.connectors,
                self.messages.deep_view() == old(self)@.messages,
                self.services == old(self)@.services,
                forall|j: int|
                    0 <= j < i ==> self.models@[j] == (#[trigger] old(self)@.models[j]).in_state(
                        M::spec_time_advance(old(self)@.models[j].state, time_delta),
                    ),
                forall|j: int|
                    i <= j < self.models@.len() ==> self.models@[j] == #[trigger] old(
                        self,
                    )@.models[j],
            decreases self.models@.len() - i,
        {
            self.models.at_mut(i).time_advance(time_delta);
            i = i + 1;
        }
        assert(self.models@ =~= advance_all::<M>(old(self)@.models, time_delta));
    }

    /// The external phase of a step: delivers `messages` to their targets, one
    /// after another, as external events.  The first delivery that fails ends
    /// the phase: by `ModelNotFound` if no model has the target id, by
    /// `ModelEventFailure` if the target's handler fails.  The models that
    /// received a message before that have changed.
    pub fn handle_messages(&mut self, messages: Vec<Message>) -> (result: SimulationResult<()>)
        ensures
            ({
                let outcome = external_phase::<M>(
                    old(self)@.models,
                    old(self)@.services,
                    messages.deep_view(),
                );
                &&& final(self)@ == (SimulationView::<M> {
                    models: outcome.models,
                    services: outcome.services,
                    ..old(self)@
                })
                &&& match result {
                    Ok(_) => outcome.result == Ok::<(), ErrorView>(()),
                    Err(error) => outcome.result == Err::<(), ErrorView>(error@),
                }
            }),
    {
        let ghost pending = messages.deep_view();
        let mut i: usize = 0;
        assert(pending.skip(0) =~= pending);
        while i < messages.len()
            invariant
                i <= messages.len(),
                pending == messages.deep_view(),
                self.connectors.deep_view() == old(self)@.connectors,
                self.messages.deep_view() == old(self)@.messages,
                external_phase::<M>(old(self)@.models, old(self)@.services, pending)
                    == external_phase::<M>(self.models@, self.services, pending.skip(i as int)),
            decreases messages.len() - i,
        {
            let message = &messages[i];
            proof {
                assert(pending.skip(i as int).first() == message@);
                assert(pending.skip(i as int).drop_first() =~= pending.skip(i + 1));
            }
            match self.models.position(message.target_id()) {
                None => {
                    return Err(SimulationError::ModelNotFound);
                },
                Some(place) => {
                    let incoming = ModelMessage {
                        port_name: message.target_port.clone(),
                        content: message.content.clone(),
                    };
                    let now = self.services.global_time();
                    let handled = self.models.at_mut(place).events_ext(
                        &incoming,
                        &mut self.services,
                    );
                    self.services.set_global_time(now);
                    match handled {
                        Ok(_) => {},
                        Err(failure) => {
                            let model_id = self.models.at(place).owned_id();
                            return Err(
                                SimulationError::ModelEventFailure {
                                    model_id,
                                    reason: failure.reason,
                                },
                            );
                        },
                    }
                },
            }
            i = i + 1;
        }
        Ok(())
    }

    /// One step of the simulation: the pending messages are delivered, time
    /// passes, the models that are due fire, and what they emit becomes the
    /// new pending messages, which are also returned.
    ///
    /// The clock is never set back.  A step fails only where a pending message
    /// has no target or a handler fails.  Where all connectors lead to models,
    /// the messages that are pending after a step that succeeds are all
    /// addressed to models.
    #[verifier::loop_isolation(false)]
    pub fn step(&mut self) -> (result: SimulationResult<Vec<Message>>)
        ensures
            final(self)@ == old(self)@.step().state,
            match result {
                Ok(sent) => old(self)@.step().result == Ok::<Seq<MessageView>, ErrorView>(
                    sent.deep_view(),
                ),
                Err(error) => old(self)@.step().result == Err::<Seq<MessageView>, ErrorView>(
                    error@,
                ),
            },
            old(self)@.services.global_time.spec_le(final(self)@.services.global_time),
            result matches Err(error) ==> is_step_failure(error@),
            old(self)@.messages_resolve() ==> (result matches Err(error)
                ==> error is ModelEventFailure),
            old(self)@.targets_resolve() && result is Ok ==> final(self)@.messages_resolve(),
    {
        proof {
            lemma_step(self@);
            if self@.messages_resolve() {
                lemma_step_fails_only_in_a_handler(self@);
            }
            if self@.targets_resolve() {
                lemma_step_addresses_models(self@);
            }
        }
        let pending = clone_messages(&self.messages);
        match self.handle_messages(pending) {
            Err(error) => {
                return Err(error);
            },
            Ok(_) => {},
        }
        let time_delta = if self.messages.is_empty() {
            self.until_next_event()
        } else {
            Time::zero()
        };
        self.time_advance(time_delta);
        let now = self.services.global_time().plus(time_delta);
        self.services.set_global_time(now);

        let ids = self.models.keys();
        let ghost turns = ids.deep_view();
        let ghost connectors = self.connectors.deep_view();
        let ghost total = internal_phase::<M>(self.models@, self.services, connectors, turns);
        let mut next_messages: Vec<Message> = Vec::new();
        let mut i: usize = 0;
        proof {
            assert(turns.skip(0) =~= turns);
            assert(next_messages.deep_view() =~= Seq::<MessageView>::empty());
            lemma_after_sending(Seq::empty(), Seq::empty(), total);
        }
        while i < ids.len()
            invariant
                i <= ids.len(),
                turns == ids.deep_view(),
                connectors == self.connectors.deep_view(),
                connectors == old(self)@.connectors,
                self.services.global_time == now,
                old(self)@.step().state.models == total.models,
                old(self)@.step().state.services == total.services,
                old(self)@.step().state.connectors == old(self)@.connectors,
                old(self)@.step().state.messages == match total.result {
                    Ok(sent) => sent,
                    Err(_) => Seq::empty(),
                },
                old(self)@.step().result == total.result,
                total == after_sending(
                    next_messages.deep_view(),
                    internal_phase::<M>(
                        self.models@,
                        self.services,
                        connectors,
                        turns.skip(i as int),
                    ),
                ),
            decreases ids.len() - i,
        {
            proof {
                assert(turns.skip(i as int).first() == ids@[i as int]@);
                assert(turns.skip(i as int).drop_first() =~= turns.skip(i + 1));
            }
            let ghost turn = fire::<M>(self.models@, self.services, connectors, ids@[i as int]@);
            let ghost rest = internal_phase::<M>(
                turn.models,
                turn.services,
                connectors,
                turns.skip(i + 1),
            );
            let ghost sent_before = next_messages.deep_view();
            match self.models.position(ids[i].as_str()) {
                None => {
                    self.messages = Vec::new();
                    assert(self.messages.deep_view() =~= Seq::<MessageView>::empty());
                    return Err(SimulationError::ModelNotFound);
                },
                Some(place) => {
                    if self.models.at(place).until_next_event().is_zero() {
                        let fired = self.models.at_mut(place).events_int(&mut self.services);
                        self.services.set_global_time(now);
                        match fired {
                            Err(failure) => {
                                self.messages = Vec::new();
                                assert(self.messages.deep_view() =~= Seq::<MessageView>::empty());
                                return Err(
                                    SimulationError::ModelEventFailure {
                                        model_id: ids[i].clone(),
                                        reason: failure.reason,
                                    },
                                );
                            },
                            Ok(emitted) => {
                                let mut fresh = self.map_new_messages(ids[i].clone(), &emitted);
                                let ghost added = fresh.deep_view();
                                proof {
                                    lemma_after_sending(sent_before, added, rest);
                                }
                                next_messages.append(&mut fresh);
                                assert(next_messages.deep_view() =~= sent_before + added);
                            },
                        }
                    } else {
                        proof {
                            lemma_after_sending(sent_before, Seq::empty(), rest);
                            assert(sent_before + Seq::<MessageView>::empty() =~= sent_before);
                        }
                    }
                },
            }
            i = i + 1;
        }
        proof {
            assert(next_messages.deep_view() + Seq::<MessageView>::empty()
                =~= next_messages.deep_view());
        }
        self.messages = next_messages;
        Ok(clone_messages(&self.messages))
    }

    /// `n` steps, one after another.  The first step that fails ends the run
    /// with its failure.  If none fails, the messages that the steps produced
    /// are returned, those of the first step first.
    pub fn step_n(&mut self, n: usize) -> (result: SimulationResult<Vec<Message>>)
        ensures
            final(self)@ == old(self)@.step_n(n as nat).state,
            match result {
                Ok(sent) => old(self)@.step_n(n as nat).result == Ok::<
                    Seq<MessageView>,
                    ErrorView,
                >(sent.deep_view()),
                Err(error) => old(self)@.step_n(n as nat).result == Err::<
                    Seq<MessageView>,
                    ErrorView,
                >(error@),
            },
    {
        let mut message_records: Vec<Message> = Vec::new();
        let mut i: usize = 0;
        proof {
            assert(message_records.deep_view() =~= Seq::<MessageView>::empty());
            lemma_after_producing(Seq::empty(), Seq::empty(), self@.step_n(n as nat));
        }
        while i < n
            invariant
                i <= n,
                old(self)@.step_n(n as nat) == after_producing(
                    message_records.deep_view(),
                    self@.step_n((n - i) as nat),
                ),
            decreases n - i,
        {
            let ghost before = self@;
            let ghost rest = before.step().state.step_n((n - i - 1) as nat);
            match self.step() {
                Err(error) => {
                    return Err(error);
                },
                Ok(sent) => {
                    let mut sent = sent;
                    let ghost earlier = message_records.deep_view();
                    let ghost added = sent.deep_view();
                    proof {
                        lemma_after_producing(earlier, added, rest);
                    }
                    message_records.append(&mut sent);
                    assert(message_records.deep_view() =~= earlier + added);
                },
            }
            i = i + 1;
        }
        proof {
            assert(message_records.deep_view() + Seq::<MessageView>::empty()
                =~= message_records.deep_view());
        }
        Ok(message_records)
    }

    /// Steps until the clock has reached `until`, but no more than `limit`
    /// steps.  The first step that fails ends the run with its failure.  If
    /// none fails, the messages that the steps produced are returned, those of
    /// the first step first.
    pub fn step_until(&mut self, until: Time, limit: usize) -> (result: SimulationResult<
        Vec<Message>,
    >)
        ensures
            final(self)@ == old(self)@.step_until(until, limit as nat).state,
            match result {
                Ok(sent) => old(self)@.step_until(until, limit as nat).result == Ok::<
                    Seq<MessageView>,
                    ErrorView,
                >(sent.deep_view()),
                Err(error) => old(self)@.step_until(until, limit as nat).result == Err::<
                    Seq<MessageView>,
                    ErrorView,
                >(error@),
            },
    {
        let mut message_records: Vec<Message> = Vec::new();
        let mut i: usize = 0;
        proof {
            assert(message_records.deep_view() =~= Seq::<MessageView>::empty());
            lemma_after_producing(
                Seq::empty(),
                Seq::empty(),
                self@.step_until(until, limit as nat),
            );
        }
        while i < limit
            invariant
                i <= limit,
                old(self)@.step_until(until, limit as nat) == after_producing(
                    message_records.deep_view(),
                    self@.step_until(until, (limit - i) as nat),
                ),
            decreases limit - i,
        {
            let ghost before = self@;
            let ghost rest = before.step().state.step_until(until, (limit - i - 1) as nat);
            match self.step() {
                Err(error) => {
                    return Err(error);
                },
                Ok(sent) => {
                    let mut sent = sent;
                    let ghost earlier = message_records.deep_view();
                    let ghost added = sent.deep_view();
                    proof {
                        lemma_after_producing(earlier, added, rest);
                    }
                    message_records.append(&mut sent);
                    assert(message_records.deep_view() =~= earlier + added);
                },
            }
            if until.le(self.services.global_time()) {
                return Ok(message_records);
            }
            i = i + 1;
        }
        proof {
            assert(message_records.deep_view() + Seq::<MessageView>::empty()
                =~= message_records.deep_view());
        }
        Ok(message_records)
    }
}

impl<M: DevsModel + Reportable> Simulation<M> {
    /// The status line of the model with the id `model_id`.
    pub fn get_status(&self, model_id: &str) -> (status: Result<String, SimulationError>)
        ensures
            match find_model(self@.models, model_id@) {
                Some(i) => status is Ok && status->Ok_0@ == M::spec_status(self@.models[i].state),
                None => status == Err::<String, SimulationError>(SimulationError::ModelNotFound),
            },
    {
        match self.models.get(model_id) {
            Some(model) => Ok(model.status()),
            None => Err(SimulationError::ModelNotFound),
        }
    }

    /// The log of the model with the id `model_id`.
    pub fn get_records(&self, model_id: &str) -> (records: Result<
        &Vec<ModelRecord>,
        SimulationError,
    >)
        ensures
            match find_model(self@.models, model_id@) {
                Some(i) => records is Ok && records->Ok_0.deep_view() == M::spec_records(
                    self@.models[i].state,
                ),
                None => records == Err::<&Vec<ModelRecord>, SimulationError>(
                    SimulationError::ModelNotFound,
                ),
            },
    {
        match self.models.get(model_id) {
            Some(model) => Ok(model.records()),
            None => Err(SimulationError::ModelNotFound),
        }
    }
}

} // verus!
