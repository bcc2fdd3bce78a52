//! What a simulation is and what a step does to it, as mathematical functions.
//!
//! The stepping functions of [`Simulation`](super::Simulation) are proved equal
//! to the functions of this module.

use super::collection::{distinct_ids, find_model, model_ids};
use super::coupling::{ConnectorView, MessageView};
use super::services::Services;
use crate::models::{DevsModel, ModelMessageView, ModelView};
use crate::time::Time;
use crate::utils::errors::ErrorView;
use vstd::prelude::*;

verus! {

/// The state of a simulation: its models in their order, its connectors in the
/// order of their declaration, the messages that wait for the next step, and
/// the clock and random source.
pub struct SimulationView<M: DevsModel> {
    pub models: Seq<ModelView<M::State>>,
    pub connectors: Seq<ConnectorView>,
    pub messages: Seq<MessageView>,
    pub services: Services<M::Rng>,
}

/// The models and services after a phase of a step, with what the phase
/// produced or the failure that ended it.
pub struct PhaseOutcome<M: DevsModel, T> {
    pub models: Seq<ModelView<M::State>>,
    pub services: Services<M::Rng>,
    pub result: Result<T, ErrorView>,
}

/// The simulation after one or several steps, with the messages that the steps
/// produced or the failure that ended them.
pub struct RunOutcome<M: DevsModel> {
    pub state: SimulationView<M>,
    pub result: Result<Seq<MessageView>, ErrorView>,
}

/// The target that `connector` gives to what leaves `source_port` of the model
/// `source_id`, if it leaves from there: the id of the target model and the
/// port at which it arrives.
pub open spec fn target_through(
    connector: ConnectorView,
    source_id: Seq<char>,
    source_port: Seq<char>,
) -> Option<(Seq<char>, Seq<char>)> {
    if connector.leaves(source_id, source_port) {
        Some((connector.target_id, connector.target_port))
    } else {
        None
    }
}

/// `target_through` as a function of the connector.
pub open spec fn routing_rule(source_id: Seq<char>, source_port: Seq<char>) -> spec_fn(
    ConnectorView,
) -> Option<(Seq<char>, Seq<char>)> {
    |connector: ConnectorView| target_through(connector, source_id, source_port)
}

/// The targets of what leaves `source_port` of the model `source_id`: the pair
/// of target id and target port of each connector that leaves from there, in
/// the order in which the connectors were declared.
pub open spec fn route(
    connectors: Seq<ConnectorView>,
    source_id: Seq<char>,
    source_port: Seq<char>,
) -> Seq<(Seq<char>, Seq<char>)> {
    connectors.filter_map(routing_rule(source_id, source_port))
}

/// The message that carries `outgoing` from the model `source_id` to `target`.
pub open spec fn message_to(
    source_id: Seq<char>,
    outgoing: ModelMessageView,
    time: Time,
    target: (Seq<char>, Seq<char>),
) -> MessageView {
    MessageView {
        source_id,
        source_port: outgoing.port_name,
        target_id: target.0,
        target_port: target.1,
        time,
        content: outgoing.content,
    }
}

/// `message_to` as a function of the target.
pub open spec fn addressing_rule(source_id: Seq<char>, outgoing: ModelMessageView, time: Time)
    -> spec_fn((Seq<char>, Seq<char>)) -> MessageView {
    |target: (Seq<char>, Seq<char>)| message_to(source_id, outgoing, time, target)
}

/// The messages that come of `outgoing`, emitted by the model `source_id` at
/// `time`: one for each target that the connectors give it.
pub open spec fn fan_out(
    connectors: Seq<ConnectorView>,
    source_id: Seq<char>,
    outgoing: ModelMessageView,
    time: Time,
) -> Seq<MessageView> {
    route(connectors, source_id, outgoing.port_name).map_values(
        addressing_rule(source_id, outgoing, time),
    )
}

/// `fan_out` as a function of the emitted message.
pub open spec fn fan_out_rule(connectors: Seq<ConnectorView>, source_id: Seq<char>, time: Time)
    -> spec_fn(ModelMessageView) -> Seq<MessageView> {
    |outgoing: ModelMessageView| fan_out(connectors, source_id, outgoing, time)
}

/// The messages that come of all that the model `source_id` emitted at `time`,
/// in the order of emission.
pub open spec fn fan_out_all(
    connectors: Seq<ConnectorView>,
    source_id: Seq<char>,
    emitted: Seq<ModelMessageView>,
    time: Time,
) -> Seq<MessageView> {
    emitted.flat_map(fan_out_rule(connectors, source_id, time))
}

/// What a model sees of `message`: the port at which it arrives, and its content.
pub open spec fn as_model_message(message: MessageView) -> ModelMessageView {
    ModelMessageView { port_name: message.target_port, content: message.content }
}

/// Delivers `message` to its target as an external event.  The clock is the
/// same before and after.
pub open spec fn deliver<M: DevsModel>(
    models: Seq<ModelView<M::State>>,
    services: Services<M::Rng>,
    message: MessageView,
) -> PhaseOutcome<M, ()> {
    match find_model(models, message.target_id) {
        None => PhaseOutcome { models, services, result: Err(ErrorView::ModelNotFound) },
        Some(i) => {
            let outcome = M::spec_events_ext(models[i].state, as_model_message(message), services);
            PhaseOutcome {
                models: models.update(i, models[i].in_state(outcome.state)),
                services: outcome.services.at(services.global_time),
                result: match outcome.result {
                    Ok(_) => Ok(()),
                    Err(reason) => Err(
                        ErrorView::ModelEventFailure { model_id: models[i].id, reason },
                    ),
                },
            }
        },
    }
}

/// The external phase of a step: delivers `messages` one after another, and
/// stops at the first delivery that fails.
pub open spec fn external_phase<M: DevsModel>(
    models: Seq<ModelView<M::State>>,
    services: Services<M::Rng>,
    messages: Seq<MessageView>,
) -> PhaseOutcome<M, ()>
    decreases messages.len(),
{
    if messages.len() == 0 {
        PhaseOutcome { models, services, result: Ok(()) }
    } else {
        let first = deliver::<M>(models, services, messages.first());
        if first.result is Err {
            first
        } else {
            external_phase::<M>(first.models, first.services, messages.drop_first())
        }
    }
}

/// The least time until the next event of any of `models`; `Time::Infinite` if
/// there is no model.
pub open spec fn earliest_event<M: DevsModel>(models: Seq<ModelView<M::State>>) -> Time
    decreases models.len(),
{
    if models.len() == 0 {
        Time::Infinite
    } else {
        earliest_event::<M>(models.drop_last()).spec_min(
            M::spec_until_next_event(models.last().state),
        )
    }
}

/// Whether a model in the state `state` keeps its schedule: when the time until
/// its next event has passed, the event is due.
pub open spec fn keeps_schedule<M: DevsModel>(state: M::State) -> bool {
    M::spec_until_next_event(state) is Finite ==> M::spec_until_next_event(
        M::spec_time_advance(state, M::spec_until_next_event(state)),
    ) == Time::zero()
}

/// The passing of `time_delta` as a function of the model.
pub open spec fn advance_rule<M: DevsModel>(time_delta: Time) -> spec_fn(
    ModelView<M::State>,
) -> ModelView<M::State> {
    |model: ModelView<M::State>| model.in_state(M::spec_time_advance(model.state, time_delta))
}

/// `models` after `time_delta` has passed for each of them.
pub open spec fn advance_all<M: DevsModel>(models: Seq<ModelView<M::State>>, time_delta: Time)
    -> Seq<ModelView<M::State>> {
    models.map_values(advance_rule::<M>(time_delta))
}

/// Gives the model with the id `id` its turn in the internal phase: if its next
/// event is due it makes its internal transition, and what it emits is fanned
/// out along the connectors.  The clock is the same before and after.
pub open spec fn fire<M: DevsModel>(
    models: Seq<ModelView<M::State>>,
    services: Services<M::Rng>,
    connectors: Seq<ConnectorView>,
    id: Seq<char>,
) -> PhaseOutcome<M, Seq<MessageView>> {
    match find_model(models, id) {
        None => PhaseOutcome { models, services, result: Err(ErrorView::ModelNotFound) },
        Some(i) => if M::spec_until_next_event(models[i].state) != Time::zero() {
            PhaseOutcome { models, services, result: Ok(Seq::empty()) }
        } else {
            let outcome = M::spec_events_int(models[i].state, services);
            PhaseOutcome {
                models: models.update(i, models[i].in_state(outcome.state)),
                services: outcome.services.at(services.global_time),
                result: match outcome.result {
                    Ok(emitted) => Ok(fan_out_all(connectors, id, emitted, services.global_time)),
                    Err(reason) => Err(ErrorView::ModelEventFailure { model_id: id, reason }),
                },
            }
        },
    }
}

/// `outcome` with `sent` put before the messages that it produced.
pub open spec fn after_sending<M: DevsModel>(sent: Seq<MessageView>, outcome: PhaseOutcome<
    M,
    Seq<MessageView>,
>) -> PhaseOutcome<M, Seq<MessageView>> {
    PhaseOutcome {
        models: outcome.models,
        services: outcome.services,
        result: match outcome.result {
            Ok(more) => Ok(sent + more),
            Err(error) => Err(error),
        },
    }
}

/// Sending nothing first changes nothing, and sending `first` and then `second`
/// first is sending `first + second` first.
pub proof fn lemma_after_sending<M: DevsModel>(
    first: Seq<MessageView>,
    second: Seq<MessageView>,
    outcome: PhaseOutcome<M, Seq<MessageView>>,
)
    ensures
        after_sending(Seq::empty(), outcome) == outcome,
        after_sending(first, after_sending(second, outcome)) == after_sending(
            first + second,
            outcome,
        ),
{
    match outcome.result {
        Ok(more) => {
            assert(Seq::<MessageView>::empty() + more =~= more);
            assert(first + (second + more) =~= (first + second) + more);
        },
        Err(_) => {},
    }
}

/// The internal phase of a step: gives each id of `ids` its turn, in order, and
/// stops at the first model that fails.
pub open spec fn internal_phase<M: DevsModel>(
    models: Seq<ModelView<M::State>>,
    services: Services<M::Rng>,
    connectors: Seq<ConnectorView>,
    ids: Seq<Seq<char>>,
) -> PhaseOutcome<M, Seq<MessageView>>
    decreases ids.len(),
{
    if ids.len() == 0 {
        PhaseOutcome { models, services, result: Ok(Seq::empty()) }
    } else {
        let first = fire::<M>(models, services, connectors, ids.first());
        match first.result {
            Err(_) => first,
            Ok(sent) => after_sending(
                sent,
                internal_phase::<M>(first.models, first.services, connectors, ids.drop_first()),
            ),
        }
    }
}

/// `outcome` with `sent` put before the messages that it produced.
pub open spec fn after_producing<M: DevsModel>(sent: Seq<MessageView>, outcome: RunOutcome<M>)
    -> RunOutcome<M> {
    RunOutcome {
        state: outcome.state,
        result: match outcome.result {
            Ok(more) => Ok(sent + more),
            Err(error) => Err(error),
        },
    }
}

/// Producing nothing first changes nothing, and producing `first` and then
/// `second` first is producing `first + second` first.
pub proof fn lemma_after_producing<M: DevsModel>(
    first: Seq<MessageView>,
    second: Seq<MessageView>,
    outcome: RunOutcome<M>,
)
    ensures
        after_producing(Seq::empty(), outcome) == outcome,
        after_producing(first, after_producing(second, outcome)) == after_producing(
            first + second,
            outcome,
        ),
{
    match outcome.result {
        Ok(more) => {
            assert(Seq::<MessageView>::empty() + more =~= more);
            assert(first + (second + more) =~= (first + second) + more);
        },
        Err(_) => {},
    }
}

impl<M: DevsModel> SimulationView<M> {
    /// Whether no two models share an id.
    pub open spec fn ids_are_unique(self) -> bool {
        distinct_ids(self.models)
    }

    /// Whether every connector leaves a model of the simulation.
    pub open spec fn sources_resolve(self) -> bool {
        forall|i: int|
            0 <= i < self.connectors.len() ==> find_model(
                self.models,
                (#[trigger] self.connectors[i]).source_id,
            ) is Some
    }

    /// Whether every connector leads to a model of the simulation.
    pub open spec fn targets_resolve(self) -> bool {
        forall|i: int|
            0 <= i < self.connectors.len() ==> find_model(
                self.models,
                (#[trigger] self.connectors[i]).target_id,
            ) is Some
    }

    /// Whether every pending message is addressed to a model of the simulation.
    pub open spec fn messages_resolve(self) -> bool {
        forall|i: int|
            0 <= i < self.messages.len() ==> find_model(
                self.models,
                (#[trigger] self.messages[i]).target_id,
            ) is Some
    }

    /// Whether the simulation is sound: no two models share an id, every
    /// connector leaves a model and leads to a model, and every pending
    /// message is addressed to a model.
    pub open spec fn passes_check(self) -> bool {
        &&& self.ids_are_unique()
        &&& self.sources_resolve()
        &&& self.targets_resolve()
        &&& self.messages_resolve()
    }

    /// The time that a step lets pass: none while messages are pending, else
    /// the time until the earliest event of any model.
    pub open spec fn time_delta(self) -> Time {
        if self.messages.len() == 0 {
            earliest_event::<M>(self.models)
        } else {
            Time::zero()
        }
    }

    /// One step of the simulation.
    ///
    /// The pending messages are delivered to their targets.  Then time passes
    /// for every model, up to the earliest event if no message was pending and
    /// not at all if one was, and the clock moves on by as much.  Then each
    /// model whose event is due makes its internal transition, and what the
    /// models emit becomes the new pending messages.
    ///
    /// If a delivery fails, the pending messages and the clock stay as they
    /// were.  If an internal transition fails, time has passed, and no message
    /// is pending afterwards.
    pub open spec fn step(self) -> RunOutcome<M> {
        let delivered = external_phase::<M>(self.models, self.services, self.messages);
        match delivered.result {
            Err(error) => RunOutcome {
                state: SimulationView {
                    models: delivered.models,
                    connectors: self.connectors,
                    messages: self.messages,
                    services: delivered.services,
                },
                result: Err(error),
            },
            Ok(_) => {
                let time_delta = self.time_delta();
                let advanced = advance_all::<M>(delivered.models, time_delta);
                let services = delivered.services.at(
                    delivered.services.global_time.spec_plus(time_delta),
                );
                let fired = internal_phase::<M>(
                    advanced,
                    services,
                    self.connectors,
                    model_ids(advanced),
                );
                RunOutcome {
                    state: SimulationView {
                        models: fired.models,
                        connectors: self.connectors,
                        messages: match fired.result {
                            Ok(sent) => sent,
                            Err(_) => Seq::empty(),
                        },
                        services: fired.services,
                    },
                    result: fired.result,
                }
            },
        }
    }

    /// `n` steps, or as many as succeed: the run ends at the first step that
    /// fails.  A run that succeeds produces the messages of all its steps.
    pub open spec fn step_n(self, n: nat) -> RunOutcome<M>
        decreases n,
    {
        if n == 0 {
            RunOutcome { state: self, result: Ok(Seq::empty()) }
        } else {
            let first = self.step();
            match first.result {
                Err(_) => first,
                Ok(sent) => after_producing(sent, first.state.step_n((n - 1) as nat)),
            }
        }
    }

    /// Steps until the clock has reached `until`, but no more than `limit`
    /// steps: the run ends after the first step that leaves the clock at `until`
    /// or later, at the first step that fails, or when `limit` steps are done.
    /// A run that succeeds produces the messages of all its steps.
    pub open spec fn step_until(self, until: Time, limit: nat) -> RunOutcome<M>
        decreases limit,
    {
        if limit == 0 {
            RunOutcome { state: self, result: Ok(Seq::empty()) }
        } else {
            let first = self.step();
            match first.result {
                Err(_) => first,
                Ok(sent) => if until.spec_le(first.state.services.global_time) {
                    first
                } else {
                    after_producing(sent, first.state.step_until(until, (limit - 1) as nat))
                },
            }
        }
    }
}

} // verus!
