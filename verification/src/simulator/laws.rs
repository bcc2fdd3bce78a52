//! What holds of every simulation, whatever its models do.

use super::collection::{find_model, is_first_with_id, lemma_find_model, model_ids};
use super::coupling::{ConnectorView, MessageView};
use super::semantics::{
    advance_all, after_producing, after_sending, deliver, earliest_event, external_phase, fan_out,
    fan_out_all, fan_out_rule, fire, internal_phase, keeps_schedule, lemma_after_producing,
    message_to, route, routing_rule, target_through, PhaseOutcome, RunOutcome, SimulationView,
};
use super::services::Services;
use crate::models::{DevsModel, ModelMessageView, ModelView};
use crate::time::Time;
use crate::utils::errors::ErrorView;
use vstd::prelude::*;

verus! {

/// Whether `after` holds as many models as `before`, with the same ids in the
/// same places.
pub open spec fn same_ids<S>(before: Seq<ModelView<S>>, after: Seq<ModelView<S>>) -> bool {
    &&& before.len() == after.len()
    &&& forall|i: int| 0 <= i < before.len() ==> (#[trigger] after[i]).id == before[i].id
}

/// Whether a connector leads from the source of `message` to its target.
pub open spec fn routed(connectors: Seq<ConnectorView>, message: MessageView) -> bool {
    exists|c: int|
        0 <= c < connectors.len() && target_through(
            #[trigger] connectors[c],
            message.source_id,
            message.source_port,
        ) == Some((message.target_id, message.target_port))
}

/// Whether `message` is one that the model `source_id` can have sent at `time`:
/// it names that model as its source, bears that time, and follows a connector.
pub open spec fn sent_by(
    connectors: Seq<ConnectorView>,
    source_id: Seq<char>,
    time: Time,
    message: MessageView,
) -> bool {
    &&& message.source_id == source_id
    &&& message.time == time
    &&& routed(connectors, message)
}

/// Whether each of `messages` bears `time` and follows a connector.
pub open spec fn all_routed_at(
    connectors: Seq<ConnectorView>,
    time: Time,
    messages: Seq<MessageView>,
) -> bool {
    forall|j: int|
        0 <= j < messages.len() ==> (#[trigger] messages[j]).time == time && routed(
            connectors,
            messages[j],
        )
}

/// Whether `error` is one that a step can end with.
pub open spec fn is_step_failure(error: ErrorView) -> bool {
    error is ModelNotFound || error is ModelEventFailure
}

/// Lookups by id do not tell apart two collections with the same ids in the
/// same places.
pub proof fn lemma_find_model_same_ids<S>(
    before: Seq<ModelView<S>>,
    after: Seq<ModelView<S>>,
    id: Seq<char>,
)
    requires
        same_ids(before, after),
    ensures
        find_model(after, id) == find_model(before, id),
{
    lemma_find_model(before, id);
    lemma_find_model(after, id);
    match find_model(before, id) {
        Some(i) => {
            assert(after[i].id == before[i].id);
            assert forall|j: int| 0 <= j < i implies (#[trigger] after[j]).id != id by {
                assert(before[j].id != id);
            }
            assert(is_first_with_id(after, id, i));
        },
        None => {
            assert forall|j: int| 0 <= j < after.len() implies (#[trigger] after[j]).id != id by {
                assert(before[j].id != id);
            }
        },
    }
}

/// Each message that the router makes of an emitted message follows a
/// connector, names the emitting model and bears the time of emission.
pub proof fn lemma_fan_out(
    connectors: Seq<ConnectorView>,
    source_id: Seq<char>,
    outgoing: ModelMessageView,
    time: Time,
)
    ensures
        forall|j: int|
            0 <= j < fan_out(connectors, source_id, outgoing, time).len() ==> sent_by(
                connectors,
                source_id,
                time,
                #[trigger] fan_out(connectors, source_id, outgoing, time)[j],
            ),
{
    let targets = route(connectors, source_id, outgoing.port_name);
    let rule = routing_rule(source_id, outgoing.port_name);
    let messages = fan_out(connectors, source_id, outgoing, time);
    assert forall|j: int| 0 <= j < messages.len() implies sent_by(
        connectors,
        source_id,
        time,
        #[trigger] messages[j],
    ) by {
        let target = targets[j];
        assert(messages[j] == message_to(source_id, outgoing, time, target));
        assert(targets.contains(target));
        connectors.lemma_filter_map_contains(rule, target);
        let connector = choose|t: ConnectorView| #[trigger]
            connectors.contains(t) && rule(t) == Some(target);
        let c = choose|c: int| 0 <= c < connectors.len() && connectors[c] == connector;
        assert(target_through(connectors[c], source_id, outgoing.port_name) == Some(target));
    }
}

/// The same of all that a model emits in one internal transition.
pub proof fn lemma_fan_out_all(
    connectors: Seq<ConnectorView>,
    source_id: Seq<char>,
    emitted: Seq<ModelMessageView>,
    time: Time,
)
    ensures
        forall|j: int|
            0 <= j < fan_out_all(connectors, source_id, emitted, time).len() ==> sent_by(
                connectors,
                source_id,
                time,
                #[trigger] fan_out_all(connectors, source_id, emitted, time)[j],
            ),
    decreases emitted.len(),
{
    let rule = fan_out_rule(connectors, source_id, time);
    if emitted.len() == 0 {
        assert(emitted.map_values(rule) =~= Seq::<Seq<MessageView>>::empty());
    } else {
        let earlier = emitted.drop_last();
        lemma_fan_out_all(connectors, source_id, earlier, time);
        lemma_fan_out(connectors, source_id, emitted.last(), time);
        assert(emitted.map_values(rule) =~= earlier.map_values(rule).push(rule(emitted.last())));
        earlier.map_values(rule).lemma_flatten_push(rule(emitted.last()));
        assert(fan_out_all(connectors, source_id, emitted, time) =~= fan_out_all(
            connectors,
            source_id,
            earlier,
            time,
        ) + fan_out(connectors, source_id, emitted.last(), time));
    }
}

/// A delivery leaves every model in its place under its id and leaves the clock
/// alone.
proof fn lemma_deliver<M: DevsModel>(
    models: Seq<ModelView<M::State>>,
    services: Services<M::Rng>,
    message: MessageView,
)
    ensures
        same_ids(models, deliver::<M>(models, services, message).models),
        deliver::<M>(models, services, message).services.global_time == services.global_time,
{
    lemma_find_model(models, message.target_id);
}

/// A model's turn in the internal phase leaves every model in its place under
/// its id and leaves the clock alone, and what it produces follows the
/// connectors.
proof fn lemma_fire<M: DevsModel>(
    models: Seq<ModelView<M::State>>,
    services: Services<M::Rng>,
    connectors: Seq<ConnectorView>,
    id: Seq<char>,
)
    ensures
        same_ids(models, fire::<M>(models, services, connectors, id).models),
        fire::<M>(models, services, connectors, id).services.global_time == services.global_time,
        fire::<M>(models, services, connectors, id).result matches Ok(sent) ==> all_routed_at(
            connectors,
            services.global_time,
            sent,
        ),
{
    lemma_find_model(models, id);
    match find_model(models, id) {
        Some(i) => {
            if M::spec_until_next_event(models[i].state) == Time::zero() {
                match M::spec_events_int(models[i].state, services).result {
                    Ok(emitted) => {
                        lemma_fan_out_all(connectors, id, emitted, services.global_time);
                    },
                    Err(_) => {},
                }
            }
        },
        None => {},
    }
}

/// The external phase leaves every model in its place under its id, leaves the
/// clock alone, and fails only where a message has no target or a handler
/// fails.  Where every message has a target, only a handler can fail.
pub proof fn lemma_external_phase<M: DevsModel>(
    models: Seq<ModelView<M::State>>,
    services: Services<M::Rng>,
    messages: Seq<MessageView>,
)
    ensures
        ({
            let outcome = external_phase::<M>(models, services, messages);
            &&& same_ids(models, outcome.models)
            &&& outcome.services.global_time == services.global_time
            &&& messages.len() == 0 ==> outcome == (PhaseOutcome::<M, ()> {
                models,
                services,
                result: Ok(()),
            })
            &&& outcome.result matches Err(error) ==> is_step_failure(error)
            &&& (forall|k: int|
                0 <= k < messages.len() ==> find_model(
                    models,
                    (#[trigger] messages[k]).target_id,
                ) is Some) ==> (outcome.result matches Err(error) ==> error is ModelEventFailure)
        }),
    decreases messages.len(),
{
    if messages.len() > 0 {
        let first = deliver::<M>(models, services, messages.first());
        lemma_deliver::<M>(models, services, messages.first());
        if first.result is Ok {
            let rest = messages.drop_first();
            lemma_external_phase::<M>(first.models, first.services, rest);
            let outcome = external_phase::<M>(first.models, first.services, rest);
            assert(same_ids(models, outcome.models)) by {
                assert forall|i: int| 0 <= i < models.len() implies (
                #[trigger] outcome.models[i]).id == models[i].id by {
                    assert(first.models[i].id == models[i].id);
                }
            }
            if forall|k: int|
                0 <= k < messages.len() ==> find_model(
                    models,
                    (#[trigger] messages[k]).target_id,
                ) is Some {
                assert forall|k: int| 0 <= k < rest.len() implies find_model(
                    first.models,
                    (#[trigger] rest[k]).target_id,
                ) is Some by {
                    assert(rest[k] == messages[k + 1]);
                    lemma_find_model_same_ids(models, first.models, rest[k].target_id);
                }
            }
        } else {
            if forall|k: int|
                0 <= k < messages.len() ==> find_model(
                    models,
                    (#[trigger] messages[k]).target_id,
                ) is Some {
                assert(find_model(models, messages[0].target_id) is Some);
            }
        }
    }
}

/// Time passes for every model without moving it or changing its id.
pub proof fn lemma_advance_all<M: DevsModel>(models: Seq<ModelView<M::State>>, time_delta: Time)
    ensures
        same_ids(models, advance_all::<M>(models, time_delta)),
{
}

/// The earliest event is no later than the next event of any model, and it is
/// the next event of one of them unless there is no model.
pub proof fn lemma_earliest_event<M: DevsModel>(models: Seq<ModelView<M::State>>)
    ensures
        forall|i: int|
            0 <= i < models.len() ==> earliest_event::<M>(models).spec_le(
                M::spec_until_next_event((#[trigger] models[i]).state),
            ),
        models.len() == 0 ==> earliest_event::<M>(models) == Time::Infinite,
        models.len() > 0 ==> exists|i: int|
            0 <= i < models.len() && earliest_event::<M>(models) == M::spec_until_next_event(
                (#[trigger] models[i]).state,
            ),
    decreases models.len(),
{
    if models.len() > 0 {
        let earlier = models.drop_last();
        lemma_earliest_event::<M>(earlier);
        assert forall|i: int| 0 <= i < models.len() implies earliest_event::<M>(models).spec_le(
            M::spec_until_next_event((#[trigger] models[i]).state),
        ) by {
            if i < earlier.len() {
                assert(earlier[i] == models[i]);
                assert(earliest_event::<M>(earlier).spec_le(
                    M::spec_until_next_event(earlier[i].state),
                ));
            }
        }
        if earliest_event::<M>(models) == M::spec_until_next_event(models.last().state) {
            assert(models[models.len() - 1] == models.last());
        } else {
            let i = choose|i: int|
                0 <= i < earlier.len() && earliest_event::<M>(earlier) == M::spec_until_next_event(
                    (#[trigger] earlier[i]).state,
                );
            assert(earlier[i] == models[i]);
        }
    }
}

/// Where an event is scheduled and every model keeps its schedule, letting the
/// time until the earliest event pass brings a model to its event.
pub proof fn lemma_time_advance_reaches_an_event<M: DevsModel>(models: Seq<ModelView<M::State>>)
    requires
        earliest_event::<M>(models) is Finite,
        forall|i: int| 0 <= i < models.len() ==> keeps_schedule::<M>((#[trigger] models[i]).state),
    ensures
        exists|i: int|
            0 <= i < models.len() && M::spec_until_next_event(
                (#[trigger] advance_all::<M>(models, earliest_event::<M>(models))[i]).state,
            ) == Time::zero(),
{
    lemma_earliest_event::<M>(models);
    let i = choose|i: int|
        0 <= i < models.len() && earliest_event::<M>(models) == M::spec_until_next_event(
            (#[trigger] models[i]).state,
        );
    assert(keeps_schedule::<M>(models[i].state));
    let advanced = advance_all::<M>(models, earliest_event::<M>(models));
    assert(M::spec_until_next_event(advanced[i].state) == Time::zero());
}

/// The internal phase leaves every model in its place under its id and leaves
/// the clock alone.  Every message that it produces bears the time on the
/// clock and follows a connector.  Where each id of `ids` is that of a model,
/// only a handler can fail.
pub proof fn lemma_internal_phase<M: DevsModel>(
    models: Seq<ModelView<M::State>>,
    services: Services<M::Rng>,
    connectors: Seq<ConnectorView>,
    ids: Seq<Seq<char>>,
)
    ensures
        ({
            let outcome = internal_phase::<M>(models, services, connectors, ids);
            &&& same_ids(models, outcome.models)
            &&& outcome.services.global_time == services.global_time
            &&& outcome.result matches Ok(sent) ==> all_routed_at(
                connectors,
                services.global_time,
                sent,
            )
            &&& outcome.result matches Err(error) ==> is_step_failure(error)
            &&& (forall|k: int|
                0 <= k < ids.len() ==> find_model(models, #[trigger] ids[k]) is Some) ==> (
            outcome.result matches Err(error) ==> error is ModelEventFailure)
        }),
    decreases ids.len(),
{
    if ids.len() > 0 {
        let first = fire::<M>(models, services, connectors, ids.first());
        lemma_fire::<M>(models, services, connectors, ids.first());
        match first.result {
            Ok(sent) => {
                let rest = ids.drop_first();
                lemma_internal_phase::<M>(first.models, first.services, connectors, rest);
                let later = internal_phase::<M>(first.models, first.services, connectors, rest);
                let outcome = after_sending(sent, later);
                assert(same_ids(models, outcome.models)) by {
                    assert forall|i: int| 0 <= i < models.len() implies (
                    #[trigger] outcome.models[i]).id == models[i].id by {
                        assert(first.models[i].id == models[i].id);
                    }
                }
                match later.result {
                    Ok(more) => {
                        assert forall|j: int| 0 <= j < (sent + more).len() implies (#[trigger] (sent
                            + more)[j]).time == services.global_time && routed(
                            connectors,
                            (sent + more)[j],
                        ) by {
                            if j < sent.len() {
                                assert((sent + more)[j] == sent[j]);
                            } else {
                                assert((sent + more)[j] == more[j - sent.len()]);
                            }
                        }
                    },
                    Err(_) => {},
                }
                if forall|k: int|
                    0 <= k < ids.len() ==> find_model(models, #[trigger] ids[k]) is Some {
                    assert forall|k: int| 0 <= k < rest.len() implies find_model(
                        first.models,
                        #[trigger] rest[k],
                    ) is Some by {
                        assert(rest[k] == ids[k + 1]);
                        lemma_find_model_same_ids(models, first.models, rest[k]);
                    }
                }
            },
            Err(_) => {
                if forall|k: int|
                    0 <= k < ids.len() ==> find_model(models, #[trigger] ids[k]) is Some {
                    assert(find_model(models, ids[0]) is Some);
                }
            },
        }
    }
}

/// Every model answers to an id of its own collection.
pub proof fn lemma_own_ids_resolve<S>(models: Seq<ModelView<S>>)
    ensures
        forall|k: int|
            0 <= k < models.len() ==> find_model(models, #[trigger] model_ids(models)[k]) is Some,
{
    assert forall|k: int| 0 <= k < models.len() implies find_model(
        models,
        #[trigger] model_ids(models)[k],
    ) is Some by {
        assert(models[k].id == model_ids(models)[k]);
        lemma_find_model(models, model_ids(models)[k]);
    }
}

/// What a step changes and what it keeps.
///
/// A step leaves the connectors as they are and every model in its place under
/// its id.  It never sets the clock back: if it fails in the external phase
/// the clock stands still, and otherwise the clock moves on by the time that
/// the step lets pass.  It fails only where a pending message has no target or
/// where a handler fails.
pub proof fn lemma_step<M: DevsModel>(before: SimulationView<M>)
    ensures
        ({
            let after = before.step();
            let delivered = external_phase::<M>(before.models, before.services, before.messages);
            &&& after.state.connectors == before.connectors
            &&& same_ids(before.models, after.state.models)
            &&& before.services.global_time.spec_le(after.state.services.global_time)
            &&& delivered.result is Err ==> after.result is Err && after.state.messages
                == before.messages && after.state.services.global_time
                == before.services.global_time
            &&& delivered.result is Ok ==> after.state.services.global_time
                == before.services.global_time.spec_plus(before.time_delta())
            &&& after.result matches Ok(sent) ==> after.state.messages == sent
            &&& after.result is Err && delivered.result is Ok ==> after.state.messages
                == Seq::<MessageView>::empty()
            &&& after.result matches Err(error) ==> is_step_failure(error)
        }),
{
    let delivered = external_phase::<M>(before.models, before.services, before.messages);
    lemma_external_phase::<M>(before.models, before.services, before.messages);
    if delivered.result is Ok {
        let time_delta = before.time_delta();
        let advanced = advance_all::<M>(delivered.models, time_delta);
        let services = delivered.services.at(delivered.services.global_time.spec_plus(time_delta));
        lemma_advance_all::<M>(delivered.models, time_delta);
        lemma_internal_phase::<M>(advanced, services, before.connectors, model_ids(advanced));
        let fired = internal_phase::<M>(advanced, services, before.connectors, model_ids(advanced));
        assert(same_ids(before.models, fired.models)) by {
            assert forall|i: int| 0 <= i < before.models.len() implies (
            #[trigger] fired.models[i]).id == before.models[i].id by {
                assert(advanced[i].id == delivered.models[i].id);
                assert(delivered.models[i].id == before.models[i].id);
            }
        }
    }
}

/// After a step that succeeds, the clock shows a time that is not earlier than
/// the time it showed before.
pub proof fn lemma_step_never_sets_the_clock_back<M: DevsModel>(before: SimulationView<M>)
    ensures
        before.step().result is Ok ==> before.services.global_time.spec_le(
            before.step().state.services.global_time,
        ),
{
    lemma_step(before);
}

/// In a simulation whose connectors all lead to models, every message that is
/// pending after a step that succeeds is addressed to a model.
pub proof fn lemma_step_addresses_models<M: DevsModel>(before: SimulationView<M>)
    requires
        before.targets_resolve(),
    ensures
        before.step().result is Ok ==> before.step().state.messages_resolve(),
        before.step().result is Ok ==> all_routed_at(
            before.connectors,
            before.step().state.services.global_time,
            before.step().state.messages,
        ),
{
    let delivered = external_phase::<M>(before.models, before.services, before.messages);
    lemma_external_phase::<M>(before.models, before.services, before.messages);
    lemma_step(before);
    if before.step().result is Ok {
        let time_delta = before.time_delta();
        let advanced = advance_all::<M>(delivered.models, time_delta);
        let services = delivered.services.at(delivered.services.global_time.spec_plus(time_delta));
        lemma_internal_phase::<M>(advanced, services, before.connectors, model_ids(advanced));
        let after = before.step().state;
        assert forall|j: int| 0 <= j < after.messages.len() implies find_model(
            after.models,
            (#[trigger] after.messages[j]).target_id,
        ) is Some by {
            let message = after.messages[j];
            assert(routed(before.connectors, message));
            let c = choose|c: int|
                0 <= c < before.connectors.len() && target_through(
                    #[trigger] before.connectors[c],
                    message.source_id,
                    message.source_port,
                ) == Some((message.target_id, message.target_port));
            assert(find_model(before.models, before.connectors[c].target_id) is Some);
            lemma_find_model_same_ids(before.models, after.models, message.target_id);
        }
    }
}

/// Where every pending message is addressed to a model, a step fails only
/// where a handler of a model fails.
pub proof fn lemma_step_fails_only_in_a_handler<M: DevsModel>(before: SimulationView<M>)
    requires
        before.messages_resolve(),
    ensures
        before.step().result matches Err(error) ==> error is ModelEventFailure,
{
    let delivered = external_phase::<M>(before.models, before.services, before.messages);
    lemma_external_phase::<M>(before.models, before.services, before.messages);
    if delivered.result is Ok {
        let time_delta = before.time_delta();
        let advanced = advance_all::<M>(delivered.models, time_delta);
        let services = delivered.services.at(delivered.services.global_time.spec_plus(time_delta));
        lemma_own_ids_resolve(advanced);
        lemma_internal_phase::<M>(advanced, services, before.connectors, model_ids(advanced));
    }
}

/// A step of a simulation that passes the check fails only where a handler of
/// a model fails: it does not end with `ModelNotFound`,
/// `InvalidModelConfiguration`, `InvalidMessage` or `DuplicateModelId`.
pub proof fn lemma_checked_step_fails_only_in_a_handler<M: DevsModel>(before: SimulationView<M>)
    requires
        before.passes_check(),
    ensures
        before.step().result matches Err(error) ==> error is ModelEventFailure,
{
    lemma_step_fails_only_in_a_handler(before);
}

/// What a run does that goes on from the end of the run `first` for `n` more
/// steps: nothing if `first` failed, and else the steps, with the messages of
/// `first` before their own.
pub open spec fn then_step_n<M: DevsModel>(first: RunOutcome<M>, n: nat) -> RunOutcome<M> {
    match first.result {
        Err(_) => first,
        Ok(sent) => after_producing(sent, first.state.step_n(n)),
    }
}

/// A run of `a + b` steps is a run of `a` steps followed, if it succeeds, by a
/// run of `b` steps: the two leave the same simulation behind and produce the
/// same messages or the same failure.
pub proof fn lemma_step_n_splits<M: DevsModel>(before: SimulationView<M>, a: nat, b: nat)
    ensures
        before.step_n(a + b) == then_step_n(before.step_n(a), b),
    decreases a,
{
    if a == 0 {
        lemma_after_producing(Seq::empty(), Seq::empty(), before.step_n(b));
    } else {
        let first = before.step();
        match first.result {
            Err(_) => {},
            Ok(sent) => {
                lemma_step_n_splits(first.state, (a - 1) as nat, b);
                assert((a + b - 1) as nat == (a - 1) as nat + b);
                let rest = first.state.step_n((a - 1) as nat);
                match rest.result {
                    Err(_) => {},
                    Ok(more) => {
                        lemma_after_producing(sent, more, rest.state.step_n(b));
                    },
                }
            },
        }
    }
}

} // verus!
