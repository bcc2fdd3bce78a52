//! Checks that a simulation is sound: that its models can be told apart, and
//! that its connectors and pending messages name models that it holds.
//!
//! The checks read the simulation and change nothing.  A simulation may be
//! checked at any time.

use crate::models::{DevsModel, ModelView};
use crate::simulator::collection::{
    distinct_ids, find_model, is_first_with_id, lemma_find_model, model_ids,
};
use crate::simulator::Simulation;
use crate::text::str_eq;
use crate::utils::errors::{ErrorView, SimulationError, SimulationResult};
use vstd::prelude::*;

verus! {

/// Whether a model after `models[i]` has the id of `models[i]`.
pub open spec fn recurs<S>(models: Seq<ModelView<S>>, i: int) -> bool {
    exists|j: int| i < j < models.len() && (#[trigger] models[j]).id == models[i].id
}

/// Whether `models[i]` is the first of several models with its id.
pub open spec fn is_first_of_several<S>(models: Seq<ModelView<S>>, i: int) -> bool {
    is_first_with_id(models, models[i].id, i) && recurs(models, i)
}

/// The ids that more than one of `models` has, each listed once, in the order
/// in which they first occur; only first occurrences before the place `upto`
/// are counted.
pub open spec fn repeated_ids<S>(models: Seq<ModelView<S>>, upto: int) -> Seq<Seq<char>>
    decreases upto,
{
    if upto <= 0 {
        Seq::empty()
    } else {
        let earlier = repeated_ids(models, upto - 1);
        if is_first_of_several(models, upto - 1) {
            earlier.push(models[upto - 1].id)
        } else {
            earlier
        }
    }
}

/// The ids that more than one of `models` has, each listed once, in the order
/// in which they first occur.
pub open spec fn duplicate_ids<S>(models: Seq<ModelView<S>>) -> Seq<Seq<char>> {
    repeated_ids(models, models.len() as int)
}

/// Whether `id` is the id of a first of several models that stands before the
/// place `upto`.
pub open spec fn is_shared_before<S>(models: Seq<ModelView<S>>, upto: int, id: Seq<char>) -> bool {
    exists|i: int|
        0 <= i < upto && is_first_of_several(models, i) && (#[trigger] models[i]).id == id
}

/// `repeated_ids` lists the id of each first of several models, and no other.
pub proof fn lemma_repeated_ids<S>(models: Seq<ModelView<S>>, upto: int)
    requires
        0 <= upto <= models.len(),
    ensures
        forall|i: int|
            0 <= i < upto && is_first_of_several(models, i) ==> repeated_ids(
                models,
                upto,
            ).contains(#[trigger] models[i].id),
        forall|k: int|
            0 <= k < repeated_ids(models, upto).len() ==> is_shared_before(
                models,
                upto,
                #[trigger] repeated_ids(models, upto)[k],
            ),
    decreases upto,
{
    if upto > 0 {
        lemma_repeated_ids(models, upto - 1);
        let earlier = repeated_ids(models, upto - 1);
        let all = repeated_ids(models, upto);
        assert forall|i: int| 0 <= i < upto && is_first_of_several(models, i) implies all.contains(
            #[trigger] models[i].id,
        ) by {
            if i < upto - 1 {
                assert(earlier.contains(models[i].id));
                let k = choose|k: int| 0 <= k < earlier.len() && earlier[k] == models[i].id;
                assert(all[k] == models[i].id);
            } else {
                assert(all[all.len() - 1] == models[i].id);
            }
        }
        assert forall|k: int| 0 <= k < all.len() implies is_shared_before(
            models,
            upto,
            #[trigger] all[k],
        ) by {
            if k < earlier.len() {
                assert(all[k] == earlier[k]);
                assert(is_shared_before(models, upto - 1, earlier[k]));
                let i = choose|i: int|
                    0 <= i < upto - 1 && is_first_of_several(models, i) && (
                    #[trigger] models[i]).id == earlier[k];
                assert(0 <= i < upto && is_first_of_several(models, i) && models[i].id == all[k]);
            } else {
                assert(is_first_of_several(models, upto - 1) && models[upto - 1].id == all[k]);
            }
        }
    }
}

/// No id is listed among the duplicates exactly if no two models share an id;
/// an id is listed exactly if two models have it; and none is listed twice.
pub proof fn lemma_duplicate_ids<S>(models: Seq<ModelView<S>>)
    ensures
        duplicate_ids(models).len() == 0 <==> distinct_ids(models),
        forall|id: Seq<char>|
            duplicate_ids(models).contains(id) <==> exists|i: int, j: int|
                0 <= i < j < models.len() && (#[trigger] models[i]).id == id && (
                #[trigger] models[j]).id == id,
        duplicate_ids(models).no_duplicates(),
{
    let n = models.len() as int;
    let listed = duplicate_ids(models);
    lemma_repeated_ids(models, n);
    assert forall|id: Seq<char>| listed.contains(id) implies exists|i: int, j: int|
        0 <= i < j < models.len() && (#[trigger] models[i]).id == id && (#[trigger] models[j]).id
            == id by {
        let k = choose|k: int| 0 <= k < listed.len() && listed[k] == id;
        assert(is_shared_before(models, n, listed[k]));
        let i = choose|i: int|
            0 <= i < n && is_first_of_several(models, i) && (#[trigger] models[i]).id == listed[k];
        let j = choose|j: int| i < j < models.len() && (#[trigger] models[j]).id == models[i].id;
        assert(0 <= i < j < models.len() && models[i].id == id && models[j].id == id);
    }
    assert forall|id: Seq<char>|
        (exists|i: int, j: int|
            0 <= i < j < models.len() && (#[trigger] models[i]).id == id && (
            #[trigger] models[j]).id == id) implies listed.contains(id) by {
        let (i, j) = choose|i: int, j: int|
            0 <= i < j < models.len() && (#[trigger] models[i]).id == id && (
            #[trigger] models[j]).id == id;
        lemma_find_model(models, id);
        let first = find_model(models, id)->0;
        assert(first <= i);
        assert(recurs(models, first));
        assert(is_first_of_several(models, first));
        assert(listed.contains(models[first].id));
    }
    if listed.len() == 0 {
        assert forall|i: int, j: int| 0 <= i < j < models.len() implies (#[trigger] models[i]).id
            != (#[trigger] models[j]).id by {
            if models[i].id == models[j].id {
                assert(listed.contains(models[i].id));
            }
        }
    } else {
        assert(listed.contains(listed[0]));
    }
    lemma_repeated_ids_differ(models, n);
}

/// `repeated_ids` lists no id twice.
proof fn lemma_repeated_ids_differ<S>(models: Seq<ModelView<S>>, upto: int)
    requires
        0 <= upto <= models.len(),
    ensures
        repeated_ids(models, upto).no_duplicates(),
    decreases upto,
{
    if upto > 0 {
        lemma_repeated_ids_differ(models, upto - 1);
        lemma_repeated_ids(models, upto - 1);
        let earlier = repeated_ids(models, upto - 1);
        if is_first_of_several(models, upto - 1) {
            assert forall|k: int| 0 <= k < earlier.len() implies earlier[k] != models[upto
                - 1].id by {
                assert(is_shared_before(models, upto - 1, earlier[k]));
                let i = choose|i: int|
                    0 <= i < upto - 1 && is_first_of_several(models, i) && (
                    #[trigger] models[i]).id == earlier[k];
                assert(models[i].id != models[upto - 1].id);
            }
        }
    }
}

/// The checks that tell whether a simulation is sound.
pub trait Checker {
    /// Fails if two models share an id, and then lists the ids that are shared.
    fn unique_model_ids(&self) -> (result: SimulationResult<()>);

    /// Fails if a connector leaves a model that the simulation does not hold.
    fn connectors_source_to_model(&self) -> (result: SimulationResult<()>);

    /// Fails if a connector leads to a model that the simulation does not hold.
    fn connectors_target_to_model(&self) -> (result: SimulationResult<()>);

    /// Fails if a pending message is addressed to a model that the simulation
    /// does not hold.
    fn valid_messages(&self) -> (result: SimulationResult<()>);

    /// Runs the four checks in this order, and fails with the failure of the
    /// first that fails.
    fn check(&self) -> (result: SimulationResult<()>);
}

/// Whether a model from the place `from` on has the id of `ids[i]`.
fn recurs_from(ids: &Vec<String>, i: usize, from: usize) -> (found: bool)
    requires
        i < ids.len(),
        from <= ids.len(),
    ensures
        found == exists|j: int|
            from <= j < ids.len() && #[trigger] ids.deep_view()[j] == ids.deep_view()[i as int],
{
    let mut j: usize = from;
    while j < ids.len()
        invariant
            from <= j <= ids.len(),
            i < ids.len(),
            forall|k: int|
                from <= k < j ==> #[trigger] ids.deep_view()[k] != ids.deep_view()[i as int],
        decreases ids.len() - j,
    {
        if str_eq(ids[j].as_str(), ids[i].as_str()) {
            assert(ids.deep_view()[j as int] == ids.deep_view()[i as int]);
            return true;
        }
        assert(ids.deep_view()[j as int] != ids.deep_view()[i as int]);
        j = j + 1;
    }
    false
}

impl<M: DevsModel> Checker for Simulation<M> {
    fn unique_model_ids(&self) -> (result: SimulationResult<()>)
        ensures
            match result {
                Ok(_) => self@.ids_are_unique(),
                Err(error) => {
                    &&& !self@.ids_are_unique()
                    &&& error@ == ErrorView::DuplicateModelId(duplicate_ids(self@.models))
                },
            },
    {
        let models = self.get_models();
        let ids = models.keys();
        let mut shared: Vec<String> = Vec::new();
        let mut i: usize = 0;
        assert(shared.deep_view() =~= repeated_ids(models@, 0));
        assert(ids.deep_view().len() == models@.len());
        while i < ids.len()
            invariant
                i <= ids.len(),
                ids.len() == models@.len(),
                ids.deep_view() == model_ids(models@),
                models@ == self@.models,
                shared.deep_view() == repeated_ids(models@, i as int),
            decreases ids.len() - i,
        {
            let first = match models.position(ids[i].as_str()) {
                Some(place) => place == i,
                None => false,
            };
            let again = recurs_from(&ids, i, i + 1);
            let ghost listed = shared.deep_view();
            proof {
                let all = ids.deep_view();
                lemma_find_model(models@, models@[i as int].id);
                assert(models@[i as int].id == all[i as int]);
                assert(all[i as int] == ids@[i as int]@);
                assert(first == is_first_with_id(models@, models@[i as int].id, i as int));
                if again {
                    let j = choose|j: int|
                        i + 1 <= j < ids.len() && #[trigger] all[j] == all[i as int];
                    assert(models@[j].id == models@[i as int].id);
                }
                if recurs(models@, i as int) {
                    let j = choose|j: int|
                        i < j < models@.len() && (#[trigger] models@[j]).id == models@[i as int].id;
                    assert(all[j] == all[i as int]);
                }
                assert(again == recurs(models@, i as int));
            }
            if first && again {
                shared.push(ids[i].clone());
                assert(shared.deep_view() =~= listed.push(ids@[i as int]@));
            }
            i = i + 1;
        }
        proof {
            lemma_duplicate_ids(models@);
        }
        if shared.len() == 0 {
            Ok(())
        } else {
            Err(SimulationError::DuplicateModelId(shared))
        }
    }

    fn connectors_source_to_model(&self) -> (result: SimulationResult<()>)
        ensures
            match result {
                Ok(_) => self@.sources_resolve(),
                Err(error) => !self@.sources_resolve() && error@
                    == ErrorView::InvalidModelConfiguration,
            },
    {
        let models = self.get_models();
        let connectors = self.get_connectors();
        let mut i: usize = 0;
        while i < connectors.len()
            invariant
                i <= connectors.len(),
                models@ == self@.models,
                connectors.deep_view() == self@.connectors,
                forall|k: int|
                    0 <= k < i ==> find_model(
                        models@,
                        (#[trigger] connectors.deep_view()[k]).source_id,
                    ) is Some,
            decreases connectors.len() - i,
        {
            if models.position(connectors[i].source_id()).is_none() {
                assert(find_model(self@.models, self@.connectors[i as int].source_id) is None);
                return Err(SimulationError::InvalidModelConfiguration);
            }
            i = i + 1;
        }
        Ok(())
    }

    fn connectors_target_to_model(&self) -> (result: SimulationResult<()>)
        ensures
            match result {
                Ok(_) => self@.targets_resolve(),
                Err(error) => !self@.targets_resolve() && error@
                    == ErrorView::InvalidModelConfiguration,
            },
    {
        let models = self.get_models();
        let connectors = self.get_connectors();
        let mut i: usize = 0;
        while i < connectors.len()
            invariant
                i <= connectors.len(),
                models@ == self@.models,
                connectors.deep_view() == self@.connectors,
                forall|k: int|
                    0 <= k < i ==> find_model(
                        models@,
                        (#[trigger] connectors.deep_view()[k]).target_id,
                    ) is Some,
            decreases connectors.len() - i,
        {
            if models.position(connectors[i].target_id()).is_none() {
                assert(find_model(self@.models, self@.connectors[i as int].target_id) is None);
                return Err(SimulationError::InvalidModelConfiguration);
            }
            i = i + 1;
        }
        Ok(())
    }

    fn valid_messages(&self) -> (result: SimulationResult<()>)
        ensures
            match result {
                Ok(_) => self@.messages_resolve(),
                Err(error) => !self@.messages_resolve() && error@ == ErrorView::InvalidMessage,
            },
    {
        let models = self.get_models();
        let messages = self.get_messages();
        let mut i: usize = 0;
        while i < messages.len()
            invariant
                i <= messages.len(),
                models@ == self@.models,
                messages.deep_view() == self@.messages,
                forall|k: int|
                    0 <= k < i ==> find_model(
                        models@,
                        (#[trigger] messages.deep_view()[k]).target_id,
                    ) is Some,
            decreases messages.len() - i,
        {
            if models.position(messages[i].target_id()).is_none() {
                assert(find_model(self@.models, self@.messages[i as int].target_id) is None);
                return Err(SimulationError::InvalidMessage);
            }
            i = i + 1;
        }
        Ok(())
    }

    fn check(&self) -> (result: SimulationResult<()>)
        ensures
            match result {
                Ok(_) => self@.passes_check(),
                Err(error) => if !self@.ids_are_unique() {
                    error@ == ErrorView::DuplicateModelId(duplicate_ids(self@.models))
                } else if !self@.sources_resolve() || !self@.targets_resolve() {
                    error@ == ErrorView::InvalidModelConfiguration
                } else {
                    !self@.messages_resolve() && error@ == ErrorView::InvalidMessage
                },
            },
    {
        match self.unique_model_ids() {
            Err(error) => {
                return Err(error);
            },
            Ok(_) => {},
        }
        match self.connectors_source_to_model() {
            Err(error) => {
                return Err(error);
            },
            Ok(_) => {},
        }
        match self.connectors_target_to_model() {
            Err(error) => {
                return Err(error);
            },
            Ok(_) => {},
        }
        self.valid_messages()
    }
}

} // verus!
