//! The models of a simulation, found by id.

use crate::models::{DevsModel, Model, ModelView};
use crate::text::str_eq;
use itertools::Itertools;
use vstd::prelude::*;

verus! {

/// `id` as a function of the model.
pub open spec fn id_rule<S>() -> spec_fn(ModelView<S>) -> Seq<char> {
    |model: ModelView<S>| model.id
}

/// The ids of `models`, in their order.
pub open spec fn model_ids<S>(models: Seq<ModelView<S>>) -> Seq<Seq<char>> {
    models.map_values(id_rule())
}

/// Whether one of `models` has the id `id`.
pub open spec fn has_model<S>(models: Seq<ModelView<S>>, id: Seq<char>) -> bool {
    exists|i: int| 0 <= i < models.len() && (#[trigger] models[i]).id == id
}

/// Whether `models[i]` is the first of `models` with the id `id`.
pub open spec fn is_first_with_id<S>(models: Seq<ModelView<S>>, id: Seq<char>, i: int) -> bool {
    &&& 0 <= i < models.len()
    &&& models[i].id == id
    &&& forall|j: int| 0 <= j < i ==> (#[trigger] models[j]).id != id
}

/// Where the model with the id `id` stands in `models`.  If several models
/// share the id, the first of them answers for it.
pub open spec fn find_model<S>(models: Seq<ModelView<S>>, id: Seq<char>) -> Option<int> {
    if has_model(models, id) {
        Some(choose|i: int| is_first_with_id(models, id, i))
    } else {
        None
    }
}

/// Whether no two of `models` share an id.
pub open spec fn distinct_ids<S>(models: Seq<ModelView<S>>) -> bool {
    forall|i: int, j: int|
        0 <= i < j < models.len() ==> (#[trigger] models[i]).id != (#[trigger] models[j]).id
}

/// Among the first `k` of `models`, one with the id `id` has a first one.
proof fn lemma_first_exists<S>(models: Seq<ModelView<S>>, id: Seq<char>, k: int)
    requires
        0 <= k <= models.len(),
    ensures
        (exists|i: int| 0 <= i < k && (#[trigger] models[i]).id == id) ==> exists|i: int|
            i < k && is_first_with_id(models, id, i),
    decreases k,
{
    if k > 0 {
        lemma_first_exists(models, id, k - 1);
        if exists|i: int| 0 <= i < k - 1 && (#[trigger] models[i]).id == id {
            let first = choose|i: int| i < k - 1 && is_first_with_id(models, id, i);
            assert(first < k && is_first_with_id(models, id, first));
        } else if models[k - 1].id == id {
            assert(is_first_with_id(models, id, k - 1));
        }
    }
}

/// `find_model` gives the first model with the id, and `None` only where no
/// model has it.
pub proof fn lemma_find_model<S>(models: Seq<ModelView<S>>, id: Seq<char>)
    ensures
        match find_model(models, id) {
            Some(i) => is_first_with_id(models, id, i),
            None => forall|j: int| 0 <= j < models.len() ==> (#[trigger] models[j]).id != id,
        },
        forall|i: int| is_first_with_id(models, id, i) ==> find_model(models, id) == Some(i),
{
    lemma_first_exists(models, id, models.len() as int);
    assert forall|i: int| is_first_with_id(models, id, i) implies find_model(models, id) == Some(
        i,
    ) by {
        assert(models[i].id == id);
        let first = choose|i: int| is_first_with_id(models, id, i);
        assert(models[first].id == id);
        assert(first == i);
    }
}

/// The models of a simulation in the order in which they were given, each to be
/// found by its id.
///
/// Ids are meant to be unique.  The collection does not insist on it: where
/// several models share an id, a lookup finds the first of them.
#[derive(Clone, Debug)]
pub struct ModelCollection<M> {
    entries: Vec<Model<M>>,
}

pub type ModelCollectionType<M> = ModelCollection<M>;

impl<M: DevsModel> View for ModelCollection<M> {
    type V = Seq<ModelView<M::State>>;

    closed spec fn view(&self) -> Seq<ModelView<M::State>> {
        self.entries.deep_view()
    }
}

/// The ids of `entries`, collected with `itertools::Itertools::collect_vec`,
/// which gathers the items of an iterator into a vector in the order in which
/// the iterator yields them.  The iterator here walks `entries` from front to
/// back and yields a copy of each model's id.
#[verifier::external_body]
fn collect_ids<M: DevsModel>(entries: &Vec<Model<M>>) -> (ids: Vec<String>)
    ensures
        ids.deep_view() == model_ids(entries.deep_view()),
{
    entries.iter().map(Model::owned_id).collect_vec()
}

impl<M: DevsModel> ModelCollection<M> {
    /// A collection without models.
    pub fn new() -> (models: Self)
        ensures
            models@ == Seq::<ModelView<M::State>>::empty(),
    {
        let models = ModelCollection { entries: Vec::new() };
        assert(models@ =~= Seq::<ModelView<M::State>>::empty());
        models
    }

    /// The collection of `models`, in their order.
    pub fn from_models(models: Vec<Model<M>>) -> (collection: Self)
        ensures
            collection@ == models.deep_view(),
    {
        ModelCollection { entries: models }
    }

    pub fn len(&self) -> (n: usize)
        ensures
            n == self@.len(),
    {
        self.entries.len()
    }

    pub fn is_empty(&self) -> (empty: bool)
        ensures
            empty == (self@.len() == 0),
    {
        self.entries.len() == 0
    }

    /// The models, in their order.
    pub fn values(&self) -> (models: &Vec<Model<M>>)
        ensures
            models.deep_view() == self@,
    {
        &self.entries
    }

    /// The ids of the models, in their order.
    pub fn keys(&self) -> (ids: Vec<String>)
        ensures
            ids.deep_view() == model_ids(self@),
    {
        collect_ids(&self.entries)
    }

    /// The model at the place `i`.
    pub fn at(&self, i: usize) -> (model: &Model<M>)
        requires
            i < self@.len(),
        ensures
            model@ == self@[i as int],
    {
        &self.entries[i]
    }

    /// The model at the place `i`, to be changed in place.
    pub fn at_mut(&mut self, i: usize) -> (model: &mut Model<M>)
        requires
            i < old(self)@.len(),
        ensures
            model@ == old(self)@[i as int],
            final(self)@ == old(self)@.update(i as int, final(model)@),
    {
        proof {
            let before = self.entries;
            assert forall|after: Vec<Model<M>>, model: Model<M>|
                after@ == before@.update(i as int, model) implies #[trigger] after.deep_view()
                == before.deep_view().update(i as int, #[trigger] model.view()) by {
                assert(after.deep_view() =~= before.deep_view().update(i as int, model@));
            }
        }
        &mut self.entries[i]
    }

    /// The place of the model with the id `id`.
    pub fn position(&self, id: &str) -> (place: Option<usize>)
        ensures
            match place {
                Some(i) => i < self@.len() && find_model(self@, id@) == Some(i as int),
                None => find_model(self@, id@) is None,
            },
    {
        let mut i: usize = 0;
        while i < self.entries.len()
            invariant
                i <= self.entries.len(),
                forall|j: int| 0 <= j < i ==> (#[trigger] self@[j]).id != id@,
            decreases self.entries.len() - i,
        {
            if str_eq(self.entries[i].id(), id) {
                proof {
                    assert(self@[i as int].id == id@);
                    assert(is_first_with_id(self@, id@, i as int));
                    lemma_find_model(self@, id@);
                }
                return Some(i);
            }
            assert(self@[i as int].id != id@);
            i = i + 1;
        }
        proof {
            lemma_find_model(self@, id@);
        }
        None
    }

    pub fn contains_key(&self, id: &str) -> (found: bool)
        ensures
            found == has_model(self@, id@),
    {
        self.position(id).is_some()
    }

    /// The model with the id `id`.
    pub fn get(&self, id: &str) -> (found: Option<&Model<M>>)
        ensures
            match found {
                Some(model) => find_model(self@, id@) is Some && model@ == self@[find_model(
                    self@,
                    id@,
                )->0],
                None => find_model(self@, id@) is None,
            },
    {
        match self.position(id) {
            Some(i) => Some(&self.entries[i]),
            None => None,
        }
    }

    /// The model with the id `id`, to be changed in place.
    pub fn get_mut(&mut self, id: &str) -> (found: Option<&mut Model<M>>)
        ensures
            match found {
                Some(model) => {
                    &&& find_model(old(self)@, id@) is Some
                    &&& model@ == old(self)@[find_model(old(self)@, id@)->0]
                    &&& final(self)@ == old(self)@.update(
                        find_model(old(self)@, id@)->0,
                        final(model)@,
                    )
                },
                None => find_model(old(self)@, id@) is None && final(self)@ == old(self)@,
            },
    {
        match self.position(id) {
            Some(i) => Some(self.at_mut(i)),
            None => None,
        }
    }

    /// Puts `model` into the collection.  It takes the place of the model that
    /// so far answered for its id, which is returned; if there was none, it
    /// becomes the last model.
    pub fn insert(&mut self, model: Model<M>) -> (replaced: Option<Model<M>>)
        ensures
            match find_model(old(self)@, model.id@) {
                Some(i) => replaced is Some && replaced->0@ == old(self)@[i] && final(self)@ == old(
                    self,
                )@.update(i, model@),
                None => replaced is None && final(self)@ == old(self)@.push(model@),
            },
            distinct_ids(old(self)@) ==> distinct_ids(final(self)@),
    {
        proof {
            lemma_find_model(self@, model.id@);
        }
        match self.position(model.id()) {
            Some(i) => {
                let mut incoming = model;
                std::mem::swap(&mut self.entries[i], &mut incoming);
                proof {
                    let before = old(self)@;
                    let after = self@;
                    assert(after =~= before.update(i as int, model@));
                    if distinct_ids(before) {
                        assert forall|a: int, b: int| 0 <= a < b < after.len() implies (
                        #[trigger] after[a]).id != (#[trigger] after[b]).id by {
                            assert(after[a].id == before[a].id);
                            assert(after[b].id == before[b].id);
                        }
                    }
                }
                Some(incoming)
            },
            None => {
                self.entries.push(model);
                proof {
                    let before = old(self)@;
                    let after = self@;
                    assert(after =~= before.push(model@));
                    if distinct_ids(before) {
                        assert forall|a: int, b: int| 0 <= a < b < after.len() implies (
                        #[trigger] after[a]).id != (#[trigger] after[b]).id by {
                            if b < before.len() {
                                assert(after[a] == before[a]);
                                assert(after[b] == before[b]);
                            } else {
                                assert(after[a] == before[a]);
                            }
                        }
                    }
                }
                None
            },
        }
    }
}

} // verus!
