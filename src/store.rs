use vstd::prelude::*;

use crate::reducer::{fold_actions, Reducer};

verus! {

/// A store that can be driven by erased actions.
pub trait Store {
    type Erased;

    /// Whether a dispatch of `a` is handled by this store.
    spec fn handles(&self, a: Self::Erased) -> bool;

    /// Offers `action` to the store; true when it was handled.
    fn dispatch(&mut self, action: &Self::Erased) -> (r: bool)
        ensures
            r == old(self).handles(*action),
    ;
}

/// One slice of state together with the reducer that owns it.
pub struct SingleStore<R: Reducer> {
    state: R::State,
    reducer: R,
}

/// Builds a single store from its initial state and its reducer.
pub fn __build_single_store<R: Reducer>(state: R::State, reducer: R) -> (r: SingleStore<R>)
    ensures
        r.state() == state@,
        r.reducer() == reducer,
{
    SingleStore { state, reducer }
}

impl<R: Reducer> SingleStore<R> {
    /// The current state.
    pub closed spec fn state(&self) -> <R::State as View>::V {
        self.state@
    }

    /// The reducer (with its side parameter).
    pub closed spec fn reducer(&self) -> R {
        self.reducer
    }

    /// The store after a dispatch of `a`: reduced when `a` narrows to an
    /// action of the store's set, unchanged otherwise.
    pub open spec fn after(self, a: R::Erased) -> <R::State as View>::V {
        match self.reducer().narrow_spec(a) {
            Some(act) => self.reducer().reduce_spec(self.state(), act),
            None => self.state(),
        }
    }

    /// Returns the current state; never fails and changes nothing.
    pub fn get_state(&self) -> (r: &R::State)
        ensures
            r@ == self.state(),
    {
        &self.state
    }

    fn dispatch_internal(&mut self, action: &R::Erased) -> (r: bool)
        ensures
            r == old(self).reducer().narrow_spec(*action).is_some(),
            final(self).state() == old(self).after(*action),
            final(self).reducer() == old(self).reducer(),
    {
        match self.reducer.narrow(action) {
            Some(act) => {
                let new_state = self.reducer.reduce(&self.state, act);
                self.state = new_state;
                true
            },
            None => false,
        }
    }
}

impl<R: Reducer> Store for SingleStore<R> {
    type Erased = R::Erased;

    open spec fn handles(&self, a: R::Erased) -> bool {
        self.reducer().narrow_spec(a).is_some()
    }

    /// Narrows `action` to the store's action set; on success replaces the
    /// state by the reducer's result and returns true, otherwise returns
    /// false and changes nothing.
    fn dispatch(&mut self, action: &R::Erased) -> (r: bool)
        ensures
            r == old(self).reducer().narrow_spec(*action).is_some(),
            final(self).state() == old(self).after(*action),
            final(self).reducer() == old(self).reducer(),
    {
        self.dispatch_internal(action)
    }
}

/// Named single stores under one dispatch; it owns no state of its own.
pub struct CombinedStore<R: Reducer> {
    stores: Vec<(String, SingleStore<R>)>,
}

/// Whether the names of `stores` are pairwise distinct.
pub open spec fn names_unique<R: Reducer>(stores: Seq<(String, SingleStore<R>)>) -> bool {
    forall|i: int, j: int|
        0 <= i < j < stores.len() ==> (#[trigger] stores[i]).0@ != (#[trigger] stores[j]).0@
}

/// Builds a combined store from named single stores, kept in the given order.
pub fn __build_combined_store<R: Reducer>(stores: Vec<(String, SingleStore<R>)>) -> (r:
    CombinedStore<R>)
    requires
        names_unique(stores@),
    ensures
        r.members() == stores@,
        r.wf(),
{
    CombinedStore { stores }
}

impl<R: Reducer> CombinedStore<R> {
    /// The members, in insertion order.
    pub closed spec fn members(&self) -> Seq<(String, SingleStore<R>)> {
        self.stores@
    }

    /// Member names are unique.
    pub open spec fn wf(&self) -> bool {
        names_unique(self.members())
    }

    /// Returns each member's name with its current state, in insertion order.
    pub fn get_state(&self) -> (r: Vec<(&String, &R::State)>)
        ensures
            r@.len() == self.members().len(),
            forall|i: int|
                0 <= i < r@.len() ==> #[trigger] r@[i].0 == self.members()[i].0 && r@[i].1@
                    == self.members()[i].1.state(),
    {
        let mut out: Vec<(&String, &R::State)> = Vec::new();
        let mut i: usize = 0;
        while i < self.stores.len()
            invariant
                i <= self.stores@.len(),
                out@.len() == i,
                forall|k: int|
                    0 <= k < i ==> #[trigger] out@[k].0 == self.stores@[k].0 && out@[k].1@
                        == self.stores@[k].1.state(),
            decreases self.stores@.len() - i,
        {
            let entry = &self.stores[i];
            out.push((&entry.0, entry.1.get_state()));
            i = i + 1;
        }
        out
    }
}

impl<R: Reducer> Store for CombinedStore<R> {
    type Erased = R::Erased;

    open spec fn handles(&self, a: R::Erased) -> bool {
        exists|i: int|
            0 <= i < self.members().len() && #[trigger] self.members()[i].1.reducer().narrow_spec(
                a,
            ).is_some()
    }

    /// Offers `action` to every member, in insertion order and without
    /// stopping early; returns true when at least one member handled it.
    fn dispatch(&mut self, action: &R::Erased) -> (r: bool)
        ensures
            r == exists|i: int|
                0 <= i < old(self).members().len()
                    && #[trigger] old(self).members()[i].1.reducer().narrow_spec(
                    *action,
                ).is_some(),
            final(self).members().len() == old(self).members().len(),
            forall|i: int|
                0 <= i < old(self).members().len() ==> {
                    let (name, m) = #[trigger] old(self).members()[i];
                    &&& final(self).members()[i].0 == name
                    &&& final(self).members()[i].1.reducer() == m.reducer()
                    &&& final(self).members()[i].1.state() == m.after(*action)
                },
    {
        let ghost before = self.stores@;
        let mut flag = false;
        let mut i: usize = 0;
        while i < self.stores.len()
            invariant
                i <= self.stores@.len(),
                self.stores@.len() == before.len(),
                flag == exists|k: int|
                    0 <= k < i && #[trigger] before[k].1.reducer().narrow_spec(
                        *action,
                    ).is_some(),
                forall|k: int|
                    0 <= k < i ==> {
                        let (name, m) = #[trigger] before[k];
                        &&& self.stores@[k].0 == name
                        &&& self.stores@[k].1.reducer() == m.reducer()
                        &&& self.stores@[k].1.state() == m.after(*action)
                    },
                forall|k: int| i <= k < before.len() ==> #[trigger] self.stores@[k] == before[k],
            decreases before.len() - i,
        {
            let handled = self.stores[i].1.dispatch_internal(action);
            if handled {
                flag = true;
            }
            i = i + 1;
        }
        flag
    }
}

/// Valid actions dispatched one after another to a single store leave, as its
/// state, the left fold of the reducer over those actions from the initial
/// state. `stores[i]` is the store before the `i`-th dispatch, each dispatch
/// behaving as `dispatch` states.
pub proof fn lemma_dispatch_sequence_folds<R: Reducer>(
    stores: Seq<SingleStore<R>>,
    erased: Seq<R::Erased>,
    actions: Seq<R::Action>,
)
    requires
        stores.len() == erased.len() + 1,
        actions.len() == erased.len(),
        forall|i: int|
            0 <= i < erased.len() ==> #[trigger] stores[i].reducer().narrow_spec(erased[i])
                == Some(actions[i]),
        forall|i: int|
            0 <= i < erased.len() ==> #[trigger] stores[i + 1].state() == stores[i].after(
                erased[i],
            ) && stores[i + 1].reducer() == stores[i].reducer(),
    ensures
        stores.last().reducer() == stores[0].reducer(),
        stores.last().state() == fold_actions(stores[0].reducer(), stores[0].state(), actions),
    decreases erased.len(),
{
    if erased.len() > 0 {
        let n = erased.len() - 1;
        let (st, er, ac) = (stores.drop_last(), erased.drop_last(), actions.drop_last());
        assert forall|i: int| 0 <= i < er.len() implies #[trigger] st[i + 1].state() == st[i].after(
            er[i],
        ) && st[i + 1].reducer() == st[i].reducer() by {
            assert(stores[i + 1].state() == stores[i].after(erased[i]));
        }
        assert forall|i: int| 0 <= i < er.len() implies #[trigger] st[i].reducer().narrow_spec(er[i])
            == Some(ac[i]) by {
            assert(stores[i].reducer().narrow_spec(erased[i]) == Some(actions[i]));
        }
        lemma_dispatch_sequence_folds(stores.drop_last(), erased.drop_last(), actions.drop_last());
        assert(stores.drop_last().last() == stores[n]);
        assert(stores[n].reducer().narrow_spec(erased[n]) == Some(actions[n]));
        assert(stores[n + 1].state() == stores[n].after(erased[n]));
    }
}

} // verus!
