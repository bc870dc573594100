use vstd::prelude::*;

use crate::reducer::Reducer;
use crate::store::{SingleStore, Store, __build_single_store};
use crate::transport::{next_initialized, step_effect, Effect, Inbound, Registry, Transport};

verus! {

/// The worker-side composition root: the authoritative store, its channel's
/// handshake state and the registry of action tags it accepts.
pub struct Prime<R: Reducer> {
    store: SingleStore<R>,
    transport: Transport,
    registry: Registry,
}

/// Creates the worker side for `initial_state` under `reducer`, accepting the
/// action tags of `registry`; the channel starts uninitialized.
pub fn create_store<R: Reducer>(initial_state: R::State, reducer: R, registry: Registry) -> (r:
    Prime<R>)
    requires
        registry.wf(),
    ensures
        r.wf(),
        r.store().state() == initial_state@,
        r.store().reducer() == reducer,
        r.registry().idents() == registry.idents(),
        !r.is_initialized(),
{
    Prime { store: __build_single_store(initial_state, reducer), transport: Transport::new(), registry }
}

impl<R: Reducer> Prime<R> {
    pub closed spec fn store(&self) -> SingleStore<R> {
        self.store
    }

    pub closed spec fn registry(&self) -> Registry {
        self.registry
    }

    pub closed spec fn is_initialized(&self) -> bool {
        self.transport.is_initialized()
    }

    /// The registry holds each tag once.
    pub open spec fn wf(&self) -> bool {
        self.registry().wf()
    }

    pub fn initialized(&self) -> (r: bool)
        ensures
            r == self.is_initialized(),
    {
        self.transport.initialized()
    }

    /// The current state, to be posted as a full snapshot.
    pub fn get_state(&self) -> (r: &R::State)
        ensures
            r@ == self.store().state(),
    {
        self.store.get_state()
    }

    /// Handles one inbound message of the channel (see `Transport::receive`);
    /// the store is left as it is.
    pub fn receive<P>(&mut self, msg: Inbound<P>) -> (r: Effect<P>)
        requires
            old(self).wf(),
        ensures
            final(self).wf(),
            final(self).is_initialized() == next_initialized(old(self).is_initialized(), msg),
            r == step_effect(old(self).is_initialized(), msg, old(self).registry().idents()),
            final(self).store() == old(self).store(),
            final(self).registry() == old(self).registry(),
    {
        self.transport.receive(msg, &self.registry)
    }

    /// Dispatches a decoded action to the store: true, with the state
    /// reduced, when it belongs to the store's action set; false, with
    /// nothing changed, otherwise.
    pub fn dispatch(&mut self, action: &R::Erased) -> (r: bool)
        requires
            old(self).wf(),
        ensures
            final(self).wf(),
            r == old(self).store().reducer().narrow_spec(*action).is_some(),
            final(self).store().state() == old(self).store().after(*action),
            final(self).store().reducer() == old(self).store().reducer(),
            final(self).is_initialized() == old(self).is_initialized(),
            final(self).registry() == old(self).registry(),
    {
        self.store.dispatch(action)
    }
}

} // verus!
