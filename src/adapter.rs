use vstd::prelude::*;

use crate::transport::Envelope;

verus! {

/// The identity of a subscriber callback, as handed out by the host.
pub type SubscriptionId = u64;

/// Whether `i` is the first position of `x` in `s`.
pub open spec fn is_first_index(s: Seq<SubscriptionId>, x: SubscriptionId, i: int) -> bool {
    &&& 0 <= i < s.len()
    &&& s[i] == x
    &&& forall|j: int| 0 <= j < i ==> s[j] != x
}

/// `s` without its first occurrence of `x`; `s` itself when `x` is absent.
pub open spec fn remove_first(s: Seq<SubscriptionId>, x: SubscriptionId) -> Seq<SubscriptionId> {
    if s.contains(x) {
        s.remove(choose|i: int| is_first_index(s, x, i))
    } else {
        s
    }
}

/// The coordinator's mirror of the worker's store: a cache of the last
/// snapshot received, the ordered list of subscribers, and the handshake flag.
pub struct Adapter<S> {
    cache: Option<S>,
    subscriptions: Vec<SubscriptionId>,
    initialized: bool,
}

impl<S> Adapter<S> {
    /// The cached snapshot (none before the first one arrives).
    pub closed spec fn cached(&self) -> Option<S> {
        self.cache
    }

    /// The subscribers, in registration order.
    pub closed spec fn subscribers(&self) -> Seq<SubscriptionId> {
        self.subscriptions@
    }

    /// Whether the channel's handshake has completed.
    pub closed spec fn is_initialized(&self) -> bool {
        self.initialized
    }

    /// An empty mirror: no snapshot, no subscribers, not initialized.
    pub fn new() -> (r: Adapter<S>)
        ensures
            r.cached() is None,
            r.subscribers() == Seq::<SubscriptionId>::empty(),
            !r.is_initialized(),
    {
        Adapter { cache: None, subscriptions: Vec::new(), initialized: false }
    }

    /// The cached snapshot, without a round trip to the worker.
    pub fn get_state(&self) -> (r: Option<&S>)
        ensures
            r == (match self.cached() {
                Some(s) => Some(&s),
                None => None,
            }),
    {
        match &self.cache {
            Some(s) => Some(s),
            None => None,
        }
    }

    /// Replaces the cache by `new_state` and returns a snapshot of the
    /// subscribers, in registration order: each is to be called once, with
    /// no arguments.
    pub fn update_state(&mut self, new_state: S) -> (r: Vec<SubscriptionId>)
        ensures
            final(self).cached() == Some(new_state),
            final(self).subscribers() == old(self).subscribers(),
            final(self).is_initialized() == old(self).is_initialized(),
            r@ == old(self).subscribers(),
    {
        self.cache = Some(new_state);
        self.subscriptions.clone()
    }

    /// The envelope to post to the worker for an action: none until the
    /// handshake has completed, as a dispatch before then is not meaningful.
    pub fn dispatch<P>(&self, ident: String, action: P) -> (r: Option<Envelope<P>>)
        ensures
            self.is_initialized() ==> r == Some(Envelope { ident, action }),
            !self.is_initialized() ==> r is None,
    {
        if self.initialized {
            Some(Envelope { ident, action })
        } else {
            None
        }
    }

    pub fn initialized(&self) -> (r: bool)
        ensures
            r == self.is_initialized(),
    {
        self.initialized
    }

    pub fn set_initialized(&mut self, initialized: bool)
        ensures
            final(self).is_initialized() == initialized,
            final(self).cached() == old(self).cached(),
            final(self).subscribers() == old(self).subscribers(),
    {
        self.initialized = initialized;
    }

    /// Appends `subscription` to the subscribers.
    pub fn subscribe(&mut self, subscription: SubscriptionId)
        ensures
            final(self).subscribers() == old(self).subscribers().push(subscription),
            final(self).cached() == old(self).cached(),
            final(self).is_initialized() == old(self).is_initialized(),
    {
        self.subscriptions.push(subscription);
    }

    /// Removes the first subscriber equal to `subscription`; no change when
    /// there is none.
    pub fn unsubscribe(&mut self, subscription: SubscriptionId)
        ensures
            final(self).subscribers() == remove_first(old(self).subscribers(), subscription),
            final(self).cached() == old(self).cached(),
            final(self).is_initialized() == old(self).is_initialized(),
    {
        let mut i: usize = 0;
        while i < self.subscriptions.len()
            invariant
                i <= self.subscriptions@.len(),
                self.subscriptions@ == old(self).subscriptions@,
                self.cache == old(self).cache,
                self.initialized == old(self).initialized,
                forall|j: int| 0 <= j < i ==> self.subscriptions@[j] != subscription,
            decreases self.subscriptions@.len() - i,
        {
            if self.subscriptions[i] == subscription {
                let ghost s = self.subscriptions@;
                proof {
                    assert(is_first_index(s, subscription, i as int));
                    assert(s.contains(subscription));
                    let c = choose|k: int| is_first_index(s, subscription, k);
                    assert(c == i as int) by {
                        if c < i {
                        } else if c > i {
                            assert(s[i as int] != subscription);
                        }
                    }
                }
                self.subscriptions.remove(i);
                return;
            }
            i = i + 1;
        }
        assert(!self.subscriptions@.contains(subscription));
    }
}

/// Unsubscribing a callback right after subscribing it leaves the list as it
/// was; from no subscribers it leaves none, so a later `update_state`
/// notifies nobody.
pub proof fn lemma_unsubscribe_undoes_subscribe(subs: Seq<SubscriptionId>, cb: SubscriptionId)
    requires
        !subs.contains(cb),
    ensures
        remove_first(subs.push(cb), cb) == subs,
        subs.len() == 0 ==> remove_first(subs.push(cb), cb).len() == 0,
{
    let s = subs.push(cb);
    assert(is_first_index(s, cb, subs.len() as int)) by {
        assert forall|j: int| 0 <= j < subs.len() implies s[j] != cb by {
            assert(s[j] == subs[j]);
        }
    }
    assert(s.contains(cb));
    let c = choose|k: int| is_first_index(s, cb, k);
    assert(c == subs.len()) by {
        if c < subs.len() {
            assert(subs[c] == cb);
        }
    }
    assert(s.remove(c) =~= subs);
}

} // verus!
