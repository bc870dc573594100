use vstd::prelude::*;

verus! {

/// A dispatch envelope: an action tag and the action's payload.
pub struct Envelope<P> {
    pub ident: String,
    pub action: P,
}

/// A message received on the worker's channel.
pub enum Inbound<P> {
    /// An empty or undefined message (the bootstrap probe).
    Undefined,
    /// A defined message, with the envelope it decodes to, if it decodes.
    Defined(Option<Envelope<P>>),
}

/// What the worker does in answer to one inbound message.
pub enum Effect<P> {
    /// Post a full snapshot of the state (bootstrap response).
    SendState,
    /// The handshake completed: the channel is now initialized.
    Ready,
    /// Decode `action` with the registry's decoder at `index`, dispatch it to
    /// the store and, once resolved, post the new state.
    Dispatch { index: usize, action: P },
    /// The tag is in no registry entry: report an integration defect, drop it.
    UnknownAction(String),
    /// The message does not decode as an envelope: report it, drop it.
    Undecodable,
}

/// The action tags of one declared action set, each with a decoder at the
/// same index (the decoders themselves live with the host).
pub struct Registry {
    idents: Vec<String>,
}

/// Whether the tags of `ids` are pairwise distinct.
pub open spec fn idents_unique(ids: Seq<Seq<char>>) -> bool {
    forall|i: int, j: int| 0 <= i < j < ids.len() ==> ids[i] != ids[j]
}

/// The index of tag `id` in `ids`, if it is there.
pub open spec fn ident_index(ids: Seq<Seq<char>>, id: Seq<char>) -> Option<int> {
    if exists|i: int| 0 <= i < ids.len() && ids[i] == id {
        Some(choose|i: int| 0 <= i < ids.len() && ids[i] == id)
    } else {
        None
    }
}

impl Registry {
    /// The registered tags, in order.
    pub closed spec fn idents(&self) -> Seq<Seq<char>> {
        self.idents@.map_values(|s: String| s@)
    }

    /// Each tag is registered once.
    pub open spec fn wf(&self) -> bool {
        idents_unique(self.idents())
    }

    /// An empty registry.
    pub fn new() -> (r: Registry)
        ensures
            r.idents() == Seq::<Seq<char>>::empty(),
            r.wf(),
    {
        let r = Registry { idents: Vec::new() };
        assert(r.idents() =~= Seq::<Seq<char>>::empty());
        r
    }

    /// The index of `ident`'s decoder, if `ident` is registered.
    pub fn lookup(&self, ident: &String) -> (r: Option<usize>)
        requires
            self.wf(),
        ensures
            r == (match ident_index(self.idents(), ident@) {
                Some(i) => Some(i as usize),
                None => None,
            }),
    {
        let mut i: usize = 0;
        while i < self.idents.len()
            invariant
                i <= self.idents@.len(),
                self.wf(),
                forall|k: int| 0 <= k < i ==> self.idents()[k] != ident@,
            decreases self.idents@.len() - i,
        {
            if self.idents[i] == *ident {
                assert(self.idents()[i as int] == ident@);
                let ghost c = choose|k: int|
                    0 <= k < self.idents().len() && self.idents()[k] == ident@;
                assert(c == i as int);
                return Some(i);
            }
            i = i + 1;
        }
        proof {
            assert forall|k: int| 0 <= k < self.idents().len() implies self.idents()[k]
                != ident@ by {}
        }
        None
    }

    /// Registers `ident` at the next index; returns false, changing
    /// nothing, when it is registered already.
    pub fn register(&mut self, ident: String) -> (r: bool)
        requires
            old(self).wf(),
        ensures
            final(self).wf(),
            r == ident_index(old(self).idents(), ident@).is_none(),
            r ==> final(self).idents() == old(self).idents().push(ident@),
            !r ==> final(self).idents() == old(self).idents(),
    {
        match self.lookup(&ident) {
            Some(_) => false,
            None => {
                let ghost id = ident@;
                self.idents.push(ident);
                assert(self.idents() =~= old(self).idents().push(id));
                true
            },
        }
    }
}

/// Whether the channel is initialized after `msg`, from `initialized`.
pub open spec fn next_initialized<P>(initialized: bool, msg: Inbound<P>) -> bool {
    initialized || msg is Defined
}

/// The effect of `msg` on a channel in state `initialized`, with tags `ids`.
pub open spec fn step_effect<P>(initialized: bool, msg: Inbound<P>, ids: Seq<Seq<char>>) -> Effect<
    P,
> {
    if !initialized {
        match msg {
            Inbound::Undefined => Effect::SendState,
            Inbound::Defined(_) => Effect::Ready,
        }
    } else {
        match msg {
            Inbound::Defined(Some(env)) => match ident_index(ids, env.ident@) {
                Some(i) => Effect::Dispatch { index: i as usize, action: env.action },
                None => Effect::UnknownAction(env.ident),
            },
            _ => Effect::Undecodable,
        }
    }
}

/// The worker side of the channel's handshake: `Uninitialized` until the
/// first defined message, `Initialized` from then on.
pub struct Transport {
    initialized: bool,
}

impl Transport {
    /// Whether the handshake has completed.
    pub closed spec fn is_initialized(&self) -> bool {
        self.initialized
    }

    /// A channel in its initial state, uninitialized.
    pub fn new() -> (r: Transport)
        ensures
            !r.is_initialized(),
    {
        Transport { initialized: false }
    }

    pub fn initialized(&self) -> (r: bool)
        ensures
            r == self.is_initialized(),
    {
        self.initialized
    }

    /// Sets the handshake state; there is no way back from initialized.
    pub fn set_initialized(&mut self, initialized: bool)
        requires
            old(self).is_initialized() ==> initialized,
        ensures
            final(self).is_initialized() == initialized,
    {
        self.initialized = initialized;
    }

    /// Handles one inbound message: before the handshake an undefined probe
    /// asks for the state and a defined message completes the handshake;
    /// after it, an envelope is resolved against `registry`.
    pub fn receive<P>(&mut self, msg: Inbound<P>, registry: &Registry) -> (r: Effect<P>)
        requires
            registry.wf(),
        ensures
            final(self).is_initialized() == next_initialized(old(self).is_initialized(), msg),
            r == step_effect(old(self).is_initialized(), msg, registry.idents()),
    {
        if !self.initialized {
            match msg {
                Inbound::Undefined => Effect::SendState,
                Inbound::Defined(_) => {
                    self.initialized = true;
                    Effect::Ready
                },
            }
        } else {
            match msg {
                Inbound::Defined(Some(env)) => match registry.lookup(&env.ident) {
                    Some(index) => Effect::Dispatch { index, action: env.action },
                    None => Effect::UnknownAction(env.ident),
                },
                _ => Effect::Undecodable,
            }
        }
    }
}

/// Whether some message of `msgs` before index `i` is defined.
pub open spec fn defined_before<P>(msgs: Seq<Inbound<P>>, i: int) -> bool {
    exists|j: int| 0 <= j < i && #[trigger] msgs[j] is Defined
}

/// The handshake over a run of messages from a fresh channel: the channel is
/// initialized exactly once a defined message has arrived; every undefined
/// probe before that is answered by exactly one full-state response; and no
/// envelope is dispatched while the channel is uninitialized. `flags[i]` and
/// `effects[i]` are the state before and the effect of the `i`-th message,
/// as `receive` states them.
pub proof fn lemma_handshake<P>(
    msgs: Seq<Inbound<P>>,
    flags: Seq<bool>,
    effects: Seq<Effect<P>>,
    ids: Seq<Seq<char>>,
)
    requires
        flags.len() == msgs.len() + 1,
        effects.len() == msgs.len(),
        !flags[0],
        forall|i: int|
            0 <= i < msgs.len() ==> #[trigger] flags[i + 1] == next_initialized(flags[i], msgs[i]),
        forall|i: int|
            0 <= i < msgs.len() ==> #[trigger] effects[i] == step_effect(flags[i], msgs[i], ids),
    ensures
        forall|i: int| 0 <= i <= msgs.len() ==> #[trigger] flags[i] == defined_before(msgs, i),
        forall|i: int|
            0 <= i < msgs.len() ==> (#[trigger] effects[i] is SendState) == (msgs[i] is Undefined
                && !defined_before(msgs, i)),
        forall|i: int|
            0 <= i < msgs.len() ==> (#[trigger] effects[i] is Ready) == (msgs[i] is Defined
                && !defined_before(msgs, i)),
        forall|i: int|
            0 <= i < msgs.len() && #[trigger] effects[i] is Dispatch ==> defined_before(msgs, i),
    decreases msgs.len(),
{
    if msgs.len() > 0 {
        let n = msgs.len() - 1;
        let (ms, fs, es) = (msgs.drop_last(), flags.drop_last(), effects.drop_last());
        assert forall|i: int| 0 <= i < ms.len() implies #[trigger] fs[i + 1] == next_initialized(
            fs[i],
            ms[i],
        ) by {
            assert(flags[i + 1] == next_initialized(flags[i], msgs[i]));
        }
        assert forall|i: int| 0 <= i < ms.len() implies #[trigger] es[i] == step_effect(
            fs[i],
            ms[i],
            ids,
        ) by {
            assert(effects[i] == step_effect(flags[i], msgs[i], ids));
        }
        lemma_handshake(ms, fs, es, ids);
        assert forall|i: int| 0 <= i <= n implies defined_before(ms, i) == defined_before(msgs, i) by {
            if defined_before(ms, i) {
                let j = choose|j: int| 0 <= j < i && #[trigger] ms[j] is Defined;
                assert(msgs[j] is Defined);
            }
            if defined_before(msgs, i) {
                let j = choose|j: int| 0 <= j < i && #[trigger] msgs[j] is Defined;
                assert(ms[j] is Defined);
            }
        }
        assert(fs[n] == flags[n]);
        assert(flags[n + 1] == next_initialized(flags[n], msgs[n]));
        if msgs[n] is Defined {
            assert(defined_before(msgs, n + 1));
        } else if defined_before(msgs, n + 1) {
            let j = choose|j: int| 0 <= j < n + 1 && #[trigger] msgs[j] is Defined;
            assert(j < n);
            assert(defined_before(msgs, n));
        }
        assert forall|i: int| 0 <= i <= msgs.len() implies #[trigger] flags[i] == defined_before(
            msgs,
            i,
        ) by {
            if i <= n {
                assert(fs[i] == flags[i]);
            }
        }
        assert forall|i: int| 0 <= i < msgs.len() implies #[trigger] effects[i] == step_effect(
            flags[i],
            msgs[i],
            ids,
        ) by {}
    } else {
        assert(!defined_before(msgs, 0));
    }
}

/// An envelope whose tag is registered nowhere, on an initialized channel,
/// is reported and dropped: the channel stays initialized, nothing is
/// dispatched, and a following envelope with a registered tag is still
/// dispatched to its decoder.
pub proof fn lemma_unknown_ident_dropped<P>(
    ids: Seq<Seq<char>>,
    unknown: Envelope<P>,
    next: Envelope<P>,
)
    requires
        ident_index(ids, unknown.ident@).is_none(),
        ident_index(ids, next.ident@).is_some(),
    ensures
        step_effect(true, Inbound::Defined(Some(unknown)), ids) == Effect::<P>::UnknownAction(
            unknown.ident,
        ),
        next_initialized(true, Inbound::Defined(Some(unknown))),
        step_effect(
            next_initialized(true, Inbound::Defined(Some(unknown))),
            Inbound::Defined(Some(next)),
            ids,
        ) == (Effect::Dispatch {
            index: ident_index(ids, next.ident@).unwrap() as usize,
            action: next.action,
        }),
{
}

} // verus!
