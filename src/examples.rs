use vstd::prelude::*;

use crate::prime::{create_store, Prime};
use crate::reducer::Reducer;
use crate::transport::Registry;

verus! {

/// The state of the counter store.
pub struct CounterState {
    pub counter: u8,
}

impl View for CounterState {
    type V = u8;

    open spec fn view(&self) -> u8 {
        self.counter
    }
}

#[allow(non_camel_case_types)]
#[derive(Clone, Copy, PartialEq, Eq, Structural)]
pub enum CounterAction {
    INCREMENT,
    DECREMENT,
}

/// The state of the text store.
pub struct TextState {
    pub text: String,
}

impl View for TextState {
    type V = Seq<char>;

    open spec fn view(&self) -> Seq<char> {
        self.text@
    }
}

#[allow(non_camel_case_types)]
pub enum TextAction {
    REPLACE(String),
    RESET,
}

/// The actions of both example stores under one closed type: what a
/// dispatch hands to every store, each taking only its own.
pub enum ExampleAction {
    Counter(CounterAction),
    Text(TextAction),
}

/// Counts up and down; the counter wraps at the ends of its range.
pub struct CounterReducer;

/// Replaces the text, or resets it to the greeting.
pub struct TextReducer;

impl Reducer for CounterReducer {
    type State = CounterState;
    type Action = CounterAction;
    type Erased = ExampleAction;

    open spec fn narrow_spec(&self, e: ExampleAction) -> Option<CounterAction> {
        match e {
            ExampleAction::Counter(a) => Some(a),
            _ => None,
        }
    }

    open spec fn reduce_spec(&self, s: u8, a: CounterAction) -> u8 {
        match a {
            CounterAction::INCREMENT => ((s + 1) % 256) as u8,
            CounterAction::DECREMENT => ((s + 255) % 256) as u8,
        }
    }

    fn narrow(&self, e: &ExampleAction) -> (r: Option<CounterAction>) {
        match e {
            ExampleAction::Counter(a) => Some(*a),
            _ => None,
        }
    }

    fn reduce(&self, s: &CounterState, a: CounterAction) -> (r: CounterState) {
        match a {
            CounterAction::INCREMENT => CounterState { counter: s.counter.wrapping_add(1) },
            CounterAction::DECREMENT => CounterState { counter: s.counter.wrapping_sub(1) },
        }
    }
}

/// The greeting that the text store starts from and resets to.
pub open spec fn greeting() -> Seq<char> {
    seq!['H', 'e', 'l', 'l', 'o', '!']
}

fn make_greeting() -> (r: String)
    ensures
        r@ == greeting(),
{
    let r = "Hello!".to_string();
    proof {
        reveal_strlit("Hello!");
    }
    assert(r@ =~= greeting());
    r
}

impl Reducer for TextReducer {
    type State = TextState;
    type Action = TextAction;
    type Erased = ExampleAction;

    open spec fn narrow_spec(&self, e: ExampleAction) -> Option<TextAction> {
        match e {
            ExampleAction::Text(a) => Some(a),
            _ => None,
        }
    }

    open spec fn reduce_spec(&self, s: Seq<char>, a: TextAction) -> Seq<char> {
        match a {
            TextAction::REPLACE(t) => t@,
            TextAction::RESET => greeting(),
        }
    }

    fn narrow(&self, e: &ExampleAction) -> (r: Option<TextAction>) {
        match e {
            ExampleAction::Text(TextAction::REPLACE(t)) => Some(TextAction::REPLACE(t.clone())),
            ExampleAction::Text(TextAction::RESET) => Some(TextAction::RESET),
            _ => None,
        }
    }

    fn reduce(&self, s: &TextState, a: TextAction) -> (r: TextState) {
        match a {
            TextAction::REPLACE(t) => TextState { text: t },
            TextAction::RESET => TextState { text: make_greeting() },
        }
    }
}

/// The tags of the counter actions, in decoder order.
pub open spec fn counter_idents() -> Seq<Seq<char>> {
    seq![seq!['I', 'N', 'C', 'R', 'E', 'M', 'E', 'N', 'T'], seq!['D', 'E', 'C', 'R', 'E', 'M', 'E', 'N', 'T']]
}

/// The tags of the text actions, in decoder order.
pub open spec fn text_idents() -> Seq<Seq<char>> {
    seq![seq!['R', 'E', 'P', 'L', 'A', 'C', 'E'], seq!['R', 'E', 'S', 'E', 'T']]
}

/// The registry of the counter actions.
pub fn counter_registry() -> (r: Registry)
    ensures
        r.wf(),
        r.idents() == counter_idents(),
{
    let mut r = Registry::new();
    let a = "INCREMENT".to_string();
    let b = "DECREMENT".to_string();
    proof {
        reveal_strlit("INCREMENT");
        reveal_strlit("DECREMENT");
        assert(a@ =~= counter_idents()[0]);
        assert(b@ =~= counter_idents()[1]);
        assert(a@[0] != b@[0]);
    }
    let _ = r.register(a);
    let _ = r.register(b);
    assert(r.idents() =~= counter_idents());
    r
}

/// The registry of the text actions.
pub fn text_registry() -> (r: Registry)
    ensures
        r.wf(),
        r.idents() == text_idents(),
{
    let mut r = Registry::new();
    let a = "REPLACE".to_string();
    let b = "RESET".to_string();
    proof {
        reveal_strlit("REPLACE");
        reveal_strlit("RESET");
        assert(a@ =~= text_idents()[0]);
        assert(b@ =~= text_idents()[1]);
        assert(a@.len() != b@.len());
    }
    let _ = r.register(a);
    let _ = r.register(b);
    assert(r.idents() =~= text_idents());
    r
}

/// The counter action whose decoder stands at `index` of the counter registry.
pub fn decode_counter(index: usize) -> (r: Option<ExampleAction>)
    ensures
        index == 0 ==> r == Some(ExampleAction::Counter(CounterAction::INCREMENT)),
        index == 1 ==> r == Some(ExampleAction::Counter(CounterAction::DECREMENT)),
        index > 1 ==> r is None,
{
    if index == 0 {
        Some(ExampleAction::Counter(CounterAction::INCREMENT))
    } else if index == 1 {
        Some(ExampleAction::Counter(CounterAction::DECREMENT))
    } else {
        None
    }
}

/// The text action whose decoder stands at `index` of the text registry,
/// with the replacement text read from the payload; none when the payload
/// that `REPLACE` needs is missing.
pub fn decode_text(index: usize, text: Option<String>) -> (r: Option<ExampleAction>)
    ensures
        index == 0 ==> r == (match text {
            Some(t) => Some(ExampleAction::Text(TextAction::REPLACE(t))),
            None => None,
        }),
        index == 1 ==> r == Some(ExampleAction::Text(TextAction::RESET)),
        index > 1 ==> r is None,
{
    if index == 0 {
        match text {
            Some(t) => Some(ExampleAction::Text(TextAction::REPLACE(t))),
            None => None,
        }
    } else if index == 1 {
        Some(ExampleAction::Text(TextAction::RESET))
    } else {
        None
    }
}

/// The counter example: a counter store starting at ten.
pub struct SingleStoreExample {
    pub ordo: Prime<CounterReducer>,
}

impl SingleStoreExample {
    pub fn new() -> (r: SingleStoreExample)
        ensures
            r.ordo.wf(),
            r.ordo.store().state() == 10,
            r.ordo.registry().idents() == counter_idents(),
            !r.ordo.is_initialized(),
    {
        let ordo = create_store(CounterState { counter: 10 }, CounterReducer, counter_registry());
        SingleStoreExample { ordo }
    }
}

/// The text example: a text store starting at the greeting.
pub struct SingleStoreAsyncExample {
    pub ordo: Prime<TextReducer>,
}

impl SingleStoreAsyncExample {
    pub fn new() -> (r: SingleStoreAsyncExample)
        ensures
            r.ordo.wf(),
            r.ordo.store().state() == greeting(),
            r.ordo.registry().idents() == text_idents(),
            !r.ordo.is_initialized(),
    {
        let ordo = create_store(TextState { text: make_greeting() }, TextReducer, text_registry());
        SingleStoreAsyncExample { ordo }
    }

    /// Replaces the text by "Hello World!", then resets it; both are
    /// handled, and the greeting is the state afterwards.
    pub fn test_dispatch(&mut self)
        requires
            old(self).ordo.wf(),
        ensures
            final(self).ordo.wf(),
            final(self).ordo.store().state() == greeting(),
            final(self).ordo.store().reducer() == old(self).ordo.store().reducer(),
            final(self).ordo.is_initialized() == old(self).ordo.is_initialized(),
            final(self).ordo.registry() == old(self).ordo.registry(),
    {
        let replace = ExampleAction::Text(TextAction::REPLACE("Hello World!".to_string()));
        let handled = self.ordo.dispatch(&replace);
        assert(handled);
        let handled = self.ordo.dispatch(&ExampleAction::Text(TextAction::RESET));
        assert(handled);
    }
}

} // verus!
