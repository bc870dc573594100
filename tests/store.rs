use ordo::examples::{CounterAction, CounterReducer, CounterState, ExampleAction, TextAction, TextReducer, TextState};
use ordo::store::{CombinedStore, SingleStore, Store, __build_combined_store, __build_single_store};

fn counter(n: u8) -> SingleStore<CounterReducer> {
    __build_single_store(CounterState { counter: n }, CounterReducer)
}

fn inc() -> ExampleAction {
    ExampleAction::Counter(CounterAction::INCREMENT)
}

fn dec() -> ExampleAction {
    ExampleAction::Counter(CounterAction::DECREMENT)
}

#[test]
fn single_store_state_is_fold_of_actions() {
    let mut s = counter(10);
    for a in [inc(), inc(), dec(), inc()] {
        assert!(s.dispatch(&a));
    }
    assert_eq!(s.get_state().counter, 12);
}

#[test]
fn single_store_get_state_is_initial_state() {
    let s = counter(7);
    assert_eq!(s.get_state().counter, 7);
}

#[test]
fn single_store_rejects_foreign_action() {
    let mut s = counter(3);
    assert!(!s.dispatch(&ExampleAction::Text(TextAction::RESET)));
    assert_eq!(s.get_state().counter, 3);
}

#[test]
fn counter_wraps_at_range_ends() {
    let mut s = counter(255);
    assert!(s.dispatch(&inc()));
    assert_eq!(s.get_state().counter, 0);
    assert!(s.dispatch(&dec()));
    assert_eq!(s.get_state().counter, 255);
}

#[test]
fn text_store_replace_then_reset() {
    let mut s = __build_single_store(TextState { text: String::from("a") }, TextReducer);
    assert!(s.dispatch(&ExampleAction::Text(TextAction::REPLACE(String::from("xyz")))));
    assert_eq!(s.get_state().text, "xyz");
    assert!(s.dispatch(&ExampleAction::Text(TextAction::RESET)));
    assert_eq!(s.get_state().text, "Hello!");
    assert!(!s.dispatch(&inc()));
    assert_eq!(s.get_state().text, "Hello!");
}

fn combined() -> CombinedStore<CounterReducer> {
    __build_combined_store(vec![
        (String::from("first"), counter(1)),
        (String::from("second"), counter(20)),
    ])
}

#[test]
fn combined_dispatch_reaches_every_member() {
    let mut c = combined();
    assert!(c.dispatch(&inc()));
    let st = c.get_state();
    assert_eq!(st.len(), 2);
    assert_eq!(st[0].0, "first");
    assert_eq!(st[0].1.counter, 2);
    assert_eq!(st[1].0, "second");
    assert_eq!(st[1].1.counter, 21);
}

#[test]
fn combined_dispatch_false_when_no_member_handles() {
    let mut c = combined();
    assert!(!c.dispatch(&ExampleAction::Text(TextAction::RESET)));
    let st = c.get_state();
    assert_eq!(st[0].1.counter, 1);
    assert_eq!(st[1].1.counter, 20);
}

#[test]
fn combined_empty_handles_nothing() {
    let mut c: CombinedStore<CounterReducer> = __build_combined_store(Vec::new());
    assert!(!c.dispatch(&inc()));
    assert!(c.get_state().is_empty());
}
