use ordo::examples::{decode_counter, decode_text, ExampleAction, SingleStoreAsyncExample, SingleStoreExample, TextAction};
use ordo::transport::{Effect, Envelope, Inbound};

#[test]
fn counter_increment_after_ready_gives_eleven() {
    let mut ex = SingleStoreExample::new();
    assert_eq!(ex.ordo.get_state().counter, 10);
    assert!(matches!(ex.ordo.receive::<()>(Inbound::Undefined), Effect::SendState));
    assert!(matches!(ex.ordo.receive::<()>(Inbound::Defined(None)), Effect::Ready));
    let msg = Inbound::Defined(Some(Envelope { ident: String::from("INCREMENT"), action: () }));
    let index = match ex.ordo.receive(msg) {
        Effect::Dispatch { index, .. } => index,
        _ => panic!("expected a dispatch"),
    };
    let action = decode_counter(index).unwrap();
    assert!(ex.ordo.dispatch(&action));
    assert_eq!(ex.ordo.get_state().counter, 11);
}

#[test]
fn no_dispatch_while_uninitialized() {
    let mut ex = SingleStoreExample::new();
    let msg = Inbound::Defined(Some(Envelope { ident: String::from("INCREMENT"), action: () }));
    assert!(matches!(ex.ordo.receive(msg), Effect::Ready));
    assert_eq!(ex.ordo.get_state().counter, 10);
}

#[test]
fn unregistered_ident_changes_nothing() {
    let mut ex = SingleStoreExample::new();
    ex.ordo.receive::<()>(Inbound::Defined(None));
    let bad = Inbound::Defined(Some(Envelope { ident: String::from("RESET"), action: () }));
    assert!(matches!(ex.ordo.receive(bad), Effect::UnknownAction(_)));
    assert_eq!(ex.ordo.get_state().counter, 10);
    let good = Inbound::Defined(Some(Envelope { ident: String::from("DECREMENT"), action: () }));
    let index = match ex.ordo.receive(good) {
        Effect::Dispatch { index, .. } => index,
        _ => panic!("expected a dispatch"),
    };
    assert!(ex.ordo.dispatch(&decode_counter(index).unwrap()));
    assert_eq!(ex.ordo.get_state().counter, 9);
}

#[test]
fn text_example_starts_at_greeting_and_resets() {
    let mut ex = SingleStoreAsyncExample::new();
    assert_eq!(ex.ordo.get_state().text, "Hello!");
    assert!(ex.ordo.dispatch(&ExampleAction::Text(TextAction::REPLACE(String::from("x")))));
    assert_eq!(ex.ordo.get_state().text, "x");
    ex.test_dispatch();
    assert_eq!(ex.ordo.get_state().text, "Hello!");
}

#[test]
fn decoders_follow_registry_order() {
    assert!(matches!(decode_counter(1), Some(ExampleAction::Counter(ordo::examples::CounterAction::DECREMENT))));
    assert!(decode_counter(2).is_none());
    match decode_text(0, Some(String::from("Hi"))) {
        Some(ExampleAction::Text(TextAction::REPLACE(t))) => assert_eq!(t, "Hi"),
        _ => panic!("expected a replacement"),
    }
    assert!(decode_text(0, None).is_none());
    assert!(matches!(decode_text(1, None), Some(ExampleAction::Text(TextAction::RESET))));
}
