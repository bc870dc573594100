use ordo::transport::{Effect, Envelope, Inbound, Registry, Transport};

fn registry() -> Registry {
    let mut r = Registry::new();
    assert!(r.register(String::from("INCREMENT")));
    assert!(r.register(String::from("DECREMENT")));
    r
}

fn envelope(ident: &str, payload: u32) -> Inbound<u32> {
    Inbound::Defined(Some(Envelope { ident: String::from(ident), action: payload }))
}

#[test]
fn registry_lookup_and_duplicates() {
    let mut r = registry();
    assert!(!r.register(String::from("INCREMENT")));
    assert_eq!(r.lookup(&String::from("INCREMENT")), Some(0));
    assert_eq!(r.lookup(&String::from("DECREMENT")), Some(1));
    assert_eq!(r.lookup(&String::from("RESET")), None);
}

#[test]
fn probe_before_ready_yields_one_state_response() {
    let r = registry();
    let mut t = Transport::new();
    assert!(!t.initialized());
    assert!(matches!(t.receive::<u32>(Inbound::Undefined, &r), Effect::SendState));
    assert!(!t.initialized());
    assert!(matches!(t.receive::<u32>(Inbound::Undefined, &r), Effect::SendState));
    assert!(!t.initialized());
}

#[test]
fn envelope_before_ready_is_the_ready_signal() {
    let r = registry();
    let mut t = Transport::new();
    assert!(matches!(t.receive(envelope("INCREMENT", 1), &r), Effect::Ready));
    assert!(t.initialized());
    assert!(matches!(
        t.receive(envelope("INCREMENT", 2), &r),
        Effect::Dispatch { index: 0, action: 2 }
    ));
}

#[test]
fn undecodable_after_ready_is_dropped() {
    let r = registry();
    let mut t = Transport::new();
    assert!(matches!(t.receive::<u32>(Inbound::Defined(None), &r), Effect::Ready));
    assert!(matches!(t.receive::<u32>(Inbound::Undefined, &r), Effect::Undecodable));
    assert!(matches!(t.receive::<u32>(Inbound::Defined(None), &r), Effect::Undecodable));
    assert!(t.initialized());
}

#[test]
fn unknown_ident_is_dropped_and_later_messages_processed() {
    let r = registry();
    let mut t = Transport::new();
    t.set_initialized(true);
    match t.receive(envelope("NOPE", 5), &r) {
        Effect::UnknownAction(id) => assert_eq!(id, "NOPE"),
        _ => panic!("expected an unknown action"),
    }
    assert!(t.initialized());
    assert!(matches!(
        t.receive(envelope("DECREMENT", 6), &r),
        Effect::Dispatch { index: 1, action: 6 }
    ));
}
