use ordo::adapter::Adapter;

#[test]
fn unsubscribe_after_subscribe_leaves_no_subscribers() {
    let mut a: Adapter<u32> = Adapter::new();
    a.subscribe(7);
    a.unsubscribe(7);
    assert!(a.update_state(1).is_empty());
    assert_eq!(a.get_state(), Some(&1));
}

#[test]
fn update_state_notifies_in_registration_order() {
    let mut a: Adapter<u32> = Adapter::new();
    assert_eq!(a.get_state(), None);
    a.subscribe(3);
    a.subscribe(1);
    a.subscribe(2);
    assert_eq!(a.update_state(9), vec![3, 1, 2]);
    assert_eq!(a.get_state(), Some(&9));
}

#[test]
fn unsubscribe_removes_first_match_only() {
    let mut a: Adapter<u32> = Adapter::new();
    a.subscribe(1);
    a.subscribe(2);
    a.subscribe(1);
    a.unsubscribe(1);
    assert_eq!(a.update_state(0), vec![2, 1]);
    a.unsubscribe(42);
    assert_eq!(a.update_state(0), vec![2, 1]);
}

#[test]
fn dispatch_gated_by_handshake() {
    let mut a: Adapter<u32> = Adapter::new();
    assert!(a.dispatch(String::from("INCREMENT"), 0u8).is_none());
    a.set_initialized(true);
    assert!(a.initialized());
    let e = a.dispatch(String::from("INCREMENT"), 0u8).unwrap();
    assert_eq!(e.ident, "INCREMENT");
    assert_eq!(e.action, 0);
}
