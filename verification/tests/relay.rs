use chat_relay::endpoint::accept_upgrade;
use chat_relay::registry::Registry;
use chat_relay::session::{format_message, Session, SessionState};

fn s(text: &str) -> String {
    text.to_string()
}

#[test]
fn reregistration_keeps_only_second_handle() {
    let mut reg: Registry<u64> = Registry::new();
    reg.register(s("u1"), 1);
    reg.register(s("u1"), 2);
    assert_eq!(reg.lookup(&s("u1")), Some(&2));
}

#[test]
fn unregister_clears_until_new_registration() {
    let mut reg: Registry<u64> = Registry::new();
    reg.register(s("u1"), 1);
    reg.unregister(&s("u1"));
    assert_eq!(reg.lookup(&s("u1")), None);
    reg.register(s("u2"), 7);
    assert_eq!(reg.lookup(&s("u1")), None);
    reg.unregister(&s("u3"));
    assert_eq!(reg.lookup(&s("u1")), None);
    reg.register(s("u1"), 9);
    assert_eq!(reg.lookup(&s("u1")), Some(&9));
}

#[test]
fn unregister_absent_id_is_a_no_op() {
    let mut reg: Registry<u64> = Registry::new();
    reg.register(s("a"), 1);
    reg.unregister(&s("missing"));
    assert_eq!(reg.lookup(&s("a")), Some(&1));
}

#[test]
fn two_sessions_exchange_messages() {
    let mut reg: Registry<u64> = Registry::new();
    let mut a = Session::new(s("A"), s("B"));
    let mut b = Session::new(s("B"), s("A"));
    a.open(&mut reg, 10);
    b.open(&mut reg, 20);

    let routed = a.route_text(&reg, &s("hi"));
    let (handle, message) = routed.expect("peer is registered");
    assert_eq!(*handle, 20);
    assert_eq!(message, "A: hi");

    let routed_back = b.route_text(&reg, &s("yo"));
    let (handle_back, message_back) = routed_back.expect("peer is registered");
    assert_eq!(*handle_back, 10);
    assert_eq!(message_back, "B: yo");
}

#[test]
fn message_to_absent_peer_is_dropped_and_never_replayed() {
    let mut reg: Registry<u64> = Registry::new();
    let mut a = Session::new(s("A"), s("B"));
    a.open(&mut reg, 10);

    assert_eq!(a.route_text(&reg, &s("hello")), None);

    let mut b = Session::new(s("B"), s("A"));
    b.open(&mut reg, 20);
    // Nothing was queued: only a frame sent now is routed, the old one is gone.
    let routed = a.route_text(&reg, &s("again"));
    assert_eq!(routed, Some((&20, s("A: again"))));
}

#[test]
fn self_paired_session_routes_to_itself() {
    let mut reg: Registry<u64> = Registry::new();
    let mut c = Session::new(s("C"), s("C"));
    c.open(&mut reg, 5);
    let routed = c.route_text(&reg, &s("echo"));
    assert_eq!(routed, Some((&5, s("C: echo"))));
}

#[test]
fn close_unregisters_and_later_messages_are_dropped() {
    let mut reg: Registry<u64> = Registry::new();
    let mut a = Session::new(s("A"), s("B"));
    let mut b = Session::new(s("B"), s("A"));
    a.open(&mut reg, 10);
    b.open(&mut reg, 20);

    a.close(&mut reg);
    assert_eq!(a.state, SessionState::Closed);
    assert_eq!(reg.lookup(&s("A")), None);
    assert_eq!(b.route_text(&reg, &s("anyone there?")), None);
    // B's own entry is untouched.
    assert_eq!(reg.lookup(&s("B")), Some(&20));
}

#[test]
fn closed_session_refuses_pushes_and_routes_nothing() {
    let mut reg: Registry<u64> = Registry::new();
    let mut a = Session::new(s("A"), s("A"));
    a.open(&mut reg, 1);
    assert!(a.accepts_push());
    a.close(&mut reg);
    assert!(!a.accepts_push());
    assert_eq!(a.route_text(&reg, &s("late")), None);
}

#[test]
fn operations_on_disjoint_keys_never_interfere() {
    let mut reg: Registry<u64> = Registry::new();
    for i in 0..50u64 {
        reg.register(format!("user{}", i), i * 10);
    }
    for i in 0..50u64 {
        if i % 2 == 0 {
            reg.unregister(&format!("user{}", i));
        } else {
            reg.register(format!("user{}", i), i * 10 + 1);
        }
    }
    for i in 0..50u64 {
        let expected = if i % 2 == 0 { None } else { Some(i * 10 + 1) };
        assert_eq!(reg.lookup(&format!("user{}", i)).copied(), expected);
    }
}

#[test]
fn upgrade_with_valid_params_opens_a_registered_session() {
    let mut reg: Registry<u64> = Registry::new();
    let session = accept_upgrade(&mut reg, s("A"), s("B"), 10).expect("valid params");
    assert_eq!(session.self_id, "A");
    assert_eq!(session.peer_id, "B");
    assert_eq!(session.state, SessionState::Open);
    assert_eq!(reg.lookup(&s("A")), Some(&10));
}

#[test]
fn upgrade_with_empty_param_is_rejected_without_registry_change() {
    let mut reg: Registry<u64> = Registry::new();
    assert!(accept_upgrade(&mut reg, s(""), s("B"), 10).is_none());
    assert!(accept_upgrade(&mut reg, s("A"), s(""), 11).is_none());
    assert_eq!(reg.lookup(&s("A")), None);
    assert_eq!(reg.lookup(&s("")), None);
}

#[test]
fn formatted_message_keeps_payload_verbatim() {
    assert_eq!(format_message(&s("A"), &s("hi")), "A: hi");
    assert_eq!(format_message(&s("A"), &s("b: c")), "A: b: c");
    assert_eq!(format_message(&s("A"), &s("")), "A: ");
}
