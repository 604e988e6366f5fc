//! The authorizing façade: authenticated actions have their full effect,
//! rejected ones have none at all.

use guichet::gateway::Engine;
use guichet::hub::Msg;

fn engine_with_device(name: &str) -> (Engine, String) {
    let mut engine = Engine::new(100);
    engine.db.register_device(String::from(name));
    let token = engine.db.get_all_devices()[0].token.clone();
    (engine, token)
}

#[test]
fn authorized_next_returns_state_and_broadcasts_once() {
    let (mut engine, token) = engine_with_device("button-1");
    let sid = engine.handle_subscribe(&token).unwrap();
    let etat = engine.handle_next(&token, 10).unwrap();
    assert_eq!(etat.compteur, 1);
    assert_eq!(etat.guichet, "button-1");
    assert_eq!(engine.db.counter, 1);
    assert_eq!(engine.db.history.len(), 1);
    // The subscriber connected before the call sees exactly one matching
    // broadcast after its acknowledgement.
    assert_eq!(engine.hub.recv(sid), Some(Msg::Connected));
    assert_eq!(
        engine.hub.recv(sid),
        Some(Msg::Ticket { guichet: String::from("button-1"), compteur: 1 })
    );
    assert_eq!(engine.hub.recv(sid), None);
}

#[test]
fn subscriber_connected_after_the_call_misses_it() {
    let (mut engine, token) = engine_with_device("button-1");
    engine.handle_next(&token, 10).unwrap();
    let sid = engine.handle_subscribe(&token).unwrap();
    assert_eq!(engine.hub.recv(sid), Some(Msg::Connected));
    assert_eq!(engine.hub.recv(sid), None);
}

#[test]
fn unknown_token_on_next_has_no_side_effects() {
    let (mut engine, token) = engine_with_device("button-1");
    let sid = engine.handle_subscribe(&token).unwrap();
    assert_eq!(engine.hub.recv(sid), Some(Msg::Connected));
    let refused = engine.handle_next("bad-token", 10);
    assert_eq!(refused, None);
    // No event log growth, no counter change, no broadcast.
    assert_eq!(engine.db.history.len(), 0);
    assert_eq!(engine.db.counter, 0);
    assert_eq!(engine.hub.recv(sid), None);
}

#[test]
fn unknown_token_on_subscribe_registers_nothing() {
    let (mut engine, _token) = engine_with_device("screen-1");
    let before = engine.hub.subs.len();
    assert_eq!(engine.handle_subscribe("bad-token"), None);
    assert_eq!(engine.hub.subs.len(), before);
    assert_eq!(engine.db.history.len(), 0);
}

#[test]
fn every_subscriber_gets_the_call() {
    let (mut engine, token) = engine_with_device("button-1");
    let s1 = engine.handle_subscribe(&token).unwrap();
    let s2 = engine.handle_subscribe(&token).unwrap();
    assert_ne!(s1, s2);
    engine.handle_next(&token, 10).unwrap();
    for sid in [s1, s2] {
        assert_eq!(engine.hub.recv(sid), Some(Msg::Connected));
        assert_eq!(
            engine.hub.recv(sid),
            Some(Msg::Ticket { guichet: String::from("button-1"), compteur: 1 })
        );
    }
}
