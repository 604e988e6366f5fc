//! Broadcast delivery: the acknowledgement, fan-out, heartbeats, capacity
//! and unsubscription.

use guichet::hub::{Hub, Msg};

#[test]
fn subscriber_before_publish_receives_exactly_once() {
    let mut hub = Hub::new(100);
    let early = hub.subscribe();
    let msg = Msg::Ticket { guichet: String::from("A"), compteur: 1 };
    hub.publish(msg.clone());
    let late = hub.subscribe();
    // The early subscriber sees the acknowledgement, then the message,
    // exactly once.
    assert_eq!(hub.recv(early), Some(Msg::Connected));
    assert_eq!(hub.recv(early), Some(msg));
    assert_eq!(hub.recv(early), None);
    // The late subscriber sees only the acknowledgement: no replay.
    assert_eq!(hub.recv(late), Some(Msg::Connected));
    assert_eq!(hub.recv(late), None);
}

#[test]
fn publish_reaches_every_registered_subscriber() {
    let mut hub = Hub::new(100);
    let a = hub.subscribe();
    let b = hub.subscribe();
    hub.publish(Msg::Ping);
    for sid in [a, b] {
        assert_eq!(hub.recv(sid), Some(Msg::Connected));
        assert_eq!(hub.recv(sid), Some(Msg::Ping));
        assert_eq!(hub.recv(sid), None);
    }
}

#[test]
fn full_queue_drops_oldest_instead_of_blocking() {
    let mut hub = Hub::new(2);
    let sid = hub.subscribe();
    let m1 = Msg::Ticket { guichet: String::from("A"), compteur: 1 };
    let m2 = Msg::Ticket { guichet: String::from("A"), compteur: 2 };
    hub.publish(m1.clone());
    // The queue now holds [Connected, m1] and is full: the next publish
    // pushes the acknowledgement out.
    hub.publish(m2.clone());
    assert_eq!(hub.recv(sid), Some(m1));
    assert_eq!(hub.recv(sid), Some(m2));
    assert_eq!(hub.recv(sid), None);
}

#[test]
fn unsubscribe_releases_the_registration() {
    let mut hub = Hub::new(100);
    let a = hub.subscribe();
    let b = hub.subscribe();
    hub.unsubscribe(a);
    hub.publish(Msg::Ping);
    // The cancelled subscription no longer exists.
    assert_eq!(hub.recv(a), None);
    // The other subscriber is untouched.
    assert_eq!(hub.recv(b), Some(Msg::Connected));
    assert_eq!(hub.recv(b), Some(Msg::Ping));
}

#[test]
fn subscription_ids_are_never_reused() {
    let mut hub = Hub::new(100);
    let a = hub.subscribe();
    hub.unsubscribe(a);
    let b = hub.subscribe();
    assert_ne!(a, b);
}

#[test]
fn recv_of_unknown_id_is_none() {
    let mut hub = Hub::new(100);
    assert_eq!(hub.recv(7), None);
}
