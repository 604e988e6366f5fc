//! Adopting a stored state: a faithful run round-trips, and rows no run of
//! the engine could have written are rejected as a whole.

use guichet::database::Database;
use guichet::types::{Annonce, Device, HistoryItem};

fn row(id: i32, ticket_number: i32, desk_name: &str, created_at: u64) -> HistoryItem {
    HistoryItem { id, ticket_number, desk_name: String::from(desk_name), created_at }
}

fn device(id: i32, name: &str, token: &str) -> Device {
    Device {
        id,
        name: String::from(name),
        token: String::from(token),
        status: None,
        ip_address: None,
    }
}

#[test]
fn restore_round_trips_a_run_of_the_engine() {
    let mut db = Database::init();
    db.register_device_with_token(String::from("b"), String::from("tok-b"));
    db.add_annonce(String::from("hello"));
    db.call_next(String::from("A"), 10);
    db.call_next(String::from("A"), 11);
    db.close_desk("A", 12);
    db.reset_all(13);
    db.call_next(String::from("B"), 14);

    let restored = Database::restore(
        db.last_desk.clone(),
        db.history.clone(),
        db.devices.clone(),
        db.annonces.clone(),
    )
    .unwrap();
    assert_eq!(restored.counter, db.counter);
    assert_eq!(restored.last_desk, "B");
    assert_eq!(restored.history, db.history);
    assert_eq!(restored.devices, db.devices);
    assert_eq!(restored.annonces, db.annonces);
    assert_eq!(restored.next_device_id, db.next_device_id);
    assert_eq!(restored.next_annonce_id, db.next_annonce_id);
}

#[test]
fn restore_rederives_the_counter_from_the_log() {
    let history = vec![
        row(1, 1, "A", 10),
        row(2, -2, "System", 11),
        row(3, 1, "B", 12),
        row(4, 2, "B", 13),
        row(5, -1, "B", 14),
    ];
    let db = Database::restore(String::from("B"), history, Vec::new(), Vec::new()).unwrap();
    // Two tickets since the reset; the close marker changes nothing.
    assert_eq!(db.counter, 2);
    assert_eq!(db.next_device_id, 1);
    assert_eq!(db.next_annonce_id, 1);
}

#[test]
fn restore_rejects_misnumbered_rows() {
    let history = vec![row(1, 1, "A", 10), row(5, 2, "A", 11)];
    assert!(Database::restore(String::from("A"), history, Vec::new(), Vec::new()).is_none());
}

#[test]
fn restore_rejects_a_log_no_run_could_write() {
    // One ticket numbered 5: the displayed number and the session count
    // can never agree on such a log.
    let history = vec![row(1, 5, "A", 10)];
    assert!(Database::restore(String::from("A"), history, Vec::new(), Vec::new()).is_none());
}

#[test]
fn restore_rejects_duplicate_device_rows() {
    let twice_token = vec![device(1, "a", "t"), device(2, "b", "t")];
    assert!(Database::restore(String::from("None"), Vec::new(), twice_token, Vec::new()).is_none());
    let twice_name = vec![device(1, "a", "t1"), device(2, "a", "t2")];
    assert!(Database::restore(String::from("None"), Vec::new(), twice_name, Vec::new()).is_none());
    let twice_id = vec![device(1, "a", "t1"), device(1, "b", "t2")];
    assert!(Database::restore(String::from("None"), Vec::new(), twice_id, Vec::new()).is_none());
}

#[test]
fn restore_rejects_out_of_range_ids() {
    let bad_device = vec![device(0, "a", "t")];
    assert!(Database::restore(String::from("None"), Vec::new(), bad_device, Vec::new()).is_none());
    let bad_annonce = vec![Annonce { id: -3, message: String::from("x"), active: true }];
    assert!(Database::restore(String::from("None"), Vec::new(), Vec::new(), bad_annonce).is_none());
}

#[test]
fn restore_rejects_duplicate_annonce_ids() {
    let twice = vec![
        Annonce { id: 2, message: String::from("x"), active: true },
        Annonce { id: 2, message: String::from("y"), active: false },
    ];
    assert!(Database::restore(String::from("None"), Vec::new(), Vec::new(), twice).is_none());
}

#[test]
fn restore_accepts_gapped_roster_ids() {
    // Deletion leaves holes in the id sequence; the next id clears the top.
    let devices = vec![device(3, "a", "t1"), device(7, "b", "t2")];
    let db = Database::restore(String::from("None"), Vec::new(), devices, Vec::new()).unwrap();
    assert_eq!(db.next_device_id, 8);
}
