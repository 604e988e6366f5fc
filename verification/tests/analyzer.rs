//! The recent-history window and the per-desk duration statistics.

use guichet::database::Database;

#[test]
fn recent_history_skips_current_and_takes_five() {
    let mut db = Database::init();
    for t in 0..8u64 {
        db.call_next(String::from("A"), 100 + t);
    }
    let items = db.get_history();
    // Ticket 8 is on display; the window shows 7, 6, 5, 4, 3.
    assert_eq!(items.len(), 5);
    let numbers: Vec<i32> = items.iter().map(|e| e.ticket_number).collect();
    assert_eq!(numbers, vec![7, 6, 5, 4, 3]);
}

#[test]
fn recent_history_with_fewer_tickets() {
    let mut db = Database::init();
    assert!(db.get_history().is_empty());
    db.call_next(String::from("A"), 1);
    // The single ticket is the one on display: nothing to list.
    assert!(db.get_history().is_empty());
    db.call_next(String::from("B"), 2);
    let items = db.get_history();
    assert_eq!(items.len(), 1);
    assert_eq!(items[0].ticket_number, 1);
    assert_eq!(items[0].desk_name, "A");
}

#[test]
fn recent_history_ignores_markers_and_respects_reset() {
    let mut db = Database::init();
    db.call_next(String::from("A"), 1);
    db.call_next(String::from("A"), 2);
    db.reset_all(3);
    db.call_next(String::from("B"), 4);
    db.call_next(String::from("B"), 5);
    db.close_desk("B", 6);
    db.call_next(String::from("C"), 7);
    let items = db.get_history();
    // Session tickets are 1 ("B"), 2 ("B"), 3 ("C"); 3 is on display.
    assert_eq!(items.len(), 2);
    assert_eq!(items[0].ticket_number, 2);
    assert_eq!(items[0].desk_name, "B");
    assert_eq!(items[1].ticket_number, 1);
    assert!(items.iter().all(|e| e.ticket_number >= 0));
}

#[test]
fn desk_statistics_pairs_each_ticket_with_its_successor() {
    let mut db = Database::init();
    db.reset_all(100);
    for t in 1..=5u64 {
        db.call_next(String::from("A"), 100 + t);
    }
    db.close_desk("A", 106);
    let stats = db.get_desk_statistics("A");
    // Five rows, newest first, and no close-marker row among them.
    assert_eq!(stats.len(), 5);
    assert!(stats.iter().all(|s| s.ticket_number >= 0));
    let numbers: Vec<i32> = stats.iter().map(|s| s.ticket_number).collect();
    assert_eq!(numbers, vec![5, 4, 3, 2, 1]);
    // The newest ticket was ended by the close marker.
    assert_eq!(stats[0].start_time, 105);
    assert_eq!(stats[0].end_time, Some(106));
    assert_eq!(stats[0].duration_seconds, Some(1));
    // Every other ticket was ended by the next ticket.
    for k in 1..5 {
        let row = &stats[k];
        assert_eq!(row.end_time, Some(row.start_time + 1));
        assert_eq!(row.duration_seconds, Some(1));
    }
}

#[test]
fn desk_statistics_last_event_stays_open() {
    let mut db = Database::init();
    db.call_next(String::from("A"), 10);
    db.call_next(String::from("A"), 25);
    let stats = db.get_desk_statistics("A");
    assert_eq!(stats.len(), 2);
    // Newest first; the most recent ticket has no successor.
    assert_eq!(stats[0].start_time, 25);
    assert_eq!(stats[0].end_time, None);
    assert_eq!(stats[0].duration_seconds, None);
    assert_eq!(stats[1].start_time, 10);
    assert_eq!(stats[1].end_time, Some(25));
    assert_eq!(stats[1].duration_seconds, Some(15));
}

#[test]
fn desk_statistics_sees_only_this_desk_and_this_session() {
    let mut db = Database::init();
    db.call_next(String::from("A"), 10);
    db.reset_all(20);
    db.call_next(String::from("A"), 30);
    db.call_next(String::from("B"), 40);
    db.call_next(String::from("A"), 50);
    let stats = db.get_desk_statistics("A");
    assert_eq!(stats.len(), 2);
    // The ticket at 10 lies before the reset; "B"'s ticket is not a
    // successor for "A"'s durations.
    assert_eq!(stats[0].start_time, 50);
    assert_eq!(stats[0].end_time, None);
    assert_eq!(stats[1].start_time, 30);
    assert_eq!(stats[1].end_time, Some(50));
    assert_eq!(stats[1].duration_seconds, Some(20));
}

#[test]
fn desk_statistics_empty_for_unknown_desk() {
    let mut db = Database::init();
    db.call_next(String::from("A"), 10);
    assert!(db.get_desk_statistics("Z").is_empty());
}

#[test]
fn desk_statistics_clock_regression_yields_zero() {
    let mut db = Database::init();
    db.call_next(String::from("A"), 50);
    db.call_next(String::from("A"), 40);
    let stats = db.get_desk_statistics("A");
    assert_eq!(stats.len(), 2);
    assert_eq!(stats[1].end_time, Some(40));
    assert_eq!(stats[1].duration_seconds, Some(0));
}
