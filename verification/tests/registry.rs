//! Device registration, authentication and the announcement roster.

use guichet::database::Database;

#[test]
fn register_issues_a_long_random_token() {
    let mut db = Database::init();
    // On an empty roster no token collision is possible: insertion is owed.
    assert!(db.register_device(String::from("button-1")));
    let devices = db.get_all_devices();
    assert_eq!(devices.len(), 1);
    assert_eq!(devices[0].name, "button-1");
    assert_eq!(devices[0].id, 1);
    assert_eq!(devices[0].token.len(), 36);
    assert_eq!(devices[0].status, None);
    assert_eq!(devices[0].ip_address, None);
}

#[test]
fn reregistration_keeps_the_first_token() {
    let mut db = Database::init();
    assert!(db.register_device(String::from("button-1")));
    let old_token = db.get_all_devices()[0].token.clone();
    // A taken name is never re-registered.
    assert!(!db.register_device(String::from("button-1")));
    // The roster is unchanged: same single device, same token.
    let devices = db.get_all_devices();
    assert_eq!(devices.len(), 1);
    assert_eq!(devices[0].token, old_token);
    // The old token still authenticates.
    let who = db.get_device_info(&old_token);
    assert_eq!(who, Some((1, String::from("button-1"))));
}

#[test]
fn tokens_differ_between_devices() {
    let mut db = Database::init();
    assert!(db.register_device(String::from("button-1")));
    assert!(db.register_device(String::from("screen-1")));
    let devices = db.get_all_devices();
    assert_eq!(devices.len(), 2);
    assert_ne!(devices[0].token, devices[1].token);
    assert_eq!(db.get_device_info(&devices[1].token), Some((2, String::from("screen-1"))));
}

#[test]
fn explicit_token_registration_is_idempotent() {
    let mut db = Database::init();
    assert!(db.register_device_with_token(String::from("b"), String::from("tok-b")));
    assert!(!db.register_device_with_token(String::from("b"), String::from("tok-other")));
    assert!(!db.register_device_with_token(String::from("c"), String::from("tok-b")));
    let devices = db.get_all_devices();
    assert_eq!(devices.len(), 1);
    assert_eq!(devices[0].token, "tok-b");
    // A rejected re-registration leaves the old token valid and the
    // offered one unknown.
    assert!(db.get_device_info("tok-b").is_some());
    assert!(db.get_device_info("tok-other").is_none());
}

#[test]
fn unknown_token_does_not_authenticate() {
    let mut db = Database::init();
    db.register_device(String::from("button-1"));
    assert_eq!(db.get_device_info("no-such-token"), None);
    assert!(db.has_device_name("button-1"));
    assert!(!db.has_device_name("button-2"));
}

#[test]
fn delete_device_removes_only_that_row() {
    let mut db = Database::init();
    db.register_device_with_token(String::from("a"), String::from("ta"));
    db.register_device_with_token(String::from("b"), String::from("tb"));
    db.delete_device(1);
    let devices = db.get_all_devices();
    assert_eq!(devices.len(), 1);
    assert_eq!(devices[0].name, "b");
    assert!(db.get_device_info("ta").is_none());
    assert!(db.get_device_info("tb").is_some());
    // Deleting an absent id is a no-op.
    db.delete_device(9);
    assert_eq!(db.get_all_devices().len(), 1);
}

#[test]
fn annonces_crud_round_trip() {
    let mut db = Database::init();
    db.add_annonce(String::from("hello"));
    db.add_annonce(String::from("world"));
    let list = db.get_annonces();
    assert_eq!(list.len(), 2);
    assert_eq!(list[0].id, 1);
    assert_eq!(list[0].message, "hello");
    assert!(list[0].active);
    assert_eq!(list[1].id, 2);

    db.update_annonce_message(2, String::from("monde"));
    db.set_annonce_active(1, false);
    let list = db.get_annonces();
    assert_eq!(list[1].message, "monde");
    assert!(!list[0].active);
    assert!(list[1].active);

    db.delete_annonce(1);
    let list = db.get_annonces();
    assert_eq!(list.len(), 1);
    assert_eq!(list[0].id, 2);

    // Updates on an absent id change nothing.
    db.update_annonce_message(9, String::from("x"));
    db.set_annonce_active(9, true);
    db.delete_annonce(9);
    assert_eq!(db.get_annonces(), list);
}
