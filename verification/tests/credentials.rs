//! The credential set: identity over (name, address), replacement,
//! and the deliberately broad forget rule.

use esp32_laser_sms::credentials::{Credential, WifiState};

const X: [u8; 6] = [1, 1, 1, 1, 1, 1];
const Y: [u8; 6] = [2, 2, 2, 2, 2, 2];

fn set_of(creds: Vec<Credential>) -> WifiState {
    WifiState { credentials: creds }
}

#[test]
fn replacing_a_known_network_updates_the_secret_only() {
    let empty = set_of(vec![]);
    let one = empty.with_credential(&Credential::new("A", "p1", X));
    assert_eq!(one.credentials.len(), 1);
    let two = one.with_credential(&Credential::new("A", "p2", X));
    assert_eq!(two.credentials.len(), 1);
    assert_eq!(two.credentials[0].ssid, "A");
    assert_eq!(two.credentials[0].psk, "p2");
    assert_eq!(two.credentials[0].bssid, X);
}

#[test]
fn same_name_different_address_is_a_new_entry() {
    let set = set_of(vec![])
        .with_credential(&Credential::new("A", "p1", X))
        .with_credential(&Credential::new("A", "p2", Y));
    assert_eq!(set.credentials.len(), 2);
}

#[test]
fn replacement_keeps_the_entry_position() {
    let set = set_of(vec![])
        .with_credential(&Credential::new("A", "p1", X))
        .with_credential(&Credential::new("B", "q", Y))
        .with_credential(&Credential::new("A", "p2", X));
    assert_eq!(set.credentials.len(), 2);
    assert_eq!(set.credentials[0].ssid, "A");
    assert_eq!(set.credentials[0].psk, "p2");
    assert_eq!(set.credentials[1].ssid, "B");
}

#[test]
fn forget_with_address_removes_name_or_address_matches() {
    // The broad rule: every entry sharing the name *or* the address
    // goes. Here that is all three.
    let set = set_of(vec![
        Credential::new("A", "1", X),
        Credential::new("A", "2", Y),
        Credential::new("B", "3", X),
    ]);
    let left = set.without("A", Some(X));
    assert_eq!(left.credentials.len(), 0);
}

#[test]
fn forget_with_address_keeps_unrelated_entries() {
    let set = set_of(vec![
        Credential::new("A", "1", X),
        Credential::new("B", "3", Y),
    ]);
    let left = set.without("A", Some(X));
    assert_eq!(left.credentials.len(), 1);
    assert_eq!(left.credentials[0].ssid, "B");
}

#[test]
fn forget_without_address_removes_by_name_only() {
    let set = set_of(vec![
        Credential::new("A", "1", X),
        Credential::new("A", "2", Y),
        Credential::new("B", "3", X),
    ]);
    let left = set.without("A", None);
    assert_eq!(left.credentials.len(), 1);
    assert_eq!(left.credentials[0].ssid, "B");
    assert_eq!(left.credentials[0].bssid, X);
}

#[test]
fn forget_of_unknown_name_changes_nothing() {
    let set = set_of(vec![Credential::new("A", "1", X)]);
    let left = set.without("Z", None);
    assert_eq!(left.credentials.len(), 1);
}

#[test]
fn all_is_a_snapshot_in_order() {
    let set = set_of(vec![
        Credential::new("A", "1", X),
        Credential::new("B", "2", Y),
    ]);
    let snapshot = set.all();
    assert_eq!(snapshot.len(), 2);
    assert_eq!(snapshot[0].ssid, "A");
    assert_eq!(snapshot[1].ssid, "B");
    // The snapshot is a copy: the set is intact afterwards.
    assert_eq!(set.credentials.len(), 2);
}

#[test]
fn identity_ignores_the_secret() {
    let a = Credential::new("A", "p1", X);
    let b = Credential::new("A", "p2", X);
    let c = Credential::new("A", "p1", Y);
    assert!(a.same_key(&b));
    assert!(!a.same_key(&c));
}

#[test]
fn is_empty_tracks_contents() {
    let empty = set_of(vec![]);
    assert!(empty.is_empty());
    let one = empty.with_credential(&Credential::new("A", "p", X));
    assert!(!one.is_empty());
}
