//! The connectivity orchestrator against the deterministic radio:
//! retry exhaustion, mixed-mode preservation, reconnection and mode
//! switches.

use esp32_laser_sms::credentials::WifiState;
use esp32_laser_sms::errors::{DriverError, ValidationError, WifiError};
use esp32_laser_sms::manager::PersistentStateManager;
use esp32_laser_sms::credentials::Credential;
use esp32_laser_sms::radio::{AuthMethod, RadioConfig, RadioDriver, ScanResult, SimRadio};
use esp32_laser_sms::storage::{BinaryStorage, RamMedia};
use esp32_laser_sms::wifi::{match_saved, should_reconnect_after_forget, sort_by_signal, Wifi};

type TestWifi = Wifi<SimRadio, BinaryStorage<WifiState, RamMedia>, ()>;

fn fresh_wifi(sim: SimRadio) -> TestWifi {
    let storage = BinaryStorage::new(RamMedia::new());
    let manager = PersistentStateManager::new_loaded_or_default(storage).unwrap();
    Wifi::new(sim, manager)
}

fn ap(ssid: &str, bssid: [u8; 6], strength: i8) -> ScanResult {
    ScanResult { ssid: ssid.to_string(), bssid, signal_strength: strength, channel: 6 }
}

const X: [u8; 6] = [1, 1, 1, 1, 1, 1];
const Y: [u8; 6] = [2, 2, 2, 2, 2, 2];

#[test]
fn connect_retry_exhaustion_makes_exactly_three_attempts() {
    let mut sim = SimRadio::new();
    sim.script_associations(vec![], false);
    let mut wifi = fresh_wifi(sim);
    let outcome = wifi.connect("net", "secret", None, None, 2);
    assert_eq!(outcome, Err(WifiError::Driver(DriverError::AssociationFailed)));
    // One initial attempt plus two retries ...
    assert_eq!(wifi.wifi().association_attempts(), 3);
    // ... with the fixed 1000 ms pause between consecutive attempts.
    assert_eq!(*wifi.wifi().sleeps_taken(), vec![1000, 1000]);
}

#[test]
fn connect_stops_retrying_on_success() {
    let mut sim = SimRadio::new();
    sim.script_associations(vec![false, true], false);
    let mut wifi = fresh_wifi(sim);
    wifi.connect("net", "secret", None, None, 5).unwrap();
    assert_eq!(wifi.wifi().association_attempts(), 2);
    assert_eq!(*wifi.wifi().sleeps_taken(), vec![1000]);
    assert!(wifi.is_connected().unwrap());
}

#[test]
fn connect_derives_auth_from_secret() {
    let mut wifi = fresh_wifi(SimRadio::new());
    wifi.connect("open-net", "", None, None, 0).unwrap();
    match wifi.wifi().get_configuration().unwrap() {
        RadioConfig::Client(c) => {
            assert_eq!(c.auth, AuthMethod::Open);
            assert_eq!(c.ssid, "open-net");
        }
        other => panic!("not a client configuration: {:?}", config_name(&other)),
    }
}

#[test]
fn connect_rejects_oversize_credentials_before_touching_the_radio() {
    let mut wifi = fresh_wifi(SimRadio::new());
    let long_ssid = "s".repeat(33);
    assert_eq!(
        wifi.connect(&long_ssid, "p", None, None, 0),
        Err(WifiError::Validation(ValidationError::SsidTooLong))
    );
    let long_psk = "p".repeat(65);
    assert_eq!(
        wifi.connect("net", &long_psk, None, None, 0),
        Err(WifiError::Validation(ValidationError::PskTooLong))
    );
    assert_eq!(wifi.wifi().association_attempts(), 0);
    // Boundary lengths pass validation.
    let edge_ssid = "s".repeat(32);
    let edge_psk = "p".repeat(64);
    wifi.connect(&edge_ssid, &edge_psk, None, None, 0).unwrap();
}

#[test]
fn mixed_mode_preserves_the_untouched_side() {
    let mut wifi = fresh_wifi(SimRadio::new());
    // Client C1 plus an announced access point.
    wifi.connect("c1", "pw1", None, None, 0).unwrap();
    wifi.start_ap("ap1", "appw").unwrap();
    match wifi.wifi().get_configuration().unwrap() {
        RadioConfig::Mixed(c, a) => {
            assert_eq!(c.ssid, "c1");
            assert_eq!(a.ssid, "ap1");
        }
        other => panic!("not mixed: {:?}", config_name(&other)),
    }
    // Setting the client side to C2 leaves the access point alone.
    wifi.connect("c2", "pw2", None, None, 0).unwrap();
    match wifi.wifi().get_configuration().unwrap() {
        RadioConfig::Mixed(c, a) => {
            assert_eq!(c.ssid, "c2");
            assert_eq!(a.ssid, "ap1");
            assert_eq!(a.psk, "appw");
        }
        other => panic!("not mixed: {:?}", config_name(&other)),
    }
}

#[test]
fn start_ap_defaults_announce_the_provisioning_network() {
    let mut wifi = fresh_wifi(SimRadio::new());
    wifi.start_ap_default().unwrap();
    match wifi.wifi().get_configuration().unwrap() {
        RadioConfig::AccessPoint(a) => {
            assert_eq!(a.ssid, "Laser Security");
            assert_eq!(a.psk, "");
            assert_eq!(a.auth, AuthMethod::Open);
            assert_eq!(a.channel, 6);
            assert_eq!(a.secondary_channel, Some(11));
            assert_eq!(a.max_connections, 1);
        }
        other => panic!("not an access point: {:?}", config_name(&other)),
    }
    assert!(wifi.is_started().unwrap());
}

#[test]
fn reconnect_without_match_attempts_nothing() {
    let mut sim = SimRadio::new();
    sim.set_scan_report(vec![ap("B", Y, -40)]);
    let mut wifi = fresh_wifi(sim);
    wifi.save_ap_credential("A", "pw", X).unwrap();
    let outcome = wifi.reconnect(5).unwrap();
    assert!(!outcome);
    assert_eq!(wifi.wifi().association_attempts(), 0);
}

#[test]
fn reconnect_without_match_keeps_the_configuration() {
    let mut sim = SimRadio::new();
    sim.set_scan_report(vec![ap("B", Y, -40)]);
    let mut wifi = fresh_wifi(sim);
    wifi.save_ap_credential("A", "pw", X).unwrap();
    wifi.connect("other", "pw2", None, None, 0).unwrap();
    let attempts_before = wifi.wifi().association_attempts();
    assert!(!wifi.reconnect(5).unwrap());
    assert_eq!(wifi.wifi().association_attempts(), attempts_before);
    match wifi.wifi().get_configuration().unwrap() {
        RadioConfig::Client(c) => assert_eq!(c.ssid, "other"),
        other => panic!("configuration changed: {:?}", config_name(&other)),
    }
}

#[test]
fn reconnect_needs_matching_name_and_address() {
    let mut sim = SimRadio::new();
    // The right name on the wrong access point is no match.
    sim.set_scan_report(vec![ap("A", Y, -40)]);
    let mut wifi = fresh_wifi(sim);
    wifi.save_ap_credential("A", "pw", X).unwrap();
    assert!(!wifi.reconnect(5).unwrap());
    assert_eq!(wifi.wifi().association_attempts(), 0);
}

#[test]
fn reconnect_joins_a_saved_network() {
    let mut sim = SimRadio::new();
    sim.set_scan_report(vec![ap("A", X, -40), ap("B", Y, -30)]);
    let mut wifi = fresh_wifi(sim);
    wifi.save_ap_credential("A", "pw", X).unwrap();
    assert!(wifi.reconnect(1).unwrap());
    assert!(wifi.is_connected().unwrap());
    match wifi.wifi().get_configuration().unwrap() {
        RadioConfig::Client(c) => assert_eq!(c.ssid, "A"),
        other => panic!("not a client configuration: {:?}", config_name(&other)),
    }
}

#[test]
fn reconnect_attempts_every_match_and_reports_the_last() {
    let mut sim = SimRadio::new();
    // Ascending signal strength orders the attempts: first B, then A.
    sim.set_scan_report(vec![ap("A", X, -30), ap("C", [3; 6], -80), ap("B", Y, -50)]);
    // The first attempted credential succeeds, the second fails: the
    // reported outcome is the last attempt's, even though an earlier
    // one had already succeeded.
    sim.script_associations(vec![true, false], true);
    let mut wifi = fresh_wifi(sim);
    wifi.save_ap_credential("A", "pwa", X).unwrap();
    wifi.save_ap_credential("B", "pwb", Y).unwrap();
    let outcome = wifi.reconnect(0).unwrap();
    assert!(!outcome);
    assert_eq!(wifi.wifi().association_attempts(), 2);
}

#[test]
fn reconnect_from_mixed_mode_ends_client_only() {
    let mut sim = SimRadio::new();
    sim.set_scan_report(vec![ap("A", X, -40)]);
    let mut wifi = fresh_wifi(sim);
    wifi.save_ap_credential("A", "pw", X).unwrap();
    wifi.start_ap_default().unwrap();
    assert!(wifi.reconnect(0).unwrap());
    match wifi.wifi().get_configuration().unwrap() {
        RadioConfig::Client(c) => assert_eq!(c.ssid, "A"),
        other => panic!("still announcing: {:?}", config_name(&other)),
    }
}

#[test]
fn switch_to_sta_only_drops_the_access_point_side() {
    let mut wifi = fresh_wifi(SimRadio::new());
    wifi.connect("c1", "pw", None, None, 0).unwrap();
    wifi.start_ap("ap1", "appw").unwrap();
    assert!(wifi.switch_to_sta_only().unwrap());
    match wifi.wifi().get_configuration().unwrap() {
        RadioConfig::Client(c) => assert_eq!(c.ssid, "c1"),
        other => panic!("not client-only: {:?}", config_name(&other)),
    }
}

#[test]
fn switch_to_sta_only_is_a_no_op_when_already_client() {
    let mut wifi = fresh_wifi(SimRadio::new());
    wifi.connect("c1", "pw", None, None, 0).unwrap();
    let before = wifi.wifi().association_attempts();
    assert!(wifi.switch_to_sta_only().unwrap());
    assert_eq!(wifi.wifi().association_attempts(), before);
}

#[test]
fn switch_to_sta_only_without_client_side_reports_false() {
    let mut wifi = fresh_wifi(SimRadio::new());
    wifi.start_ap_default().unwrap();
    assert!(!wifi.switch_to_sta_only().unwrap());
}

#[test]
fn switch_to_ap_only_drops_the_client_side() {
    let mut wifi = fresh_wifi(SimRadio::new());
    wifi.connect("c1", "pw", None, None, 0).unwrap();
    wifi.start_ap("ap1", "appw").unwrap();
    assert!(wifi.switch_to_ap_only().unwrap());
    match wifi.wifi().get_configuration().unwrap() {
        RadioConfig::AccessPoint(a) => assert_eq!(a.ssid, "ap1"),
        other => panic!("not access-point-only: {:?}", config_name(&other)),
    }
}

#[test]
fn scan_keeps_existing_client_credentials() {
    let mut sim = SimRadio::new();
    sim.set_scan_report(vec![ap("B", Y, -40)]);
    let mut wifi = fresh_wifi(sim);
    wifi.connect("c1", "pw", None, None, 0).unwrap();
    let report = wifi.scan_aps().unwrap();
    assert_eq!(report.len(), 1);
    assert_eq!(report[0].ssid, "B");
    match wifi.wifi().get_configuration().unwrap() {
        RadioConfig::Client(c) => {
            assert_eq!(c.ssid, "c1");
            assert_eq!(c.psk, "pw");
        }
        other => panic!("client credentials were altered: {:?}", config_name(&other)),
    }
}

#[test]
fn start_and_stop_are_idempotent() {
    let mut wifi = fresh_wifi(SimRadio::new());
    assert!(!wifi.is_started().unwrap());
    wifi.start().unwrap();
    wifi.start().unwrap();
    assert!(wifi.is_started().unwrap());
    wifi.stop().unwrap();
    wifi.stop().unwrap();
    assert!(!wifi.is_started().unwrap());
}

#[test]
fn credential_bookkeeping_flows_through_the_orchestrator() {
    let mut wifi = fresh_wifi(SimRadio::new());
    assert!(!wifi.has_saved_credentials());
    wifi.save_ap_credential("A", "p1", X).unwrap();
    wifi.save_ap_credential("A", "p2", X).unwrap();
    wifi.save_ap_credential("B", "q", Y).unwrap();
    assert!(wifi.has_saved_credentials());
    let saved = wifi.saved_credentials().unwrap();
    assert_eq!(saved.len(), 2);
    assert_eq!(saved[0].psk, "p2");
    wifi.forget_ap("A", Some(Y)).unwrap();
    // Broad rule: name "A" or address Y: both entries go.
    assert!(!wifi.has_saved_credentials());
}

#[test]
fn sorting_and_matching_order_the_attempts() {
    let report = vec![ap("A", X, -30), ap("C", [3; 6], -80), ap("B", Y, -50)];
    let sorted = sort_by_signal(report);
    assert_eq!(sorted[0].ssid, "C");
    assert_eq!(sorted[1].ssid, "B");
    assert_eq!(sorted[2].ssid, "A");
    let saved = vec![Credential::new("A", "pwa", X), Credential::new("B", "pwb", Y)];
    let matched = match_saved(&sorted, &saved);
    assert_eq!(matched.len(), 2);
    assert_eq!(matched[0].ssid, "B");
    assert_eq!(matched[1].ssid, "A");
}

#[test]
fn connect_pins_address_and_channel_when_given() {
    let mut wifi = fresh_wifi(SimRadio::new());
    wifi.connect("net", "pw", Some(X), Some(11), 0).unwrap();
    match wifi.wifi().get_configuration().unwrap() {
        RadioConfig::Client(c) => {
            assert_eq!(c.bssid, Some(X));
            assert_eq!(c.channel, Some(11));
        }
        other => panic!("not a client configuration: {:?}", config_name(&other)),
    }
}

#[test]
fn forget_triggers_reconnect_only_for_the_current_network() {
    assert!(should_reconnect_after_forget("A", Some(X), "A", X));
    assert!(!should_reconnect_after_forget("A", Some(Y), "A", X));
    assert!(!should_reconnect_after_forget("B", Some(X), "A", X));
    assert!(should_reconnect_after_forget("A", None, "A", X));
    assert!(!should_reconnect_after_forget("B", None, "A", X));
}

fn config_name(c: &RadioConfig) -> &'static str {
    match c {
        RadioConfig::Inactive => "inactive",
        RadioConfig::Client(_) => "client",
        RadioConfig::AccessPoint(_) => "access point",
        RadioConfig::Mixed(_, _) => "mixed",
    }
}
