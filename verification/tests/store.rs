//! The durable store: round trips, corruption tolerance, and
//! starting from an absent record.

use std::cell::RefCell;
use std::rc::Rc;

use esp32_laser_sms::credentials::{Credential, WifiState};
use esp32_laser_sms::device_state::{DeviceState, TimeOfDay};
use esp32_laser_sms::errors::StorageError;
use esp32_laser_sms::manager::PersistentStateManager;
use esp32_laser_sms::storage::{BinaryStorage, ConfigValue, Media, RamMedia, Storage};

/// A record location shared with the test, so the test can corrupt
/// it or inspect it while a store owns it.
#[derive(Clone)]
struct SharedMedia {
    record: Rc<RefCell<Option<Vec<u8>>>>,
}

impl SharedMedia {
    fn new() -> SharedMedia {
        SharedMedia { record: Rc::new(RefCell::new(None)) }
    }

    fn place(&self, bytes: Vec<u8>) {
        *self.record.borrow_mut() = Some(bytes);
    }

    fn peek(&self) -> Option<Vec<u8>> {
        self.record.borrow().clone()
    }
}

impl Media for SharedMedia {
    fn stored(&self) -> Option<vstd::seq::Seq<u8>> {
        None
    }

    fn write(&mut self, bytes: &[u8]) -> Result<(), StorageError> {
        *self.record.borrow_mut() = Some(bytes.to_vec());
        Ok(())
    }

    fn read(&self) -> Result<Option<Vec<u8>>, StorageError> {
        Ok(self.record.borrow().clone())
    }
}

fn wifi_value() -> WifiState {
    WifiState {
        credentials: vec![
            Credential::new("home", "hunter2", [1, 2, 3, 4, 5, 6]),
            Credential::new("office", "", [9, 9, 9, 9, 9, 9]),
        ],
    }
}

#[test]
fn wifi_state_round_trip() {
    let mut store: BinaryStorage<WifiState, RamMedia> = BinaryStorage::new(RamMedia::new());
    store.save(&wifi_value()).unwrap();
    let loaded = store.load().unwrap().expect("a saved value");
    assert_eq!(loaded.credentials.len(), 2);
    assert_eq!(loaded.credentials[0].ssid, "home");
    assert_eq!(loaded.credentials[0].psk, "hunter2");
    assert_eq!(loaded.credentials[0].bssid, [1, 2, 3, 4, 5, 6]);
    assert_eq!(loaded.credentials[1].ssid, "office");
    assert_eq!(loaded.credentials[1].psk, "");
    assert_eq!(loaded.credentials[1].bssid, [9, 9, 9, 9, 9, 9]);
}

#[test]
fn wifi_state_round_trip_wide_text() {
    let mut store: BinaryStorage<WifiState, RamMedia> = BinaryStorage::new(RamMedia::new());
    let value = WifiState {
        credentials: vec![Credential::new("réseau maison", "clé…é", [0, 0, 0, 0, 0, 1])],
    };
    store.save(&value).unwrap();
    let loaded = store.load().unwrap().expect("a saved value");
    assert_eq!(loaded.credentials[0].ssid, "réseau maison");
    assert_eq!(loaded.credentials[0].psk, "clé…é");
}

#[test]
fn device_state_round_trip() {
    let mut store: BinaryStorage<DeviceState, RamMedia> = BinaryStorage::new(RamMedia::new());
    let value = DeviceState {
        sms_send_phone_number: Some("+15550001111".to_string()),
        sms_send_throttle: 120_000,
        sms_send_twilio_phone_number: None,
        sms_send_twilio_account_sid: Some("AC123".to_string()),
        sms_send_twilio_auth_token: Some("tok".to_string()),
        activation_time_start: TimeOfDay { hour: 7, minute: 30, second: 0 },
        activation_time_end: None,
    };
    store.save(&value).unwrap();
    let loaded = store.load().unwrap().expect("a saved value");
    assert_eq!(loaded.sms_send_phone_number.as_deref(), Some("+15550001111"));
    assert_eq!(loaded.sms_send_throttle, 120_000);
    assert_eq!(loaded.sms_send_twilio_phone_number, None);
    assert_eq!(loaded.sms_send_twilio_account_sid.as_deref(), Some("AC123"));
    assert_eq!(loaded.sms_send_twilio_auth_token.as_deref(), Some("tok"));
    assert_eq!(loaded.activation_time_start, TimeOfDay { hour: 7, minute: 30, second: 0 });
    assert_eq!(loaded.activation_time_end, None);
}

#[test]
fn corrupt_record_reads_as_absent() {
    let media = SharedMedia::new();
    media.place(vec![0xde, 0xad, 0xbe, 0xef, 0x00, 0x11, 0x22]);
    let store: BinaryStorage<WifiState, SharedMedia> = BinaryStorage::new(media);
    let loaded = store.load().expect("corruption is no error");
    assert!(loaded.is_none());
}

#[test]
fn truncated_record_reads_as_absent() {
    let media = SharedMedia::new();
    let mut store: BinaryStorage<WifiState, SharedMedia> = BinaryStorage::new(media.clone());
    store.save(&wifi_value()).unwrap();
    let mut bytes = media.peek().expect("a record was written");
    bytes.truncate(bytes.len() - 3);
    media.place(bytes);
    assert!(store.load().expect("corruption is no error").is_none());
}

#[test]
fn trailing_junk_reads_as_absent() {
    let media = SharedMedia::new();
    let mut store: BinaryStorage<WifiState, SharedMedia> = BinaryStorage::new(media.clone());
    store.save(&wifi_value()).unwrap();
    let mut bytes = media.peek().expect("a record was written");
    bytes.push(0);
    media.place(bytes);
    assert!(store.load().expect("corruption is no error").is_none());
}

#[test]
fn duplicate_identities_read_as_absent() {
    // A forged record with two entries for the same network must not
    // decode into an invalid set.
    let media = SharedMedia::new();
    let mut store: BinaryStorage<WifiState, SharedMedia> = BinaryStorage::new(media.clone());
    let forged = WifiState {
        credentials: vec![
            Credential::new("home", "p1", [1, 2, 3, 4, 5, 6]),
            Credential::new("home", "p2", [1, 2, 3, 4, 5, 6]),
        ],
    };
    let bytes = forged.encode();
    media.place(bytes);
    assert!(store.load().expect("corruption is no error").is_none());
}

#[test]
fn empty_store_loads_none() {
    let store: BinaryStorage<DeviceState, RamMedia> = BinaryStorage::new(RamMedia::new());
    assert!(store.load().unwrap().is_none());
}

#[test]
fn save_overwrites_wholesale() {
    let mut store: BinaryStorage<WifiState, RamMedia> = BinaryStorage::new(RamMedia::new());
    store.save(&wifi_value()).unwrap();
    let smaller = WifiState { credentials: vec![Credential::new("only", "x", [0; 6])] };
    store.save(&smaller).unwrap();
    let loaded = store.load().unwrap().expect("a saved value");
    assert_eq!(loaded.credentials.len(), 1);
    assert_eq!(loaded.credentials[0].ssid, "only");
}

#[test]
fn new_loaded_or_default_on_empty_store_yields_default() {
    let media = SharedMedia::new();
    let storage: BinaryStorage<DeviceState, SharedMedia> = BinaryStorage::new(media.clone());
    let manager: PersistentStateManager<DeviceState, _, ()> =
        PersistentStateManager::new_loaded_or_default(storage).unwrap();
    let expected = DeviceState::default();
    assert_eq!(manager.state().sms_send_phone_number, expected.sms_send_phone_number);
    assert_eq!(manager.state().sms_send_throttle, 60_000);
    assert_eq!(
        manager.state().activation_time_start,
        TimeOfDay { hour: 20, minute: 0, second: 0 }
    );
    assert_eq!(
        manager.state().activation_time_end,
        Some(TimeOfDay { hour: 0, minute: 0, second: 0 })
    );
    // The store now holds that default.
    let reread: BinaryStorage<DeviceState, SharedMedia> = BinaryStorage::new(media);
    let on_disk = reread.load().unwrap().expect("the default was saved");
    assert_eq!(on_disk.sms_send_throttle, 60_000);
    assert_eq!(on_disk.sms_send_phone_number, None);
}

#[test]
fn new_loaded_or_default_prefers_saved_value() {
    let media = SharedMedia::new();
    let mut seed: BinaryStorage<DeviceState, SharedMedia> = BinaryStorage::new(media.clone());
    let mut value = DeviceState::default();
    value.sms_send_throttle = 5;
    seed.save(&value).unwrap();
    let storage: BinaryStorage<DeviceState, SharedMedia> = BinaryStorage::new(media);
    let manager: PersistentStateManager<DeviceState, _, ()> =
        PersistentStateManager::new_loaded_or_default(storage).unwrap();
    assert_eq!(manager.state().sms_send_throttle, 5);
}

#[test]
fn new_loaded_or_default_recovers_from_corruption() {
    let media = SharedMedia::new();
    media.place(vec![1, 2, 3]);
    let storage: BinaryStorage<WifiState, SharedMedia> = BinaryStorage::new(media.clone());
    let manager: PersistentStateManager<WifiState, _, ()> =
        PersistentStateManager::new_loaded_or_default(storage).unwrap();
    assert!(manager.state().credentials.is_empty());
    // The corrupt record was replaced by the default.
    let reread: BinaryStorage<WifiState, SharedMedia> = BinaryStorage::new(media);
    let on_disk = reread.load().unwrap().expect("the default was saved");
    assert!(on_disk.credentials.is_empty());
}
