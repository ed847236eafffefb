//! Device settings: the activation window, the settings service and
//! its typed mutators.

use esp32_laser_sms::device_state::{
    is_active, DeviceState, DeviceStateService, Mode, TimeOfDay,
};
use esp32_laser_sms::manager::PersistentStateManager;
use esp32_laser_sms::storage::{BinaryStorage, RamMedia};

fn at(h: u8, m: u8, s: u8) -> TimeOfDay {
    TimeOfDay { hour: h, minute: m, second: s }
}

type Service = DeviceStateService<BinaryStorage<DeviceState, RamMedia>, ()>;

fn fresh_service() -> Service {
    let storage = BinaryStorage::new(RamMedia::new());
    let manager = PersistentStateManager::new_loaded_or_default(storage).unwrap();
    DeviceStateService::new(manager).unwrap()
}

#[test]
fn time_of_day_rejects_out_of_range_parts() {
    assert_eq!(TimeOfDay::new(23, 59, 59), Some(at(23, 59, 59)));
    assert_eq!(TimeOfDay::new(24, 0, 0), None);
    assert_eq!(TimeOfDay::new(0, 60, 0), None);
    assert_eq!(TimeOfDay::new(0, 0, 60), None);
    assert_eq!(TimeOfDay::midnight(), at(0, 0, 0));
}

#[test]
fn plain_window_covers_the_hours_between() {
    let start = at(8, 0, 0);
    let end = at(17, 0, 0);
    assert!(is_active(&start, Some(&end), &at(8, 0, 0)));
    assert!(is_active(&start, Some(&end), &at(12, 30, 0)));
    assert!(is_active(&start, Some(&end), &at(17, 0, 0)));
    assert!(!is_active(&start, Some(&end), &at(7, 59, 59)));
    assert!(!is_active(&start, Some(&end), &at(17, 0, 1)));
}

#[test]
fn wrapping_window_covers_the_night() {
    let start = at(20, 0, 0);
    let end = at(6, 0, 0);
    assert!(is_active(&start, Some(&end), &at(23, 0, 0)));
    assert!(is_active(&start, Some(&end), &at(2, 0, 0)));
    assert!(!is_active(&start, Some(&end), &at(12, 0, 0)));
}

#[test]
fn missing_end_means_midnight() {
    let start = at(20, 0, 0);
    // Start at or after the (midnight) end wraps: active from the
    // evening up to and including midnight itself.
    assert!(is_active(&start, None, &at(21, 0, 0)));
    assert!(is_active(&start, None, &at(0, 0, 0)));
    assert!(!is_active(&start, None, &at(0, 0, 1)));
    assert!(!is_active(&start, None, &at(10, 0, 0)));
}

#[test]
fn service_setters_commit_and_getters_read() {
    let mut svc = fresh_service();
    assert_eq!(svc.sms_send_phone_number(), None);
    svc.set_sms_send_phone_number("+15550001111").unwrap();
    assert_eq!(svc.sms_send_phone_number(), Some("+15550001111"));

    assert_eq!(svc.sms_send_throttle(), 60_000);
    svc.set_sms_send_throttle(5_000).unwrap();
    assert_eq!(svc.sms_send_throttle(), 5_000);

    svc.set_sms_send_twilio_phone_number("+15559990000").unwrap();
    assert_eq!(svc.sms_send_twilio_phone_number(), Some("+15559990000"));
    svc.set_sms_send_twilio_account_sid("AC42").unwrap();
    assert_eq!(svc.sms_send_twilio_account_sid(), Some("AC42"));
    svc.set_sms_send_twilio_auth_token("tok").unwrap();
    assert_eq!(svc.sms_send_twilio_auth_token(), Some("tok"));
}

#[test]
fn set_sms_replaces_all_messaging_settings_at_once() {
    let mut svc = fresh_service();
    svc.set_sms_send_phone_number("+1").unwrap();
    svc.set_sms(None, 9_000, Some("+2"), Some("AC"), None).unwrap();
    assert_eq!(svc.sms_send_phone_number(), None);
    assert_eq!(svc.sms_send_throttle(), 9_000);
    assert_eq!(svc.sms_send_twilio_phone_number(), Some("+2"));
    assert_eq!(svc.sms_send_twilio_account_sid(), Some("AC"));
    assert_eq!(svc.sms_send_twilio_auth_token(), None);
}

#[test]
fn activation_window_setters_commit() {
    let mut svc = fresh_service();
    assert_eq!(*svc.activation_time_start(), at(20, 0, 0));
    assert_eq!(svc.activation_time_end(), Some(&at(0, 0, 0)));
    svc.set_activation(&at(9, 15, 0), &at(18, 45, 30)).unwrap();
    assert_eq!(*svc.activation_time_start(), at(9, 15, 0));
    assert_eq!(svc.activation_time_end(), Some(&at(18, 45, 30)));
    svc.set_activation_time_start(at(10, 0, 0)).unwrap();
    assert_eq!(*svc.activation_time_start(), at(10, 0, 0));
    svc.set_activation_time_end(at(22, 0, 0)).unwrap();
    assert_eq!(svc.activation_time_end(), Some(&at(22, 0, 0)));
}

#[test]
fn fresh_device_waits_to_pair() {
    assert_eq!(Mode::default(), Mode::Pair);
    assert_ne!(Mode::Pair, Mode::Connected);
}
