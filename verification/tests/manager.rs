//! The state manager: transactional commits and subscriber
//! notification order.

use std::cell::RefCell;
use std::rc::Rc;

use esp32_laser_sms::device_state::DeviceState;
use esp32_laser_sms::errors::StorageError;
use esp32_laser_sms::manager::{PersistentStateManager, Subscriber};
use esp32_laser_sms::storage::{BinaryStorage, Media, RamMedia};

/// A subscriber that appends (its tag, previous throttle, new
/// throttle) to a log shared among all subscribers, so the test can
/// see the order of invocations across subscribers.
struct Recorder {
    tag: u8,
    log: Rc<RefCell<Vec<(u8, u64, u64)>>>,
}

impl Subscriber<DeviceState> for Recorder {
    fn notify(&mut self, previous: &DeviceState, current: &DeviceState) {
        self.log.borrow_mut().push((
            self.tag,
            previous.sms_send_throttle,
            current.sms_send_throttle,
        ));
    }
}

/// A record location that refuses every write.
struct ReadOnlyMedia;

impl Media for ReadOnlyMedia {
    fn stored(&self) -> Option<vstd::seq::Seq<u8>> {
        None
    }

    fn write(&mut self, _bytes: &[u8]) -> Result<(), StorageError> {
        Err(StorageError::Io)
    }

    fn read(&self) -> Result<Option<Vec<u8>>, StorageError> {
        Ok(None)
    }
}

fn manager_with_log() -> (
    PersistentStateManager<DeviceState, BinaryStorage<DeviceState, RamMedia>, Recorder>,
    Rc<RefCell<Vec<(u8, u64, u64)>>>,
) {
    let storage = BinaryStorage::new(RamMedia::new());
    let mut manager = PersistentStateManager::new_loaded_or_default(storage).unwrap();
    let log = Rc::new(RefCell::new(Vec::new()));
    manager.subscribe(Recorder { tag: 1, log: log.clone() });
    manager.subscribe(Recorder { tag: 2, log: log.clone() });
    (manager, log)
}

#[test]
fn subscribers_run_in_registration_order_with_same_pair() {
    let (mut manager, log) = manager_with_log();
    let mut next = DeviceState::default();
    next.sms_send_throttle = 777;
    manager.set_state(next).unwrap();
    // First the earlier registration, then the later one, each
    // exactly once, each with the same (previous, new) pair.
    assert_eq!(*log.borrow(), vec![(1, 60_000, 777), (2, 60_000, 777)]);
}

#[test]
fn each_mutation_notifies_once_per_subscriber() {
    let (mut manager, log) = manager_with_log();
    let mut a = DeviceState::default();
    a.sms_send_throttle = 10;
    manager.set_state(a).unwrap();
    let mut b = DeviceState::default();
    b.sms_send_throttle = 20;
    manager.set_state(b).unwrap();
    assert_eq!(
        *log.borrow(),
        vec![(1, 60_000, 10), (2, 60_000, 10), (1, 10, 20), (2, 10, 20)]
    );
}

#[test]
fn update_state_computes_from_current() {
    let storage = BinaryStorage::new(RamMedia::new());
    let mut manager: PersistentStateManager<DeviceState, _, ()> =
        PersistentStateManager::new_loaded_or_default(storage).unwrap();
    manager
        .update_state(|current: &DeviceState| {
            let mut next = current.clone();
            next.sms_send_throttle = current.sms_send_throttle + 1;
            next
        })
        .unwrap();
    assert_eq!(manager.state().sms_send_throttle, 60_001);
}

#[test]
fn failed_persist_keeps_memory_skips_notification() {
    let storage: BinaryStorage<DeviceState, ReadOnlyMedia> = BinaryStorage::new(ReadOnlyMedia);
    let mut manager = PersistentStateManager::new(DeviceState::default(), storage);
    let log = Rc::new(RefCell::new(Vec::new()));
    manager.subscribe(Recorder { tag: 1, log: log.clone() });
    let mut next = DeviceState::default();
    next.sms_send_throttle = 5;
    let outcome = manager.set_state(next);
    assert_eq!(outcome, Err(StorageError::Io));
    // The swap is deliberately not rolled back in memory ...
    assert_eq!(manager.state().sms_send_throttle, 5);
    // ... and nobody is notified of the failed commit.
    assert!(log.borrow().is_empty());
}

#[test]
fn state_reads_without_side_effect() {
    let (manager, log) = manager_with_log();
    assert_eq!(manager.state().sms_send_throttle, 60_000);
    assert_eq!(manager.state().sms_send_throttle, 60_000);
    assert!(log.borrow().is_empty());
}
