//! Error taxonomy of the library.
//!
//! Storage failures and driver failures are separate kinds: a storage
//! failure aborts a configuration mutation, while a driver failure is
//! subject to the orchestrator's retry policy. Decode failures on load
//! are deliberately *not* errors: a corrupt record reads as absent.

use vstd::prelude::*;

verus! {

/// Failure of the durable store: an I/O fault, or a value that could
/// not be encoded. A record that fails to *decode* is not an error;
/// the store reports it as an absent value.
#[derive(Clone, Copy, PartialEq, Eq, Structural, Debug)]
pub enum StorageError {
    /// The backing medium could not be read or written.
    Io,
    /// The value could not be turned into a binary record.
    Encode,
}

impl StorageError {
    /// A human-readable description of the failure.
    pub fn message(&self) -> (r: &'static str)
        ensures
            *self is Io ==> r@ == "storage i/o failure"@,
            *self is Encode ==> r@ == "storage encode failure"@,
    {
        match self {
            StorageError::Io => "storage i/o failure",
            StorageError::Encode => "storage encode failure",
        }
    }
}

/// Failure reported by the radio driver capability: the hardware or
/// its API refused an operation (association failed, a configuration
/// was rejected, a query could not be served).
#[derive(Clone, Copy, PartialEq, Eq, Structural, Debug)]
pub enum DriverError {
    /// The driver rejected the requested configuration.
    ConfigRejected,
    /// An association attempt with the target network failed.
    AssociationFailed,
    /// The driver could not be started or stopped.
    RunStateFailed,
    /// The interface did not come up after association.
    InterfaceDown,
    /// A scan could not be carried out.
    ScanFailed,
    /// A run-state or configuration query failed.
    QueryFailed,
}

impl DriverError {
    /// A human-readable description of the failure.
    pub fn message(&self) -> (r: &'static str)
        ensures
            *self is AssociationFailed ==> r@ == "association failed"@,
    {
        match self {
            DriverError::ConfigRejected => "configuration rejected by driver",
            DriverError::AssociationFailed => "association failed",
            DriverError::RunStateFailed => "driver start/stop failed",
            DriverError::InterfaceDown => "interface did not come up",
            DriverError::ScanFailed => "scan failed",
            DriverError::QueryFailed => "driver query failed",
        }
    }
}

/// Credential text that exceeds the radio hardware's limits.
#[derive(Clone, Copy, PartialEq, Eq, Structural, Debug)]
pub enum ValidationError {
    /// The network name is longer than the hardware allows.
    SsidTooLong,
    /// The passphrase is longer than the hardware allows.
    PskTooLong,
}

impl ValidationError {
    /// A human-readable description of the failure.
    pub fn message(&self) -> (r: &'static str)
        ensures
            *self is SsidTooLong ==> r@ == "ssid too long"@,
            *self is PskTooLong ==> r@ == "psk too long"@,
    {
        match self {
            ValidationError::SsidTooLong => "ssid too long",
            ValidationError::PskTooLong => "psk too long",
        }
    }
}

/// Any failure a connectivity operation can surface: validation before
/// the driver is touched, the driver itself, or the credential store.
#[derive(Clone, Copy, PartialEq, Eq, Structural, Debug)]
pub enum WifiError {
    /// Credential text failed validation against hardware limits.
    Validation(ValidationError),
    /// The radio driver failed.
    Driver(DriverError),
    /// Persisting the credential set failed.
    Storage(StorageError),
}

impl WifiError {
    /// A human-readable description of the failure.
    pub fn message(&self) -> (r: &'static str)
        ensures
            *self == WifiError::Driver(DriverError::AssociationFailed) ==> r@
                == "association failed"@,
            *self == WifiError::Validation(ValidationError::SsidTooLong) ==> r@
                == "ssid too long"@,
            *self == WifiError::Validation(ValidationError::PskTooLong) ==> r@ == "psk too long"@,
            *self == WifiError::Storage(StorageError::Io) ==> r@ == "storage i/o failure"@,
    {
        match self {
            WifiError::Validation(v) => v.message(),
            WifiError::Driver(d) => d.message(),
            WifiError::Storage(s) => s.message(),
        }
    }
}

} // verus!
