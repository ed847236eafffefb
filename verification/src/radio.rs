//! The radio driver capability.
//!
//! The orchestrator never touches radio hardware; it drives this
//! capability, whose contract is a small state model — the installed
//! configuration, the run state, the link state — plus a ghost event
//! trace. Every effectful call appends one event, so a caller's
//! contract can say not only where the radio ended up but what was
//! done to it: how many association attempts, with what pauses
//! between them, and what a scan reported.
//!
//! [`SimRadio`] is the crate's own deterministic driver: scripted
//! association outcomes and scan reports, with executable counters
//! mirroring the ghost trace. It is both the reference implementation
//! of the contract and the test bench for the orchestrator's retry
//! and fallback policies.

use vstd::prelude::*;

use crate::errors::DriverError;

verus! {

/// How a network authenticates its clients.
#[derive(Clone, Copy, PartialEq, Eq, Structural, Debug)]
pub enum AuthMethod {
    /// An open network; no secret.
    Open,
    /// WPA/WPA2 personal with a pre-shared key.
    WpaWpa2Personal,
}

/// The authentication method derived from a secret: an empty secret
/// means an open network.
pub open spec fn spec_auth_method(psk: Seq<char>) -> AuthMethod {
    if psk.len() == 0 {
        AuthMethod::Open
    } else {
        AuthMethod::WpaWpa2Personal
    }
}

/// Derives the authentication method from the secret.
pub fn auth_method(psk: &str) -> (r: AuthMethod)
    ensures
        r == spec_auth_method(psk@),
{
    if psk.is_empty() {
        AuthMethod::Open
    } else {
        AuthMethod::WpaWpa2Personal
    }
}

/// The client (station) side of a radio configuration.
pub struct ClientParams {
    /// The network name to join.
    pub ssid: String,
    /// The secret.
    pub psk: String,
    /// The authentication method.
    pub auth: AuthMethod,
    /// A specific access point, if pinned.
    pub bssid: Option<[u8; 6]>,
    /// A specific channel, if pinned.
    pub channel: Option<u8>,
}

impl Clone for ClientParams {
    /// An equal copy, field for field.
    fn clone(&self) -> (r: Self)
        ensures
            r == *self,
    {
        ClientParams {
            ssid: self.ssid.clone(),
            psk: self.psk.clone(),
            auth: self.auth,
            bssid: self.bssid,
            channel: self.channel,
        }
    }
}

/// The access-point side of a radio configuration.
pub struct ApParams {
    /// The network name announced.
    pub ssid: String,
    /// The secret clients must present.
    pub psk: String,
    /// The authentication method.
    pub auth: AuthMethod,
    /// Whether the name is withheld from announcements.
    pub ssid_hidden: bool,
    /// The primary channel.
    pub channel: u8,
    /// The secondary channel, if any.
    pub secondary_channel: Option<u8>,
    /// How many clients may join at once.
    pub max_connections: u16,
}

impl Clone for ApParams {
    /// An equal copy, field for field.
    fn clone(&self) -> (r: Self)
        ensures
            r == *self,
    {
        ApParams {
            ssid: self.ssid.clone(),
            psk: self.psk.clone(),
            auth: self.auth,
            ssid_hidden: self.ssid_hidden,
            channel: self.channel,
            secondary_channel: self.secondary_channel,
            max_connections: self.max_connections,
        }
    }
}

/// What the radio is configured as. Exactly one variant is active at
/// a time; "started" is a run-state bit orthogonal to this.
pub enum RadioConfig {
    /// No configuration installed.
    Inactive,
    /// Client only.
    Client(ClientParams),
    /// Access point only.
    AccessPoint(ApParams),
    /// Client and access point at once.
    Mixed(ClientParams, ApParams),
}

impl Clone for RadioConfig {
    /// An equal copy, variant for variant.
    fn clone(&self) -> (r: Self)
        ensures
            r == *self,
    {
        match self {
            RadioConfig::Inactive => RadioConfig::Inactive,
            RadioConfig::Client(c) => RadioConfig::Client(c.clone()),
            RadioConfig::AccessPoint(a) => RadioConfig::AccessPoint(a.clone()),
            RadioConfig::Mixed(c, a) => RadioConfig::Mixed(c.clone(), a.clone()),
        }
    }
}

/// The client side of a configuration, if one is installed.
pub open spec fn client_side(c: RadioConfig) -> Option<ClientParams> {
    match c {
        RadioConfig::Client(p) => Some(p),
        RadioConfig::Mixed(p, _) => Some(p),
        _ => None,
    }
}

/// The access-point side of a configuration, if one is installed.
pub open spec fn ap_side(c: RadioConfig) -> Option<ApParams> {
    match c {
        RadioConfig::AccessPoint(a) => Some(a),
        RadioConfig::Mixed(_, a) => Some(a),
        _ => None,
    }
}

/// The configuration with the given sides installed.
pub open spec fn config_of_sides(c: Option<ClientParams>, a: Option<ApParams>) -> RadioConfig {
    match (c, a) {
        (Some(cp), Some(ap)) => RadioConfig::Mixed(cp, ap),
        (Some(cp), None) => RadioConfig::Client(cp),
        (None, Some(ap)) => RadioConfig::AccessPoint(ap),
        (None, None) => RadioConfig::Inactive,
    }
}

/// One network seen by a scan. Ephemeral; never persisted.
pub struct ScanResult {
    /// The announced network name.
    pub ssid: String,
    /// The access point's hardware address.
    pub bssid: [u8; 6],
    /// Received signal strength, in dBm.
    pub signal_strength: i8,
    /// The channel the network was seen on.
    pub channel: u8,
}

/// The mathematical view of a scan entry.
pub struct ScanResultV {
    /// The announced network name.
    pub ssid: Seq<char>,
    /// The access point's hardware address.
    pub bssid: Seq<u8>,
    /// Received signal strength, in dBm.
    pub signal_strength: i8,
    /// The channel the network was seen on.
    pub channel: u8,
}

impl View for ScanResult {
    type V = ScanResultV;

    open spec fn view(&self) -> ScanResultV {
        ScanResultV {
            ssid: self.ssid@,
            bssid: self.bssid@,
            signal_strength: self.signal_strength,
            channel: self.channel,
        }
    }
}

impl Clone for ScanResult {
    /// An equal copy, field for field.
    fn clone(&self) -> (r: Self)
        ensures
            r == *self,
    {
        ScanResult {
            ssid: self.ssid.clone(),
            bssid: self.bssid,
            signal_strength: self.signal_strength,
            channel: self.channel,
        }
    }
}

/// The views of a list of scan entries, in order.
pub open spec fn scan_view(s: Seq<ScanResult>) -> Seq<ScanResultV> {
    s.map_values(|e: ScanResult| e@)
}

/// One effect performed on the radio, as recorded in the ghost trace.
pub enum RadioEvent {
    /// The radio was brought up.
    Started,
    /// The radio was shut down.
    Stopped,
    /// A configuration was installed.
    ConfigInstalled(RadioConfig),
    /// One association attempt, with its outcome.
    AssociationTried(bool),
    /// A pause of so many milliseconds.
    Slept(u32),
    /// A scan, with what it reported.
    Scanned(Seq<ScanResultV>),
    /// A wait for the interface to come up.
    InterfaceAwaited,
}

/// How many association attempts a trace records.
pub open spec fn assoc_count(es: Seq<RadioEvent>) -> nat
    decreases es.len(),
{
    if es.len() == 0 {
        0
    } else {
        assoc_count(es.drop_last()) + match es.last() {
            RadioEvent::AssociationTried(_) => 1nat,
            _ => 0nat,
        }
    }
}

/// The radio driver capability: run control, configuration,
/// association, scanning, and the pacing of retries. Implementations
/// outside this crate do real hardware work; they owe their callers
/// exactly what these contracts say, nothing more.
pub trait RadioDriver: Sized {
    /// The installed configuration.
    spec fn configuration(&self) -> RadioConfig;

    /// Whether the radio is running.
    spec fn started(&self) -> bool;

    /// Whether the client side is associated with a network.
    spec fn connected(&self) -> bool;

    /// Everything done to the radio so far, in order.
    spec fn events(&self) -> Seq<RadioEvent>;

    /// Reads the installed configuration.
    fn get_configuration(&self) -> (r: Result<RadioConfig, DriverError>)
        ensures
            r matches Ok(c) ==> c == self.configuration(),
    ;

    /// Installs a configuration wholesale. Failure leaves the radio
    /// as it was.
    fn set_configuration(&mut self, config: &RadioConfig) -> (r: Result<(), DriverError>)
        ensures
            r is Ok ==> final(self).configuration() == *config && final(self).events() == old(
                self,
            ).events().push(RadioEvent::ConfigInstalled(*config)),
            r is Err ==> *final(self) == *old(self),
            final(self).started() == old(self).started(),
            final(self).connected() == old(self).connected(),
    ;

    /// Brings the radio up. Failure leaves it as it was.
    fn start(&mut self) -> (r: Result<(), DriverError>)
        ensures
            r is Ok ==> final(self).started() && final(self).events() == old(self).events().push(
                RadioEvent::Started,
            ),
            r is Err ==> *final(self) == *old(self),
            final(self).configuration() == old(self).configuration(),
            final(self).connected() == old(self).connected(),
    ;

    /// Shuts the radio down, dropping any association. Failure leaves
    /// it as it was.
    fn stop(&mut self) -> (r: Result<(), DriverError>)
        ensures
            r is Ok ==> !final(self).started() && !final(self).connected() && final(self).events()
                == old(self).events().push(RadioEvent::Stopped),
            r is Err ==> *final(self) == *old(self),
            final(self).configuration() == old(self).configuration(),
    ;

    /// One association attempt with the installed client
    /// configuration. The outcome is the environment's to decide;
    /// either way it is recorded, and the radio stays up with its
    /// configuration intact.
    fn associate(&mut self) -> (r: Result<(), DriverError>)
        requires
            old(self).started(),
            client_side(old(self).configuration()) is Some,
        ensures
            final(self).configuration() == old(self).configuration(),
            final(self).started(),
            r is Ok ==> final(self).connected() && final(self).events() == old(
                self,
            ).events().push(RadioEvent::AssociationTried(true)),
            r is Err ==> !final(self).connected() && final(self).events() == old(
                self,
            ).events().push(RadioEvent::AssociationTried(false)),
    ;

    /// Scans for networks. What it reports is the environment's to
    /// decide; the report is recorded in the trace.
    fn scan(&mut self) -> (r: Result<Vec<ScanResult>, DriverError>)
        requires
            old(self).started(),
            client_side(old(self).configuration()) is Some,
        ensures
            final(self).configuration() == old(self).configuration(),
            final(self).started() == old(self).started(),
            final(self).connected() == old(self).connected(),
            r matches Ok(aps) ==> final(self).events() == old(self).events().push(
                RadioEvent::Scanned(scan_view(aps@)),
            ),
            r is Err ==> *final(self) == *old(self),
    ;

    /// Waits for the associated interface to obtain an address.
    fn wait_interface_up(&mut self) -> (r: Result<(), DriverError>)
        requires
            old(self).connected(),
        ensures
            final(self).configuration() == old(self).configuration(),
            final(self).started() == old(self).started(),
            final(self).connected() == old(self).connected(),
            final(self).events() == old(self).events().push(RadioEvent::InterfaceAwaited),
    ;

    /// Pauses for the given number of milliseconds.
    fn sleep_ms(&mut self, ms: u32)
        ensures
            final(self).configuration() == old(self).configuration(),
            final(self).started() == old(self).started(),
            final(self).connected() == old(self).connected(),
            final(self).events() == old(self).events().push(RadioEvent::Slept(ms)),
    ;

    /// Whether the radio is running.
    fn is_started(&self) -> (r: Result<bool, DriverError>)
        ensures
            r matches Ok(b) ==> b == self.started(),
    ;

    /// Whether the client side is associated.
    fn is_connected(&self) -> (r: Result<bool, DriverError>)
        ensures
            r matches Ok(b) ==> b == self.connected(),
    ;
}

/// The crate's deterministic radio: association outcomes come from a
/// script (then a fixed default), scans report a fixed list, and
/// executable counters mirror the ghost trace for tests to read.
pub struct SimRadio {
    config: RadioConfig,
    run: bool,
    link: bool,
    assoc_script: Vec<bool>,
    script_at: usize,
    assoc_default: bool,
    scan_list: Vec<ScanResult>,
    attempts: u64,
    sleeps: Vec<u32>,
    trace: Ghost<Seq<RadioEvent>>,
}

impl SimRadio {
    /// A stopped, unconfigured radio whose association attempts all
    /// succeed and whose scans report nothing.
    pub fn new() -> (r: SimRadio)
        ensures
            r.configuration() == RadioConfig::Inactive,
            !r.started(),
            !r.connected(),
            r.events() == Seq::<RadioEvent>::empty(),
    {
        SimRadio {
            config: RadioConfig::Inactive,
            run: false,
            link: false,
            assoc_script: Vec::new(),
            script_at: 0,
            assoc_default: true,
            scan_list: Vec::new(),
            attempts: 0,
            sleeps: Vec::new(),
            trace: Ghost(Seq::empty()),
        }
    }

    /// Scripts the outcomes of the next association attempts; once
    /// the script is spent, `fallback` decides every further attempt.
    pub fn script_associations(&mut self, outcomes: Vec<bool>, fallback: bool)
        ensures
            final(self).configuration() == old(self).configuration(),
            final(self).started() == old(self).started(),
            final(self).connected() == old(self).connected(),
            final(self).events() == old(self).events(),
    {
        self.assoc_script = outcomes;
        self.script_at = 0;
        self.assoc_default = fallback;
    }

    /// Sets what every scan will report.
    pub fn set_scan_report(&mut self, report: Vec<ScanResult>)
        ensures
            final(self).configuration() == old(self).configuration(),
            final(self).started() == old(self).started(),
            final(self).connected() == old(self).connected(),
            final(self).events() == old(self).events(),
    {
        self.scan_list = report;
    }

    /// How many association attempts were made (saturating).
    pub fn association_attempts(&self) -> u64 {
        self.attempts
    }

    /// The pauses taken so far, in order, in milliseconds.
    pub fn sleeps_taken(&self) -> &Vec<u32> {
        &self.sleeps
    }
}

impl RadioDriver for SimRadio {
    closed spec fn configuration(&self) -> RadioConfig {
        self.config
    }

    closed spec fn started(&self) -> bool {
        self.run
    }

    closed spec fn connected(&self) -> bool {
        self.link
    }

    closed spec fn events(&self) -> Seq<RadioEvent> {
        self.trace@
    }

    fn get_configuration(&self) -> (r: Result<RadioConfig, DriverError>) {
        Ok(self.config.clone())
    }

    fn set_configuration(&mut self, config: &RadioConfig) -> (r: Result<(), DriverError>) {
        self.config = config.clone();
        self.trace = Ghost(self.trace@.push(RadioEvent::ConfigInstalled(*config)));
        Ok(())
    }

    fn start(&mut self) -> (r: Result<(), DriverError>) {
        self.run = true;
        self.trace = Ghost(self.trace@.push(RadioEvent::Started));
        Ok(())
    }

    fn stop(&mut self) -> (r: Result<(), DriverError>) {
        self.run = false;
        self.link = false;
        self.trace = Ghost(self.trace@.push(RadioEvent::Stopped));
        Ok(())
    }

    fn associate(&mut self) -> (r: Result<(), DriverError>) {
        let outcome = if self.script_at < self.assoc_script.len() {
            let o = self.assoc_script[self.script_at];
            self.script_at = self.script_at + 1;
            o
        } else {
            self.assoc_default
        };
        if self.attempts < u64::MAX {
            self.attempts = self.attempts + 1;
        }
        self.link = outcome;
        self.trace = Ghost(self.trace@.push(RadioEvent::AssociationTried(outcome)));
        if outcome {
            Ok(())
        } else {
            Err(DriverError::AssociationFailed)
        }
    }

    fn scan(&mut self) -> (r: Result<Vec<ScanResult>, DriverError>) {
        let n = self.scan_list.len();
        let mut report: Vec<ScanResult> = Vec::new();
        let mut i: usize = 0;
        while i < n
            invariant
                i <= n,
                n == self.scan_list@.len(),
                report@ == self.scan_list@.take(i as int),
                self == old(self),
            decreases n - i,
        {
            report.push(self.scan_list[i].clone());
            assert(report@ =~= self.scan_list@.take(i + 1 as int));
            i = i + 1;
        }
        assert(self.scan_list@.take(n as int) =~= self.scan_list@);
        self.trace = Ghost(self.trace@.push(RadioEvent::Scanned(scan_view(report@))));
        Ok(report)
    }

    fn wait_interface_up(&mut self) -> (r: Result<(), DriverError>) {
        self.trace = Ghost(self.trace@.push(RadioEvent::InterfaceAwaited));
        Ok(())
    }

    fn sleep_ms(&mut self, ms: u32) {
        self.sleeps.push(ms);
        self.trace = Ghost(self.trace@.push(RadioEvent::Slept(ms)));
    }

    fn is_started(&self) -> (r: Result<bool, DriverError>) {
        Ok(self.run)
    }

    fn is_connected(&self) -> (r: Result<bool, DriverError>) {
        Ok(self.link)
    }
}

} // verus!
