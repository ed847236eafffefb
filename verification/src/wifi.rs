//! The connectivity orchestrator: one radio driver plus the
//! persisted credential set, with the connect/scan/reconnect and
//! mode-switch policies on top.
//!
//! Mode changes always merge with what is installed: setting one side
//! of the configuration never drops the other side's parameters. The
//! only built-in retry policy is the association retry loop: a
//! caller-supplied budget, one fixed 1000 ms pause between failed
//! attempts, and the last error surfaced when the budget is spent.

use vstd::prelude::*;
use vstd::multiset::Multiset;
use vstd::string::StringSliceAdditionalSpecFns;

use crate::credentials::{
    bssid_view, creds_view, spec_forgotten, spec_saved, state_inv, Credential, CredentialV,
    WifiState,
};
use crate::errors::{DriverError, ValidationError, WifiError};
use crate::manager::{PersistentStateManager, Subscriber};
use crate::radio::{
    ap_side, assoc_count, auth_method, client_side, config_of_sides, spec_auth_method, ApParams,
    AuthMethod, ClientParams, RadioConfig, RadioDriver, RadioEvent, ScanResult,
};
use crate::storage::Storage;

verus! {

/// The longest network name the radio hardware accepts, in bytes.
pub const MAX_SSID_BYTES: usize = 32;

/// The longest secret the radio hardware accepts, in bytes.
pub const MAX_PSK_BYTES: usize = 64;

/// The default access-point channel used for provisioning.
pub const DEFAULT_AP_CHANNEL: u8 = 6;

/// The default secondary access-point channel.
pub const DEFAULT_AP_SECONDARY_CHANNEL: u8 = 11;

/// How many clients the provisioning access point serves at once.
pub const DEFAULT_AP_MAX_CONNECTIONS: u16 = 1;

/// The pause between failed association attempts, in milliseconds.
pub const RETRY_PAUSE_MS: u32 = 1000;

/// The event suffix of `k` failed association attempts, each followed
/// by the fixed pause.
pub open spec fn fail_run(k: nat) -> Seq<RadioEvent>
    decreases k,
{
    if k == 0 {
        Seq::empty()
    } else {
        fail_run((k - 1) as nat) + seq![
            RadioEvent::AssociationTried(false),
            RadioEvent::Slept(RETRY_PAUSE_MS),
        ]
    }
}

/// A configuration whose client side carries the given credentials.
pub open spec fn installs_client(cfg: RadioConfig, ssid: Seq<char>, psk: Seq<char>) -> bool {
    client_side(cfg) matches Some(p) && p.ssid@ == ssid && p.psk@ == psk
}

/// What one connect call for the given credentials appends to the
/// radio trace. On success: the installed configuration — followed by
/// a start if the radio was down — then at most `retries` failed
/// attempts, each with the fixed pause, one successful attempt and
/// the interface wait. On failure: nothing at all (rejected before
/// the radio was touched, or a query failed), the installed
/// configuration alone (the start failed), the spent budget of
/// exactly `retries + 1` failed attempts with the pauses between
/// them, or a successful association whose interface wait failed.
pub open spec fn connect_segment(
    seg: Seq<RadioEvent>,
    ssid: Seq<char>,
    psk: Seq<char>,
    retries: nat,
    ok: bool,
) -> bool {
    if ok {
        exists|cfg: RadioConfig, up: Seq<RadioEvent>, k: nat|
            installs_client(cfg, ssid, psk) && (up == Seq::<RadioEvent>::empty() || up == seq![
                RadioEvent::Started,
            ]) && k <= retries && seg == seq![RadioEvent::ConfigInstalled(cfg)] + up + fail_run(k)
                + seq![RadioEvent::AssociationTried(true), RadioEvent::InterfaceAwaited]
    } else {
        ||| seg == Seq::<RadioEvent>::empty()
        ||| (exists|cfg: RadioConfig|
            installs_client(cfg, ssid, psk) && seg == seq![RadioEvent::ConfigInstalled(cfg)])
        ||| (exists|cfg: RadioConfig, up: Seq<RadioEvent>|
            installs_client(cfg, ssid, psk) && (up == Seq::<RadioEvent>::empty() || up == seq![
                RadioEvent::Started,
            ]) && seg == seq![RadioEvent::ConfigInstalled(cfg)] + up + fail_run(retries) + seq![
                RadioEvent::AssociationTried(false),
            ])
        ||| (exists|cfg: RadioConfig, up: Seq<RadioEvent>, k: nat|
            installs_client(cfg, ssid, psk) && (up == Seq::<RadioEvent>::empty() || up == seq![
                RadioEvent::Started,
            ]) && k <= retries && seg == seq![RadioEvent::ConfigInstalled(cfg)] + up + fail_run(k)
                + seq![RadioEvent::AssociationTried(true), RadioEvent::InterfaceAwaited])
    }
}

/// The connectivity orchestrator: exclusive owner of one radio driver
/// handle and of the credential set's state manager.
///
/// Like the state manager it performs no internal locking; callers
/// sharing one across concurrent execution contexts serialize every
/// access through one external lock.
pub struct Wifi<D: RadioDriver, S: Storage<WifiState>, U: Subscriber<WifiState>> {
    driver: D,
    config_manager: PersistentStateManager<WifiState, S, U>,
}

impl<D: RadioDriver, S: Storage<WifiState>, U: Subscriber<WifiState>> Wifi<D, S, U> {
    /// The radio's installed configuration.
    pub closed spec fn configuration(&self) -> RadioConfig {
        self.driver.configuration()
    }

    /// Whether the radio is running.
    pub closed spec fn started(&self) -> bool {
        self.driver.started()
    }

    /// Whether the client side is associated.
    pub closed spec fn connected(&self) -> bool {
        self.driver.connected()
    }

    /// Everything done to the radio so far.
    pub closed spec fn events(&self) -> Seq<RadioEvent> {
        self.driver.events()
    }

    /// The saved credentials.
    pub closed spec fn creds(&self) -> Seq<CredentialV> {
        self.config_manager.spec_state()@
    }

    /// The wrapped state manager.
    pub closed spec fn manager(&self) -> PersistentStateManager<WifiState, S, U> {
        self.config_manager
    }

    /// The in-memory credential set is valid.
    pub open spec fn wf(&self) -> bool {
        self.manager().wf()
    }

    /// An orchestrator over the given driver and credential manager.
    pub fn new(driver: D, config_manager: PersistentStateManager<WifiState, S, U>) -> (r: Self)
        ensures
            r.configuration() == driver.configuration(),
            r.started() == driver.started(),
            r.connected() == driver.connected(),
            r.events() == driver.events(),
            r.manager() == config_manager,
            r.creds() == config_manager.spec_state()@,
    {
        Wifi { driver, config_manager }
    }

    /// Gives the driver handle up.
    pub fn into_wifi(self) -> (r: D)
        ensures
            r.configuration() == self.configuration(),
            r.started() == self.started(),
            r.connected() == self.connected(),
            r.events() == self.events(),
    {
        self.driver
    }

    /// The driver handle.
    pub fn wifi(&self) -> (r: &D)
        ensures
            r.configuration() == self.configuration(),
            r.started() == self.started(),
            r.connected() == self.connected(),
            r.events() == self.events(),
    {
        &self.driver
    }

    /// Brings the radio up if it is not running; a no-op if it is.
    pub fn start(&mut self) -> (r: Result<(), WifiError>)
        ensures
            final(self).manager() == old(self).manager(),
            final(self).configuration() == old(self).configuration(),
            final(self).connected() == old(self).connected(),
            r is Ok ==> final(self).started() && final(self).events() == if old(self).started() {
                old(self).events()
            } else {
                old(self).events().push(RadioEvent::Started)
            },
            r is Err ==> final(self).started() == old(self).started() && final(self).events()
                == old(self).events(),
            r is Err ==> (r matches Err(WifiError::Driver(_))),
    {
        match self.driver.is_started() {
            Err(e) => Err(WifiError::Driver(e)),
            Ok(true) => Ok(()),
            Ok(false) => match self.driver.start() {
                Ok(()) => Ok(()),
                Err(e) => Err(WifiError::Driver(e)),
            },
        }
    }

    /// Shuts the radio down if it is running; a no-op if not.
    pub fn stop(&mut self) -> (r: Result<(), WifiError>)
        ensures
            final(self).manager() == old(self).manager(),
            final(self).configuration() == old(self).configuration(),
            r is Ok ==> !final(self).started() || !old(self).started(),
            r is Ok ==> final(self).events() == if old(self).started() {
                old(self).events().push(RadioEvent::Stopped)
            } else {
                old(self).events()
            },
            r is Err ==> final(self).started() == old(self).started() && final(self).events()
                == old(self).events(),
            r is Err ==> (r matches Err(WifiError::Driver(_))),
    {
        match self.driver.is_started() {
            Err(e) => Err(WifiError::Driver(e)),
            Ok(false) => Ok(()),
            Ok(true) => match self.driver.stop() {
                Ok(()) => Ok(()),
                Err(e) => Err(WifiError::Driver(e)),
            },
        }
    }

    /// Whether the client side is associated.
    pub fn is_connected(&self) -> (r: Result<bool, WifiError>)
        ensures
            r matches Ok(b) ==> b == self.connected(),
    {
        match self.driver.is_connected() {
            Ok(b) => Ok(b),
            Err(e) => Err(WifiError::Driver(e)),
        }
    }

    /// Whether the radio is running.
    pub fn is_started(&mut self) -> (r: Result<bool, WifiError>)
        ensures
            *final(self) == *old(self),
            r matches Ok(b) ==> b == old(self).started(),
    {
        match self.driver.is_started() {
            Ok(b) => Ok(b),
            Err(e) => Err(WifiError::Driver(e)),
        }
    }

    /// Whether the interface is up: running and associated.
    pub fn is_up(&mut self) -> (r: Result<bool, WifiError>)
        ensures
            *final(self) == *old(self),
            r matches Ok(b) ==> b == (old(self).started() && old(self).connected()),
    {
        match self.driver.is_started() {
            Err(e) => Err(WifiError::Driver(e)),
            Ok(s) => match self.driver.is_connected() {
                Err(e) => Err(WifiError::Driver(e)),
                Ok(c) => Ok(s && c),
            },
        }
    }

    /// Whether an access-point side is installed.
    pub fn is_ap_enabled(&self) -> (r: Result<bool, WifiError>)
        ensures
            r matches Ok(b) ==> b == (ap_side(self.configuration()) is Some),
    {
        match self.driver.get_configuration() {
            Err(e) => Err(WifiError::Driver(e)),
            Ok(c) => match c {
                RadioConfig::AccessPoint(_) => Ok(true),
                RadioConfig::Mixed(_, _) => Ok(true),
                _ => Ok(false),
            },
        }
    }

    /// Whether a client side is installed.
    pub fn is_sta_enabled(&self) -> (r: Result<bool, WifiError>)
        ensures
            r matches Ok(b) ==> b == (client_side(self.configuration()) is Some),
    {
        match self.driver.get_configuration() {
            Err(e) => Err(WifiError::Driver(e)),
            Ok(c) => match c {
                RadioConfig::Client(_) => Ok(true),
                RadioConfig::Mixed(_, _) => Ok(true),
                _ => Ok(false),
            },
        }
    }

    /// Waits for the associated interface to obtain an address.
    pub fn wait_netif_up(&mut self) -> (r: Result<(), WifiError>)
        requires
            old(self).connected(),
        ensures
            final(self).manager() == old(self).manager(),
            final(self).configuration() == old(self).configuration(),
            final(self).started() == old(self).started(),
            final(self).connected() == old(self).connected(),
            final(self).events() == old(self).events().push(RadioEvent::InterfaceAwaited),
    {
        match self.driver.wait_interface_up() {
            Ok(()) => Ok(()),
            Err(e) => Err(WifiError::Driver(e)),
        }
    }

    /// Installs the given sides over the current configuration: a
    /// side that is not given keeps whatever is installed, so setting
    /// one side never drops the other.
    fn add_configuration(
        &mut self,
        client: Option<ClientParams>,
        ap: Option<ApParams>,
    ) -> (r: Result<(), WifiError>)
        ensures
            final(self).manager() == old(self).manager(),
            final(self).started() == old(self).started(),
            final(self).connected() == old(self).connected(),
            r is Ok ==> {
                let new_client = if client is Some {
                    client
                } else {
                    client_side(old(self).configuration())
                };
                let new_ap = if ap is Some {
                    ap
                } else {
                    ap_side(old(self).configuration())
                };
                final(self).configuration() == config_of_sides(new_client, new_ap) && final(self).events() == old(self).events().push(
                    RadioEvent::ConfigInstalled(config_of_sides(new_client, new_ap)),
                )
            },
            r is Err ==> final(self).configuration() == old(self).configuration() && final(self).events() == old(self).events(),
            r is Err ==> (r matches Err(WifiError::Driver(_))),
    {
        let current = match self.driver.get_configuration() {
            Ok(c) => c,
            Err(e) => {
                return Err(WifiError::Driver(e));
            },
        };
        let (prev_client, prev_ap) = match current {
            RadioConfig::Inactive => (None, None),
            RadioConfig::Client(c) => (Some(c), None),
            RadioConfig::AccessPoint(a) => (None, Some(a)),
            RadioConfig::Mixed(c, a) => (Some(c), Some(a)),
        };
        let new_client = if client.is_some() {
            client
        } else {
            prev_client
        };
        let new_ap = if ap.is_some() {
            ap
        } else {
            prev_ap
        };
        let config = match (new_client, new_ap) {
            (Some(c), Some(a)) => RadioConfig::Mixed(c, a),
            (Some(c), None) => RadioConfig::Client(c),
            (None, Some(a)) => RadioConfig::AccessPoint(a),
            (None, None) => RadioConfig::Inactive,
        };
        match self.driver.set_configuration(&config) {
            Ok(()) => Ok(()),
            Err(e) => Err(WifiError::Driver(e)),
        }
    }

    /// Installs a client configuration, keeping any installed
    /// access-point side.
    fn set_client_configuration(&mut self, client: ClientParams) -> (r: Result<(), WifiError>)
        ensures
            final(self).manager() == old(self).manager(),
            final(self).started() == old(self).started(),
            final(self).connected() == old(self).connected(),
            r is Ok ==> {
                let merged = config_of_sides(
                    Some(client),
                    ap_side(old(self).configuration()),
                );
                final(self).configuration() == merged && final(self).events() == old(self).events().push(RadioEvent::ConfigInstalled(merged))
            },
            r is Err ==> final(self).configuration() == old(self).configuration() && final(self).events() == old(self).events(),
            r is Err ==> (r matches Err(WifiError::Driver(_))),
    {
        self.add_configuration(Some(client), None)
    }

    /// Installs an access-point configuration, keeping any installed
    /// client side.
    fn set_ap_configuration(&mut self, ap: ApParams) -> (r: Result<(), WifiError>)
        ensures
            final(self).manager() == old(self).manager(),
            final(self).started() == old(self).started(),
            final(self).connected() == old(self).connected(),
            r is Ok ==> {
                let merged = config_of_sides(
                    client_side(old(self).configuration()),
                    Some(ap),
                );
                final(self).configuration() == merged && final(self).events() == old(self).events().push(RadioEvent::ConfigInstalled(merged))
            },
            r is Err ==> final(self).configuration() == old(self).configuration() && final(self).events() == old(self).events(),
            r is Err ==> (r matches Err(WifiError::Driver(_))),
    {
        self.add_configuration(None, Some(ap))
    }

    /// The association retry loop: up to `retries + 1` attempts with
    /// the installed client configuration, pausing 1000 ms after each
    /// failed attempt that still has budget left, and waiting for the
    /// interface after a success. The trace pins the policy down: on
    /// exhaustion, exactly `retries + 1` attempts were made with the
    /// fixed pause between them, and the last attempt's error is
    /// surfaced.
    pub fn associate_with_retries(&mut self, retries: u8) -> (r: Result<(), DriverError>)
        requires
            old(self).started(),
            client_side(old(self).configuration()) is Some,
        ensures
            final(self).manager() == old(self).manager(),
            final(self).configuration() == old(self).configuration(),
            final(self).started(),
            r is Ok ==> final(self).connected() && exists|k: nat|
                k <= retries && final(self).events() == old(self).events() + fail_run(k) + seq![
                    RadioEvent::AssociationTried(true),
                    RadioEvent::InterfaceAwaited,
                ],
            r is Err ==> (!final(self).connected() && final(self).events() == old(self).events()
                + fail_run(retries as nat) + seq![RadioEvent::AssociationTried(false)]) || (final(self).connected() && exists|k: nat|
                k <= retries && final(self).events() == old(self).events() + fail_run(k) + seq![
                    RadioEvent::AssociationTried(true),
                    RadioEvent::InterfaceAwaited,
                ]),
    {
        let mut i: u16 = 0;
        let bound: u16 = retries as u16;
        while i < bound
            invariant
                i <= bound,
                bound == retries as u16,
                self.started(),
                self.configuration() == old(self).configuration(),
                client_side(self.configuration()) is Some,
                self.manager() == old(self).manager(),
                self.events() == old(self).events() + fail_run(i as nat),
            decreases bound - i,
        {
            match self.driver.associate() {
                Ok(()) => {
                    let waited = self.driver.wait_interface_up();
                    proof {
                        assert(self.events() =~= old(self).events() + fail_run(i as nat) + seq![
                            RadioEvent::AssociationTried(true),
                            RadioEvent::InterfaceAwaited,
                        ]);
                    }
                    return waited;
                },
                Err(_) => {
                    self.driver.sleep_ms(RETRY_PAUSE_MS);
                    proof {
                        assert(self.events() =~= old(self).events() + fail_run((i + 1) as nat));
                    }
                    i = i + 1;
                },
            }
        }
        match self.driver.associate() {
            Ok(()) => {
                let waited = self.driver.wait_interface_up();
                proof {
                    assert(self.events() =~= old(self).events() + fail_run(retries as nat) + seq![
                        RadioEvent::AssociationTried(true),
                        RadioEvent::InterfaceAwaited,
                    ]);
                }
                waited
            },
            Err(e) => {
                proof {
                    assert(self.events() =~= old(self).events() + fail_run(retries as nat) + seq![
                        RadioEvent::AssociationTried(false),
                    ]);
                }
                Err(e)
            },
        }
    }

    /// Joins the given network: derives the authentication method
    /// from the secret (empty means open), installs the client
    /// configuration — keeping any installed access-point side —
    /// brings the radio up, and associates with the retry policy.
    /// Credential text beyond the hardware limits is rejected before
    /// the radio is touched.
    pub fn connect(
        &mut self,
        ssid: &str,
        psk: &str,
        bssid: Option<[u8; 6]>,
        channel: Option<u8>,
        retries: u8,
    ) -> (r: Result<(), WifiError>)
        ensures
            final(self).manager() == old(self).manager(),
            ssid.spec_bytes().len() > MAX_SSID_BYTES <==> r == Err::<(), WifiError>(
                WifiError::Validation(ValidationError::SsidTooLong),
            ),
            ssid.spec_bytes().len() <= MAX_SSID_BYTES && psk.spec_bytes().len() > MAX_PSK_BYTES
                <==> r == Err::<(), WifiError>(WifiError::Validation(ValidationError::PskTooLong)),
            r matches Err(WifiError::Validation(_)) ==> *final(self) == *old(self),
            r is Ok ==> final(self).started() && final(self).connected(),
            r is Ok ==> (client_side(final(self).configuration()) matches Some(p) && p.ssid@
                == ssid@ && p.psk@ == psk@ && p.auth == spec_auth_method(psk@) && p.bssid == bssid
                && p.channel == channel),
            r is Ok ==> ap_side(final(self).configuration()) == ap_side(old(self).configuration()),
            (r is Ok || r matches Err(WifiError::Driver(_))) ==> assoc_count(
                final(self).events(),
            ) <= assoc_count(old(self).events()) + retries + 1,
            r matches Err(WifiError::Driver(_)) ==> final(self).configuration() == old(
                self,
            ).configuration() || (client_side(final(self).configuration()) matches Some(p)
                && p.ssid@ == ssid@ && p.psk@ == psk@ && p.auth == spec_auth_method(psk@)
                && p.bssid == bssid && p.channel == channel && ap_side(final(self).configuration())
                == ap_side(old(self).configuration())),
            r is Ok ==> connect_segment(
                final(self).events().skip(old(self).events().len() as int),
                ssid@,
                psk@,
                retries as nat,
                true,
            ),
            r is Err ==> connect_segment(
                final(self).events().skip(old(self).events().len() as int),
                ssid@,
                psk@,
                retries as nat,
                false,
            ),
            r is Err ==> (r matches Err(WifiError::Validation(_)) || r matches Err(
                WifiError::Driver(_),
            )),
            old(self).events().is_prefix_of(final(self).events()),
    {
        if ssid.as_bytes().len() > MAX_SSID_BYTES {
            proof {
                assert(self.events().skip(old(self).events().len() as int)
                    =~= Seq::<RadioEvent>::empty());
            }
            return Err(WifiError::Validation(ValidationError::SsidTooLong));
        }
        if psk.as_bytes().len() > MAX_PSK_BYTES {
            proof {
                assert(self.events().skip(old(self).events().len() as int)
                    =~= Seq::<RadioEvent>::empty());
            }
            return Err(WifiError::Validation(ValidationError::PskTooLong));
        }
        let auth = auth_method(psk);
        let client = ClientParams {
            ssid: ssid.to_owned(),
            psk: psk.to_owned(),
            auth,
            bssid,
            channel,
        };
        let ghost client_snap = client;
        let ghost cfg = config_of_sides(Some(client_snap), ap_side(self.configuration()));
        let ghost e0 = self.events();
        match self.set_client_configuration(client) {
            Ok(()) => (),
            Err(e) => {
                proof {
                    assert(self.events().skip(old(self).events().len() as int)
                        =~= Seq::<RadioEvent>::empty());
                }
                return Err(e);
            },
        }
        let ghost e1 = self.events();
        proof {
            assert(e1 == e0.push(RadioEvent::ConfigInstalled(cfg)));
            assert(installs_client(cfg, ssid@, psk@));
            assert(e1.drop_last() =~= e0);
            lemma_assoc_count_quiet(e0, e1);
        }
        match self.start() {
            Ok(()) => (),
            Err(e) => {
                proof {
                    assert(self.events().skip(old(self).events().len() as int) =~= seq![
                        RadioEvent::ConfigInstalled(cfg),
                    ]);
                }
                return Err(e);
            },
        }
        let ghost e2 = self.events();
        let ghost up = e2.skip(e1.len() as int);
        proof {
            if e2 == e1 {
                assert(up =~= Seq::<RadioEvent>::empty());
            } else {
                assert(e2.drop_last() =~= e1);
                assert(up =~= seq![RadioEvent::Started]);
            }
            assert(e2 =~= e0 + seq![RadioEvent::ConfigInstalled(cfg)] + up);
            lemma_assoc_count_quiet(e1, e2);
        }
        match self.associate_with_retries(retries) {
            Ok(()) => {
                proof {
                    lemma_assoc_count_retry_suffix(e2, self.events(), retries as nat);
                    let k = choose|k: nat|
                        k <= retries && self.events() == e2 + fail_run(k) + seq![
                            RadioEvent::AssociationTried(true),
                            RadioEvent::InterfaceAwaited,
                        ];
                    assert(self.events().skip(old(self).events().len() as int) =~= seq![
                        RadioEvent::ConfigInstalled(cfg),
                    ] + up + fail_run(k) + seq![
                        RadioEvent::AssociationTried(true),
                        RadioEvent::InterfaceAwaited,
                    ]);
                }
                Ok(())
            },
            Err(e) => {
                proof {
                    lemma_assoc_count_retry_suffix(e2, self.events(), retries as nat);
                    if self.events() == e2 + fail_run(retries as nat) + seq![
                        RadioEvent::AssociationTried(false),
                    ] {
                        assert(self.events().skip(old(self).events().len() as int) =~= seq![
                            RadioEvent::ConfigInstalled(cfg),
                        ] + up + fail_run(retries as nat) + seq![
                            RadioEvent::AssociationTried(false),
                        ]);
                    } else {
                        let k = choose|k: nat|
                            k <= retries && self.events() == e2 + fail_run(k) + seq![
                                RadioEvent::AssociationTried(true),
                                RadioEvent::InterfaceAwaited,
                            ];
                        assert(self.events().skip(old(self).events().len() as int) =~= seq![
                            RadioEvent::ConfigInstalled(cfg),
                        ] + up + fail_run(k) + seq![
                            RadioEvent::AssociationTried(true),
                            RadioEvent::InterfaceAwaited,
                        ]);
                    }
                }
                Err(WifiError::Driver(e))
            },
        }
    }

    /// Announces an access point with the given name and secret on
    /// the default provisioning channels, keeping any installed
    /// client side, and brings the radio up.
    pub fn start_ap(&mut self, ssid: &str, psk: &str) -> (r: Result<(), WifiError>)
        ensures
            final(self).manager() == old(self).manager(),
            final(self).connected() == old(self).connected(),
            ssid.spec_bytes().len() > MAX_SSID_BYTES <==> r == Err::<(), WifiError>(
                WifiError::Validation(ValidationError::SsidTooLong),
            ),
            ssid.spec_bytes().len() <= MAX_SSID_BYTES && psk.spec_bytes().len() > MAX_PSK_BYTES
                <==> r == Err::<(), WifiError>(WifiError::Validation(ValidationError::PskTooLong)),
            r matches Err(WifiError::Validation(_)) ==> *final(self) == *old(self),
            r is Ok ==> final(self).started(),
            r is Ok ==> (ap_side(final(self).configuration()) matches Some(a) && a.ssid@ == ssid@
                && a.psk@ == psk@ && a.auth == spec_auth_method(psk@) && !a.ssid_hidden && a.channel
                == DEFAULT_AP_CHANNEL && a.secondary_channel == Some(DEFAULT_AP_SECONDARY_CHANNEL)
                && a.max_connections == DEFAULT_AP_MAX_CONNECTIONS),
            r is Ok ==> client_side(final(self).configuration()) == client_side(
                old(self).configuration(),
            ),
            r matches Err(WifiError::Driver(_)) ==> final(self).configuration() == old(
                self,
            ).configuration() || (ap_side(final(self).configuration()) matches Some(a) && a.ssid@
                == ssid@ && a.psk@ == psk@ && a.auth == spec_auth_method(psk@)
                && client_side(final(self).configuration()) == client_side(
                old(self).configuration(),
            )),
    {
        if ssid.as_bytes().len() > MAX_SSID_BYTES {
            return Err(WifiError::Validation(ValidationError::SsidTooLong));
        }
        if psk.as_bytes().len() > MAX_PSK_BYTES {
            return Err(WifiError::Validation(ValidationError::PskTooLong));
        }
        let auth = auth_method(psk);
        let ap = ApParams {
            ssid: ssid.to_owned(),
            psk: psk.to_owned(),
            auth,
            ssid_hidden: false,
            channel: DEFAULT_AP_CHANNEL,
            secondary_channel: Some(DEFAULT_AP_SECONDARY_CHANNEL),
            max_connections: DEFAULT_AP_MAX_CONNECTIONS,
        };
        match self.set_ap_configuration(ap) {
            Ok(()) => (),
            Err(e) => {
                return Err(e);
            },
        }
        self.start()
    }

    /// Announces the provisioning access point under the appliance's
    /// default name, as an open network.
    pub fn start_ap_default(&mut self) -> (r: Result<(), WifiError>)
        ensures
            final(self).manager() == old(self).manager(),
            final(self).connected() == old(self).connected(),
            r is Ok ==> final(self).started(),
            r is Ok ==> (ap_side(final(self).configuration()) matches Some(a) && a.ssid@
                == "Laser Security"@ && a.psk@.len() == 0 && a.auth == AuthMethod::Open),
            r is Ok ==> client_side(final(self).configuration()) == client_side(
                old(self).configuration(),
            ),
    {
        proof {
            reveal_strlit("Laser Security");
            reveal_strlit("");
        }
        self.start_ap("Laser Security", "")
    }

    /// From a mixed configuration, keeps only the client side,
    /// restarts and re-associates; a no-op on an already client-only
    /// radio. Reports whether the radio is client-only now.
    pub fn switch_to_sta_only(&mut self) -> (r: Result<bool, WifiError>)
        ensures
            final(self).manager() == old(self).manager(),
            r is Ok ==> match old(self).configuration() {
                RadioConfig::Mixed(c, _) => r == Ok::<bool, WifiError>(true) && final(self).configuration() == RadioConfig::Client(c) && final(self).started() && final(self).connected(),
                RadioConfig::Client(_) => r == Ok::<bool, WifiError>(true) && *final(self) == *old(
                    self,
                ),
                _ => r == Ok::<bool, WifiError>(false) && *final(self) == *old(self),
            },
            old(self).events().is_prefix_of(final(self).events()),
    {
        let config = match self.driver.get_configuration() {
            Ok(c) => c,
            Err(e) => {
                return Err(WifiError::Driver(e));
            },
        };
        let client_config = match config {
            RadioConfig::Mixed(c, _) => c,
            RadioConfig::Client(_) => {
                return Ok(true);
            },
            _ => {
                return Ok(false);
            },
        };
        match self.driver.set_configuration(&RadioConfig::Client(client_config)) {
            Ok(()) => (),
            Err(e) => {
                return Err(WifiError::Driver(e));
            },
        }
        match self.start() {
            Ok(()) => (),
            Err(e) => {
                return Err(e);
            },
        }
        match self.driver.associate() {
            Ok(()) => Ok(true),
            Err(e) => Err(WifiError::Driver(e)),
        }
    }

    /// From a mixed configuration, keeps only the access-point side
    /// and restarts; a no-op on an already access-point-only radio.
    /// Reports whether the radio is access-point-only now.
    pub fn switch_to_ap_only(&mut self) -> (r: Result<bool, WifiError>)
        ensures
            final(self).manager() == old(self).manager(),
            r is Ok ==> match old(self).configuration() {
                RadioConfig::Mixed(_, a) => r == Ok::<bool, WifiError>(true) && final(self).configuration() == RadioConfig::AccessPoint(a) && final(self).started(),
                RadioConfig::AccessPoint(_) => r == Ok::<bool, WifiError>(true) && *final(self)
                    == *old(self),
                _ => r == Ok::<bool, WifiError>(false) && *final(self) == *old(self),
            },
            assoc_count(final(self).events()) == assoc_count(old(self).events()),
            final(self).connected() == old(self).connected(),
            old(self).events().is_prefix_of(final(self).events()),
    {
        let config = match self.driver.get_configuration() {
            Ok(c) => c,
            Err(e) => {
                return Err(WifiError::Driver(e));
            },
        };
        let ap_config = match config {
            RadioConfig::Mixed(_, a) => a,
            RadioConfig::AccessPoint(_) => {
                return Ok(true);
            },
            _ => {
                return Ok(false);
            },
        };
        let ghost e0 = self.events();
        match self.driver.set_configuration(&RadioConfig::AccessPoint(ap_config)) {
            Ok(()) => (),
            Err(e) => {
                return Err(WifiError::Driver(e));
            },
        }
        let ghost e1 = self.events();
        proof {
            assert(e1.drop_last() =~= e0);
            lemma_assoc_count_quiet(e0, e1);
        }
        let outcome = self.start();
        proof {
            if self.events() != e1 {
                assert(self.events().drop_last() =~= e1);
            }
            lemma_assoc_count_quiet(e1, self.events());
        }
        match outcome {
            Ok(()) => Ok(true),
            Err(e) => Err(e),
        }
    }

    /// Brings the radio up with a client-capable configuration —
    /// installing a blank one only if no client side exists, never
    /// altering existing client credentials — and scans.
    pub fn scan_aps(&mut self) -> (r: Result<Vec<ScanResult>, WifiError>)
        ensures
            final(self).manager() == old(self).manager(),
            r is Ok ==> final(self).started(),
            r is Ok ==> client_side(final(self).configuration()) is Some,
            r is Ok ==> (client_side(old(self).configuration()) is Some ==> final(self).configuration() == old(self).configuration()),
            r is Ok ==> ap_side(final(self).configuration()) == ap_side(old(self).configuration()),
            r matches Ok(aps) ==> (exists|pre: Seq<RadioEvent>|
                final(self).events() == old(self).events() + pre + seq![
                    RadioEvent::Scanned(crate::radio::scan_view(aps@)),
                ] && assoc_count(pre) == 0),
    {
        match self.start() {
            Ok(()) => (),
            Err(e) => {
                return Err(e);
            },
        }
        let ghost e1 = self.events();
        let has_client = match self.driver.get_configuration() {
            Ok(RadioConfig::Client(_)) => true,
            Ok(RadioConfig::Mixed(_, _)) => true,
            Ok(_) => false,
            Err(e) => {
                return Err(WifiError::Driver(e));
            },
        };
        if !has_client {
            match self.set_client_configuration(default_client_params()) {
                Ok(()) => (),
                Err(e) => {
                    return Err(e);
                },
            }
        }
        let ghost e2 = self.events();
        match self.driver.scan() {
            Ok(aps) => {
                proof {
                    let pre = e2.skip(old(self).events().len() as int);
                    assert(old(self).events() + pre =~= e2);
                    if e1 != old(self).events() {
                        assert(e1.drop_last() =~= old(self).events());
                    }
                    if e2 != e1 {
                        assert(e2.drop_last() =~= e1);
                    }
                    lemma_assoc_count_quiet(old(self).events(), e1);
                    lemma_assoc_count_quiet(e1, e2);
                    lemma_assoc_count_app(old(self).events(), pre);
                    assert(self.events() =~= old(self).events() + pre + seq![
                        RadioEvent::Scanned(crate::radio::scan_view(aps@)),
                    ]);
                }
                Ok(aps)
            },
            Err(e) => Err(WifiError::Driver(e)),
        }
    }

    /// Tries to rejoin a saved network: scans, orders the report by
    /// ascending signal strength, keeps the entries with a saved
    /// credential, and attempts a connect for *every* match in that
    /// order — a later attempt's outcome overwrites an earlier one's,
    /// and the returned flag reflects only the last attempt. If the
    /// final attempt succeeded and an access-point side was active,
    /// the radio is switched to client-only. With no match at all it
    /// reports `false` at once, without one association attempt: a
    /// `false` result always stems from one scan with nothing
    /// attempted before it, and if that scan's report had no saved
    /// match, nothing was done after it either.
    pub fn reconnect(&mut self, retries: u8) -> (r: Result<bool, WifiError>)
        requires
            old(self).wf(),
        ensures
            final(self).manager() == old(self).manager(),
            final(self).wf(),
            r == Ok::<bool, WifiError>(true) ==> final(self).connected() && final(self).started()
                && ap_side(final(self).configuration()) is None,
            r == Ok::<bool, WifiError>(false) ==> ap_side(final(self).configuration()) == ap_side(
                old(self).configuration(),
            ),
            r is Ok ==> exists|
                pre: Seq<RadioEvent>,
                aps: Seq<crate::radio::ScanResultV>,
                post: Seq<RadioEvent>,
            |
                final(self).events() == old(self).events() + pre + seq![
                    RadioEvent::Scanned(aps),
                ] + post && assoc_count(pre) == 0 && (!has_saved_match(aps, old(self).creds())
                    ==> post == Seq::<RadioEvent>::empty() && r == Ok::<bool, WifiError>(false)
                        && (client_side(old(self).configuration()) is Some ==> final(self).configuration() == old(self).configuration()))
                    && (has_saved_match(aps, old(self).creds()) ==> exists|
                    report: Seq<ScanResult>,
                    ordered: Seq<ScanResult>,
                    runs: Seq<RadioEvent>,
                    tail: Seq<RadioEvent>,
                    flag: bool,
                |
                    crate::radio::scan_view(report) == aps && ordered.to_multiset()
                        == report.to_multiset() && sorted_by_signal(ordered) && post == runs + tail
                        && attempts_trace(
                        runs,
                        spec_matched(crate::radio::scan_view(ordered), old(self).creds()),
                        retries as nat,
                        flag,
                    ) && r == Ok::<bool, WifiError>(flag) && (!flag ==> tail
                        == Seq::<RadioEvent>::empty())),
    {
        let has_client = match self.driver.get_configuration() {
            Ok(RadioConfig::Client(_)) => true,
            Ok(RadioConfig::Mixed(_, _)) => true,
            Ok(_) => false,
            Err(e) => {
                return Err(WifiError::Driver(e));
            },
        };
        if !has_client {
            match self.set_client_configuration(default_client_params()) {
                Ok(()) => (),
                Err(e) => {
                    return Err(e);
                },
            }
        }
        let ghost e1 = self.events();
        let creds_snapshot = self.config_manager.state().all();
        let aps = match self.scan_aps() {
            Ok(aps) => aps,
            Err(e) => {
                return Err(e);
            },
        };
        let ghost raw_views = crate::radio::scan_view(aps@);
        let ghost e_scan = self.events();
        proof {
            let pre1 = choose|pre1: Seq<RadioEvent>|
                e_scan == e1 + pre1 + seq![RadioEvent::Scanned(raw_views)] && assoc_count(pre1)
                    == 0;
            let pre = e1.skip(old(self).events().len() as int) + pre1;
            assert(old(self).events() + e1.skip(old(self).events().len() as int) =~= e1);
            if e1 != old(self).events() {
                assert(e1.drop_last() =~= old(self).events());
            }
            lemma_assoc_count_quiet(old(self).events(), e1);
            lemma_assoc_count_app(old(self).events(), e1.skip(old(self).events().len() as int));
            lemma_assoc_count_app(e1.skip(old(self).events().len() as int), pre1);
            assert(old(self).events() + pre =~= e1 + pre1);
            assert(e_scan =~= old(self).events() + pre + seq![RadioEvent::Scanned(raw_views)]);
            assert(assoc_count(pre) == 0);
        }
        let ghost aps_vals = aps@;
        let sorted = sort_by_signal(aps);
        let matched = match_saved(&sorted, &creds_snapshot);
        let ghost base = old(self).events();
        let ghost pre_g = e_scan.subrange(base.len() as int, e_scan.len() - 1);
        proof {
            assert(e_scan =~= base + pre_g + seq![RadioEvent::Scanned(raw_views)]);
            let pre0 = choose|pre0: Seq<RadioEvent>|
                e_scan == base + pre0 + seq![RadioEvent::Scanned(raw_views)] && assoc_count(pre0)
                    == 0;
            assert(pre_g =~= pre0);
            assert(ap_side(self.configuration()) == ap_side(old(self).configuration()));
        }
        if matched.len() == 0 {
            proof {
                assert(self.events() =~= base + pre_g + seq![
                    RadioEvent::Scanned(raw_views),
                ] + Seq::<RadioEvent>::empty());
                let cv = creds_view(creds_snapshot@);
                assert(creds_view(matched@).len() == 0);
                assert(spec_matched(crate::radio::scan_view(sorted@), cv)
                    =~= Seq::<CredentialV>::empty());
                assert(attempts_trace(
                    Seq::<RadioEvent>::empty(),
                    spec_matched(crate::radio::scan_view(sorted@), cv),
                    retries as nat,
                    false,
                ));
                assert(Seq::<RadioEvent>::empty() + Seq::<RadioEvent>::empty()
                    =~= Seq::<RadioEvent>::empty());
            }
            return Ok(false);
        }
        let mut did = false;
        let mut idx: usize = 0;
        proof {
            assert(self.events().skip(e_scan.len() as int) =~= Seq::<RadioEvent>::empty());
            assert(creds_view(matched@).take(0) =~= Seq::<CredentialV>::empty());
        }
        while idx < matched.len()
            invariant
                self.manager() == old(self).manager(),
                e_scan.is_prefix_of(self.events()),
                did ==> self.connected() && self.started() && client_side(
                    self.configuration(),
                ) is Some,
                ap_side(self.configuration()) == ap_side(old(self).configuration()),
                base == old(self).events(),
                e_scan == base + pre_g + seq![RadioEvent::Scanned(raw_views)],
                assoc_count(pre_g) == 0,
                creds_view(creds_snapshot@) == old(self).creds(),
                creds_view(matched@) == spec_matched(
                    crate::radio::scan_view(sorted@),
                    creds_view(creds_snapshot@),
                ),
                matched@.len() > 0,
                idx <= matched@.len(),
                sorted_by_signal(sorted@),
                sorted@.to_multiset() == aps_vals.to_multiset(),
                forall|x: ScanResult| sorted@.contains(x) == aps_vals.contains(x),
                raw_views == crate::radio::scan_view(aps_vals),
                attempts_trace(
                    self.events().skip(e_scan.len() as int),
                    creds_view(matched@).take(idx as int),
                    retries as nat,
                    did,
                ),
            decreases matched.len() - idx,
        {
            let ghost prev = self.events();
            let ghost runs_prev = prev.skip(e_scan.len() as int);
            let cred = &matched[idx];
            let ghost cv_idx = creds_view(matched@)[idx as int];
            let res = self.connect(cred.ssid.as_str(), cred.psk.as_str(), None, None, retries);
            proof {
                let seg = self.events().skip(prev.len() as int);
                assert(prev + seg =~= self.events());
                assert(cv_idx == matched@[idx as int]@);
                assert(connect_segment(seg, cv_idx.ssid, cv_idx.psk, retries as nat, res is Ok));
                lemma_attempts_trace_push(
                    runs_prev,
                    creds_view(matched@).take(idx as int),
                    retries as nat,
                    did,
                    seg,
                    cv_idx,
                    res is Ok,
                );
                assert(e_scan + runs_prev =~= prev);
                assert(self.events().skip(e_scan.len() as int) =~= runs_prev + seg);
                assert(creds_view(matched@).take(idx + 1 as int) =~= creds_view(
                    matched@,
                ).take(idx as int).push(cv_idx));
                if res is Ok {
                } else if res matches Err(WifiError::Driver(_)) {
                    assert(ap_side(self.configuration()) == ap_side(old(self).configuration()));
                } else {
                    assert(res matches Err(WifiError::Validation(_)));
                }
            }
            did = res.is_ok();
            idx = idx + 1;
        }
        proof {
            assert(creds_view(matched@).take(matched@.len() as int) =~= creds_view(matched@));
            let cv = creds_view(creds_snapshot@);
            assert(creds_view(matched@).len() == matched@.len());
            lemma_matched_nonempty_iff(crate::radio::scan_view(sorted@), cv);
            lemma_has_match_same_members(sorted@, aps_vals, cv);
            assert(has_saved_match(raw_views, old(self).creds()));
        }
        if did {
            let ghost loop_end = self.events();
            let ghost runs = loop_end.skip(e_scan.len() as int);
            let ap_enabled = match self.is_ap_enabled() {
                Ok(b) => b,
                Err(e) => {
                    return Err(e);
                },
            };
            if ap_enabled {
                match self.switch_to_sta_only() {
                    Ok(_) => (),
                    Err(e) => {
                        return Err(e);
                    },
                }
            }
            proof {
                let tail = self.events().skip(loop_end.len() as int);
                assert(loop_end + tail =~= self.events());
                assert(e_scan + runs =~= loop_end);
                assert(self.events().skip(e_scan.len() as int) =~= runs + tail);
                assert(self.events() =~= base + pre_g + seq![
                    RadioEvent::Scanned(raw_views),
                ] + (runs + tail));
            }
            Ok(true)
        } else {
            proof {
                let runs = self.events().skip(e_scan.len() as int);
                assert(e_scan + runs =~= self.events());
                assert(self.events() =~= base + pre_g + seq![
                    RadioEvent::Scanned(raw_views),
                ] + runs);
                assert(runs + Seq::<RadioEvent>::empty() =~= runs);
            }
            Ok(false)
        }
    }

    /// Whether any credential is saved.
    pub fn has_saved_credentials(&mut self) -> (r: bool)
        ensures
            *final(self) == *old(self),
            r == (old(self).creds().len() != 0),
    {
        !self.config_manager.state().is_empty()
    }

    /// A snapshot of the saved credentials.
    pub fn saved_credentials(&mut self) -> (r: Result<Vec<Credential>, WifiError>)
        ensures
            *final(self) == *old(self),
            r matches Ok(v) && creds_view(v@) == old(self).creds(),
    {
        Ok(self.config_manager.state().all())
    }

    /// Saves a credential for later reconnection: the entry with the
    /// same (name, address) identity is replaced — its secret
    /// updated, the set's size unchanged — or a new entry is
    /// appended. The set is persisted through the state manager; on
    /// a persist failure the in-memory set still holds the change and
    /// the store is untouched.
    pub fn save_ap_credential(&mut self, ssid: &str, psk: &str, bssid: [u8; 6]) -> (r: Result<
        (),
        WifiError,
    >)
        requires
            old(self).wf(),
        ensures
            final(self).wf(),
            final(self).configuration() == old(self).configuration(),
            final(self).started() == old(self).started(),
            final(self).connected() == old(self).connected(),
            final(self).events() == old(self).events(),
            final(self).creds() == spec_saved(
                old(self).creds(),
                CredentialV { ssid: ssid@, psk: psk@, bssid: bssid@ },
            ),
            r is Ok ==> final(self).manager().in_sync(),
            r is Err ==> final(self).manager().store_contents() == old(
                self,
            ).manager().store_contents(),
            r is Err ==> (r matches Err(WifiError::Storage(_))),
    {
        let cred = Credential::new(ssid, psk, bssid);
        let outcome = self.config_manager.update_state(
            (|current: &WifiState| -> (next: WifiState)
                requires
                    state_inv(current@),
                ensures
                    next@ == spec_saved(current@, cred@) && state_inv(next@),
                { current.with_credential(&cred) }),
        );
        match outcome {
            Ok(()) => Ok(()),
            Err(e) => Err(WifiError::Storage(e)),
        }
    }

    /// Forgets saved credentials by the broad rule: with an address,
    /// every entry whose name matches *or* whose address matches is
    /// removed; without one, every entry with the name. The set is
    /// persisted through the state manager, with the same failure
    /// semantics as saving.
    pub fn forget_ap(&mut self, ssid: &str, bssid: Option<[u8; 6]>) -> (r: Result<(), WifiError>)
        requires
            old(self).wf(),
        ensures
            final(self).wf(),
            final(self).configuration() == old(self).configuration(),
            final(self).started() == old(self).started(),
            final(self).connected() == old(self).connected(),
            final(self).events() == old(self).events(),
            final(self).creds() == spec_forgotten(old(self).creds(), ssid@, bssid_view(bssid)),
            r is Ok ==> final(self).manager().in_sync(),
            r is Err ==> final(self).manager().store_contents() == old(
                self,
            ).manager().store_contents(),
            r is Err ==> (r matches Err(WifiError::Storage(_))),
    {
        let outcome = self.config_manager.update_state(
            (|current: &WifiState| -> (next: WifiState)
                requires
                    state_inv(current@),
                ensures
                    next@ == spec_forgotten(current@, ssid@, bssid_view(bssid)) && state_inv(
                        next@,
                    ),
                { current.without(ssid, bssid) }),
        );
        match outcome {
            Ok(()) => Ok(()),
            Err(e) => Err(WifiError::Storage(e)),
        }
    }
}

/// After forgetting a credential, whether the current association is
/// the one just forgotten and should therefore be re-evaluated: with
/// an address in the request, both the name and the address must
/// match the current network; without one, the name alone decides.
pub fn should_reconnect_after_forget(
    forgot_ssid: &str,
    forgot_bssid: Option<[u8; 6]>,
    current_ssid: &str,
    current_bssid: [u8; 6],
) -> (r: bool)
    ensures
        r == match forgot_bssid {
            Some(hw) => hw@ == current_bssid@ && forgot_ssid@ == current_ssid@,
            None => forgot_ssid@ == current_ssid@,
        },
{
    let ssid_eq = forgot_ssid.to_owned() == current_ssid.to_owned();
    match forgot_bssid {
        Some(hw) => {
            let hw_eq = hw[0] == current_bssid[0] && hw[1] == current_bssid[1] && hw[2]
                == current_bssid[2] && hw[3] == current_bssid[3] && hw[4] == current_bssid[4]
                && hw[5] == current_bssid[5];
            proof {
                if hw_eq {
                    assert(hw@ =~= current_bssid@);
                }
            }
            hw_eq && ssid_eq
        },
        None => ssid_eq,
    }
}

/// Whether some scanned network has a saved credential match.
pub open spec fn has_saved_match(
    aps: Seq<crate::radio::ScanResultV>,
    creds: Seq<CredentialV>,
) -> bool {
    exists|i: int| 0 <= i < aps.len() && spec_first_match(creds, #[trigger] aps[i]) is Some
}

/// The trace of the reconnection loop: one connect segment per
/// credential, in the given order, the flag being the last segment's
/// outcome — a later attempt overwrites an earlier one's. With no
/// credentials nothing is done and the flag is down.
pub open spec fn attempts_trace(
    events: Seq<RadioEvent>,
    attempts: Seq<CredentialV>,
    retries: nat,
    flag: bool,
) -> bool
    decreases attempts.len(),
{
    if attempts.len() == 0 {
        events == Seq::<RadioEvent>::empty() && !flag
    } else {
        exists|seg: Seq<RadioEvent>, rest: Seq<RadioEvent>, ok: bool|
            events == seg + rest && connect_segment(
                seg,
                attempts[0].ssid,
                attempts[0].psk,
                retries,
                ok,
            ) && if attempts.len() == 1 {
                rest == Seq::<RadioEvent>::empty() && flag == ok
            } else {
                attempts_trace(rest, attempts.drop_first(), retries, flag)
            }
    }
}

/// Extending a loop trace by one more credential's segment: the new
/// segment's outcome becomes the flag.
proof fn lemma_attempts_trace_push(
    events: Seq<RadioEvent>,
    attempts: Seq<CredentialV>,
    retries: nat,
    flag: bool,
    seg: Seq<RadioEvent>,
    c: CredentialV,
    ok: bool,
)
    requires
        attempts_trace(events, attempts, retries, flag),
        connect_segment(seg, c.ssid, c.psk, retries, ok),
    ensures
        attempts_trace(events + seg, attempts.push(c), retries, ok),
    decreases attempts.len(),
{
    let whole = attempts.push(c);
    if attempts.len() == 0 {
        assert(events + seg =~= seg);
        assert(whole[0] == c);
        assert(seg + Seq::<RadioEvent>::empty() =~= seg);
        assert(events + seg == seg + Seq::<RadioEvent>::empty());
        assert(attempts_trace(events + seg, whole, retries, ok));
    } else {
        let (seg0, rest0, ok0) = choose|seg0: Seq<RadioEvent>, rest0: Seq<RadioEvent>, ok0: bool|
            events == seg0 + rest0 && connect_segment(
                seg0,
                attempts[0].ssid,
                attempts[0].psk,
                retries,
                ok0,
            ) && if attempts.len() == 1 {
                rest0 == Seq::<RadioEvent>::empty() && flag == ok0
            } else {
                attempts_trace(rest0, attempts.drop_first(), retries, flag)
            };
        assert(events + seg =~= seg0 + (rest0 + seg));
        assert(whole[0] == attempts[0]);
        assert(whole.drop_first() =~= attempts.drop_first().push(c));
        if attempts.len() == 1 {
            assert(rest0 + seg =~= seg);
            assert(attempts.drop_first() =~= Seq::<CredentialV>::empty());
            assert(attempts_trace(Seq::<RadioEvent>::empty(), attempts.drop_first(), retries, false));
            lemma_attempts_trace_push(
                Seq::<RadioEvent>::empty(),
                attempts.drop_first(),
                retries,
                false,
                seg,
                c,
                ok,
            );
            assert(Seq::<RadioEvent>::empty() + seg =~= rest0 + seg);
            assert(attempts_trace(rest0 + seg, whole.drop_first(), retries, ok));
            assert(attempts_trace(events + seg, whole, retries, ok));
        } else {
            lemma_attempts_trace_push(rest0, attempts.drop_first(), retries, flag, seg, c, ok);
            assert(attempts_trace(rest0 + seg, whole.drop_first(), retries, ok));
            assert(attempts_trace(events + seg, whole, retries, ok));
        }
    }
}

/// A nonempty attempt list and a matching scanned network come to
/// the same thing.
proof fn lemma_matched_nonempty_iff(aps: Seq<crate::radio::ScanResultV>, creds: Seq<CredentialV>)
    ensures
        (spec_matched(aps, creds).len() > 0) == has_saved_match(aps, creds),
    decreases aps.len(),
{
    if aps.len() > 0 {
        lemma_matched_nonempty_iff(aps.drop_first(), creds);
        match spec_first_match(creds, aps[0]) {
            Some(c) => {
                assert(spec_first_match(creds, aps[0]) is Some);
                assert(has_saved_match(aps, creds));
            },
            None => {
                assert(spec_matched(aps, creds) == spec_matched(aps.drop_first(), creds));
                if has_saved_match(aps, creds) {
                    let i = choose|i: int|
                        0 <= i < aps.len() && spec_first_match(creds, #[trigger] aps[i]) is Some;
                    assert(i != 0);
                    assert(aps.drop_first()[i - 1] == aps[i]);
                    assert(has_saved_match(aps.drop_first(), creds));
                }
                if has_saved_match(aps.drop_first(), creds) {
                    let j = choose|j: int|
                        0 <= j < aps.drop_first().len() && spec_first_match(
                            creds,
                            #[trigger] aps.drop_first()[j],
                        ) is Some;
                    assert(aps[j + 1] == aps.drop_first()[j]);
                    assert(has_saved_match(aps, creds));
                }
            },
        }
    }
}

/// Two reports with the same entries agree on whether anything saved
/// matches.
proof fn lemma_has_match_same_members(
    a: Seq<ScanResult>,
    b: Seq<ScanResult>,
    creds: Seq<CredentialV>,
)
    requires
        forall|x: ScanResult| a.contains(x) == b.contains(x),
    ensures
        has_saved_match(crate::radio::scan_view(a), creds) == has_saved_match(
            crate::radio::scan_view(b),
            creds,
        ),
{
    let av = crate::radio::scan_view(a);
    let bv = crate::radio::scan_view(b);
    if has_saved_match(av, creds) {
        let i = choose|i: int| 0 <= i < av.len() && spec_first_match(creds, #[trigger] av[i]) is Some;
        let x = a[i];
        assert(a.contains(x));
        assert(b.contains(x));
        let j = choose|j: int| 0 <= j < b.len() && b[j] == x;
        assert(bv[j] == av[i]);
        assert(has_saved_match(bv, creds));
    }
    if has_saved_match(bv, creds) {
        let j = choose|j: int| 0 <= j < bv.len() && spec_first_match(creds, #[trigger] bv[j]) is Some;
        let x = b[j];
        assert(b.contains(x));
        assert(a.contains(x));
        let i = choose|i: int| 0 <= i < a.len() && a[i] == x;
        assert(av[i] == bv[j]);
        assert(has_saved_match(av, creds));
    }
}

/// Scan entries ordered by ascending signal strength.
pub open spec fn sorted_by_signal(s: Seq<ScanResult>) -> bool {
    forall|i: int, j: int|
        #![trigger s[i], s[j]]
        0 <= i < j < s.len() ==> s[i].signal_strength <= s[j].signal_strength
}

/// Sorts scan entries by ascending signal strength. The result is a
/// permutation of the input.
pub fn sort_by_signal(v: Vec<ScanResult>) -> (r: Vec<ScanResult>)
    ensures
        sorted_by_signal(r@),
        r@.to_multiset() == v@.to_multiset(),
        r@.len() == v@.len(),
        forall|x: ScanResult| r@.contains(x) == v@.contains(x),
{
    broadcast use vstd::seq_lib::group_to_multiset_ensures;

    let mut rest = v;
    let mut out: Vec<ScanResult> = Vec::new();
    while rest.len() > 0
        invariant
            out@.to_multiset().add(rest@.to_multiset()) == v@.to_multiset(),
            sorted_by_signal(out@),
            forall|i: int, j: int|
                0 <= i < out@.len() && 0 <= j < rest@.len() ==> #[trigger] out@[i].signal_strength
                    <= #[trigger] rest@[j].signal_strength,
        decreases rest.len(),
    {
        let n = rest.len();
        let mut m: usize = 0;
        let mut k: usize = 1;
        while k < n
            invariant
                n == rest@.len(),
                n > 0,
                m < k <= n,
                forall|t: int|
                    0 <= t < k ==> rest@[m as int].signal_strength <= #[trigger] rest@[t].signal_strength,
            decreases n - k,
        {
            if rest[k].signal_strength < rest[m].signal_strength {
                m = k;
            }
            k = k + 1;
        }
        let ghost rest0 = rest@;
        let ghost out0 = out@;
        let x = rest.remove(m);
        proof {
            rest0.to_multiset_ensures();
            rest0.remove_ensures(m as int);
            assert(rest0.contains(x));
            assert(rest0.to_multiset().count(x) > 0);
            assert(rest@.to_multiset() == rest0.to_multiset().remove(x));
        }
        out.push(x);
        proof {
            out0.to_multiset_ensures();
            assert(out@.to_multiset() == out0.to_multiset().insert(x));
            assert(out@.to_multiset().add(rest@.to_multiset()) =~= out0.to_multiset().add(
                rest0.to_multiset(),
            ));
            assert(sorted_by_signal(out@));
            assert forall|i: int, j: int|
                0 <= i < out@.len() && 0 <= j < rest@.len() implies #[trigger] out@[i].signal_strength
                <= #[trigger] rest@[j].signal_strength by {
                if j < m {
                    assert(rest@[j] == rest0[j]);
                } else {
                    assert(rest@[j] == rest0[j + 1]);
                }
            }
        }
    }
    proof {
        rest@.to_multiset_ensures();
        out@.to_multiset_ensures();
        v@.to_multiset_ensures();
        assert forall|x: ScanResult| rest@.to_multiset().count(x) == 0 by {
            if rest@.to_multiset().count(x) > 0 {
                assert(rest@.contains(x));
            }
        }
        assert(rest@.to_multiset() =~= Multiset::<ScanResult>::empty());
        assert(out@.to_multiset() =~= v@.to_multiset());
        assert forall|x: ScanResult| out@.contains(x) == v@.contains(x) by {
            assert(out@.contains(x) <==> out@.to_multiset().count(x) > 0);
            assert(v@.contains(x) <==> v@.to_multiset().count(x) > 0);
        }
    }
    out
}

/// Whether a saved credential names the scanned network: same name,
/// same hardware address.
pub open spec fn cred_matches_ap(c: CredentialV, ap: crate::radio::ScanResultV) -> bool {
    c.ssid == ap.ssid && c.bssid == ap.bssid
}

/// The first saved credential naming the scanned network, if any.
pub open spec fn spec_first_match(
    creds: Seq<CredentialV>,
    ap: crate::radio::ScanResultV,
) -> Option<CredentialV>
    decreases creds.len(),
{
    if creds.len() == 0 {
        None
    } else if cred_matches_ap(creds[0], ap) {
        Some(creds[0])
    } else {
        spec_first_match(creds.drop_first(), ap)
    }
}

/// The credentials to attempt, one per scanned network with a saved
/// match, in the scanned order.
pub open spec fn spec_matched(
    aps: Seq<crate::radio::ScanResultV>,
    creds: Seq<CredentialV>,
) -> Seq<CredentialV>
    decreases aps.len(),
{
    if aps.len() == 0 {
        Seq::empty()
    } else {
        match spec_first_match(creds, aps[0]) {
            Some(c) => seq![c] + spec_matched(aps.drop_first(), creds),
            None => spec_matched(aps.drop_first(), creds),
        }
    }
}

/// Skipping prefix entries that do not match leaves the first match.
proof fn lemma_first_match_skip(
    creds: Seq<CredentialV>,
    ap: crate::radio::ScanResultV,
    i: int,
)
    requires
        0 <= i <= creds.len(),
        forall|t: int| 0 <= t < i ==> !cred_matches_ap(#[trigger] creds[t], ap),
    ensures
        spec_first_match(creds, ap) == spec_first_match(creds.skip(i), ap),
    decreases i,
{
    if i > 0 {
        lemma_first_match_skip(creds, ap, i - 1);
        assert(creds.skip(i - 1)[0] == creds[i - 1]);
        assert(creds.skip(i - 1).drop_first() =~= creds.skip(i));
    } else {
        assert(creds.skip(0) =~= creds);
    }
}

/// The first saved credential naming the scanned network, copied out.
fn first_matching(creds: &Vec<Credential>, ap: &ScanResult) -> (r: Option<Credential>)
    ensures
        match r {
            Some(c) => spec_first_match(creds_view(creds@), ap@) == Some(c@),
            None => spec_first_match(creds_view(creds@), ap@) is None,
        },
{
    let n = creds.len();
    let mut i: usize = 0;
    while i < n
        invariant
            i <= n,
            n == creds@.len(),
            forall|t: int| 0 <= t < i ==> !cred_matches_ap(#[trigger] creds_view(creds@)[t], ap@),
        decreases n - i,
    {
        let c = &creds[i];
        let addr_eq = c.bssid[0] == ap.bssid[0] && c.bssid[1] == ap.bssid[1] && c.bssid[2]
            == ap.bssid[2] && c.bssid[3] == ap.bssid[3] && c.bssid[4] == ap.bssid[4] && c.bssid[5]
            == ap.bssid[5];
        proof {
            if addr_eq {
                assert(c.bssid@ =~= ap.bssid@);
            }
        }
        if c.ssid == ap.ssid && addr_eq {
            proof {
                lemma_first_match_skip(creds_view(creds@), ap@, i as int);
                assert(creds_view(creds@).skip(i as int)[0] == creds_view(creds@)[i as int]);
                assert(cred_matches_ap(creds_view(creds@)[i as int], ap@));
            }
            return Some(c.clone());
        }
        proof {
            assert(creds_view(creds@)[i as int] == creds@[i as int]@);
        }
        i = i + 1;
    }
    proof {
        lemma_first_match_skip(creds_view(creds@), ap@, n as int);
        assert(creds_view(creds@).skip(n as int) =~= Seq::<CredentialV>::empty());
    }
    None
}

/// The credentials to attempt for the given scan report, in order.
pub fn match_saved(aps: &Vec<ScanResult>, creds: &Vec<Credential>) -> (r: Vec<Credential>)
    ensures
        creds_view(r@) == spec_matched(crate::radio::scan_view(aps@), creds_view(creds@)),
{
    let ghost av = crate::radio::scan_view(aps@);
    let ghost cv = creds_view(creds@);
    let n = aps.len();
    let mut out: Vec<Credential> = Vec::new();
    let mut i: usize = 0;
    proof {
        assert(av.skip(0) =~= av);
    }
    while i < n
        invariant
            i <= n,
            n == aps@.len(),
            av == crate::radio::scan_view(aps@),
            cv == creds_view(creds@),
            creds_view(out@) + spec_matched(av.skip(i as int), cv) == spec_matched(av, cv),
        decreases n - i,
    {
        proof {
            assert(av.skip(i as int)[0] == aps@[i as int]@);
            assert(av.skip(i as int).drop_first() =~= av.skip(i + 1 as int));
        }
        match first_matching(creds, &aps[i]) {
            Some(c) => {
                proof {
                    assert(spec_matched(av.skip(i as int), cv) == seq![c@] + spec_matched(
                        av.skip(i + 1 as int),
                        cv,
                    ));
                    assert(creds_view(out@.push(c)) =~= creds_view(out@).push(c@));
                    assert(creds_view(out@).push(c@) + spec_matched(av.skip(i + 1 as int), cv)
                        =~= creds_view(out@) + spec_matched(av.skip(i as int), cv));
                }
                out.push(c);
            },
            None => {
                proof {
                    assert(spec_matched(av.skip(i as int), cv) == spec_matched(
                        av.skip(i + 1 as int),
                        cv,
                    ));
                }
            },
        }
        i = i + 1;
    }
    proof {
        assert(av.skip(n as int) =~= Seq::<crate::radio::ScanResultV>::empty());
        assert(creds_view(out@) + Seq::<CredentialV>::empty() =~= creds_view(out@));
    }
    out
}

/// The client parameters installed when scanning needs a client side
/// and none is configured.
fn default_client_params() -> (r: ClientParams)
    ensures
        r.bssid is None,
        r.channel is None,
{
    ClientParams {
        ssid: String::new(),
        psk: String::new(),
        auth: AuthMethod::WpaWpa2Personal,
        bssid: None,
        channel: None,
    }
}

/// Attempt counts of one- and two-event traces.
proof fn lemma_assoc_count_small(e1: RadioEvent, e2: RadioEvent)
    ensures
        assoc_count(seq![e1]) == (match e1 {
            RadioEvent::AssociationTried(_) => 1nat,
            _ => 0nat,
        }),
        assoc_count(seq![e1, e2]) == (match e1 {
            RadioEvent::AssociationTried(_) => 1nat,
            _ => 0nat,
        }) + (match e2 {
            RadioEvent::AssociationTried(_) => 1nat,
            _ => 0nat,
        }),
{
    assert(assoc_count(Seq::<RadioEvent>::empty()) == 0);
    assert(seq![e1].drop_last() =~= Seq::<RadioEvent>::empty());
    assert(seq![e1].last() == e1);
    assert(assoc_count(seq![e1]) == assoc_count(Seq::<RadioEvent>::empty()) + (match e1 {
        RadioEvent::AssociationTried(_) => 1nat,
        _ => 0nat,
    }));
    assert(seq![e1, e2].drop_last() =~= seq![e1]);
    assert(seq![e1, e2].last() == e2);
    assert(assoc_count(seq![e1, e2]) == assoc_count(seq![e1]) + (match e2 {
        RadioEvent::AssociationTried(_) => 1nat,
        _ => 0nat,
    }));
}

/// Splitting a trace splits its attempt count.
pub proof fn lemma_assoc_count_app(a: Seq<RadioEvent>, b: Seq<RadioEvent>)
    ensures
        assoc_count(a + b) == assoc_count(a) + assoc_count(b),
    decreases b.len(),
{
    if b.len() == 0 {
        assert(a + b =~= a);
    } else {
        assert((a + b).drop_last() =~= a + b.drop_last());
        lemma_assoc_count_app(a, b.drop_last());
        assert(assoc_count(a + b) == assoc_count((a + b).drop_last()) + match (a + b).last() {
            RadioEvent::AssociationTried(_) => 1nat,
            _ => 0nat,
        });
    }
}

/// A failure run of `k` attempts records exactly `k` attempts.
pub proof fn lemma_assoc_count_fail_run(k: nat)
    ensures
        assoc_count(fail_run(k)) == k,
    decreases k,
{
    if k > 0 {
        lemma_assoc_count_fail_run((k - 1) as nat);
        lemma_assoc_count_app(
            fail_run((k - 1) as nat),
            seq![RadioEvent::AssociationTried(false), RadioEvent::Slept(RETRY_PAUSE_MS)],
        );
        lemma_assoc_count_small(
            RadioEvent::AssociationTried(false),
            RadioEvent::Slept(RETRY_PAUSE_MS),
        );
    }
}

/// A trace extended by anything but an association attempt keeps its
/// attempt count.
proof fn lemma_assoc_count_quiet(before: Seq<RadioEvent>, after: Seq<RadioEvent>)
    requires
        after == before || (after.len() == before.len() + 1 && after.drop_last() == before && !(
        after.last() is AssociationTried)),
    ensures
        assoc_count(after) == assoc_count(before),
{
}

/// The retry loop's possible suffixes never exceed the budget.
proof fn lemma_assoc_count_retry_suffix(before: Seq<RadioEvent>, after: Seq<RadioEvent>, budget: nat)
    requires
        (exists|k: nat|
            k <= budget && after == before + fail_run(k) + seq![
                RadioEvent::AssociationTried(true),
                RadioEvent::InterfaceAwaited,
            ]) || after == before + fail_run(budget) + seq![RadioEvent::AssociationTried(false)],
    ensures
        assoc_count(after) <= assoc_count(before) + budget + 1,
{
    if exists|k: nat|
        k <= budget && after == before + fail_run(k) + seq![
            RadioEvent::AssociationTried(true),
            RadioEvent::InterfaceAwaited,
        ] {
        let k = choose|k: nat|
            k <= budget && after == before + fail_run(k) + seq![
                RadioEvent::AssociationTried(true),
                RadioEvent::InterfaceAwaited,
            ];
        lemma_assoc_count_app(before, fail_run(k));
        lemma_assoc_count_app(
            before + fail_run(k),
            seq![RadioEvent::AssociationTried(true), RadioEvent::InterfaceAwaited],
        );
        lemma_assoc_count_fail_run(k);
        lemma_assoc_count_small(RadioEvent::AssociationTried(true), RadioEvent::InterfaceAwaited);
    } else {
        lemma_assoc_count_app(before, fail_run(budget));
        lemma_assoc_count_app(
            before + fail_run(budget),
            seq![RadioEvent::AssociationTried(false)],
        );
        lemma_assoc_count_fail_run(budget);
        lemma_assoc_count_small(RadioEvent::AssociationTried(false), RadioEvent::Stopped);
    }
}

} // verus!
