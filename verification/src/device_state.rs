//! The device settings domain: SMS notification settings and the
//! daily activation window, persisted as one configuration value, and
//! a service of typed accessors and mutators over a state manager.

use vstd::prelude::*;

use crate::codec::{
    lemma_dec_text_fits, lemma_text_round_trip, lemma_u64_round_trip, push_text, push_u64, push_u8,
    read_text, read_u64, read_u8, spec_dec_text, spec_dec_u8, spec_dec_u64, spec_enc_text,
    spec_enc_u8, spec_enc_u64, text_fits,
};
use crate::errors::StorageError;
use crate::manager::{delivery_round, PersistentStateManager, Subscriber};
use crate::storage::{ConfigValue, Storage};

verus! {

/// Whether the device is waiting to be provisioned or has joined a
/// network.
#[derive(Clone, Copy, PartialEq, Eq, Structural, Debug)]
pub enum Mode {
    /// Waiting for provisioning over the local access point.
    Pair,
    /// Joined to a provisioned network.
    Connected,
}

impl Default for Mode {
    /// A fresh device waits to be paired.
    fn default() -> (r: Mode)
        ensures
            r == Mode::Pair,
    {
        Mode::Pair
    }
}

/// A time of day with second precision.
#[derive(Clone, Copy, PartialEq, Eq, Structural, Debug)]
pub struct TimeOfDay {
    /// The hour, below 24.
    pub hour: u8,
    /// The minute, below 60.
    pub minute: u8,
    /// The second, below 60.
    pub second: u8,
}

/// Validity of a time of day.
pub open spec fn time_wf(t: TimeOfDay) -> bool {
    t.hour < 24 && t.minute < 60 && t.second < 60
}

/// A time of day as seconds since midnight.
pub open spec fn spec_seconds(t: TimeOfDay) -> int {
    t.hour * 3600 + t.minute * 60 + t.second
}

impl TimeOfDay {
    /// A time of day, if the parts are in range.
    pub fn new(hour: u8, minute: u8, second: u8) -> (r: Option<TimeOfDay>)
        ensures
            hour < 24 && minute < 60 && second < 60 ==> r == Some(
                TimeOfDay { hour, minute, second },
            ),
            !(hour < 24 && minute < 60 && second < 60) ==> r is None,
    {
        if hour < 24 && minute < 60 && second < 60 {
            Some(TimeOfDay { hour, minute, second })
        } else {
            None
        }
    }

    /// Midnight.
    pub fn midnight() -> (r: TimeOfDay)
        ensures
            r == (TimeOfDay { hour: 0u8, minute: 0u8, second: 0u8 }),
    {
        TimeOfDay { hour: 0, minute: 0, second: 0 }
    }

    /// Seconds since midnight.
    pub fn total_seconds(&self) -> (r: u32)
        ensures
            r == spec_seconds(*self),
    {
        self.hour as u32 * 3600 + self.minute as u32 * 60 + self.second as u32
    }
}

/// Whether `now` falls in the daily activation window. A window whose
/// start lies before its end covers the hours between the two; one
/// whose start lies at or after its end wraps around midnight and
/// covers everything outside the gap. A missing end means midnight.
pub fn is_active(start: &TimeOfDay, end: Option<&TimeOfDay>, now: &TimeOfDay) -> (r: bool)
    ensures
        ({
            let e = match end {
                Some(t) => *t,
                None => TimeOfDay { hour: 0u8, minute: 0u8, second: 0u8 },
            };
            r == if spec_seconds(*start) < spec_seconds(e) {
                spec_seconds(*now) >= spec_seconds(*start) && spec_seconds(*now) <= spec_seconds(e)
            } else {
                spec_seconds(*now) >= spec_seconds(*start) || spec_seconds(*now) <= spec_seconds(e)
            }
        }),
{
    let end_time = match end {
        Some(t) => *t,
        None => TimeOfDay { hour: 0, minute: 0, second: 0 },
    };
    let s = start.total_seconds();
    let e = end_time.total_seconds();
    let n = now.total_seconds();
    if s < e {
        n >= s && n <= e
    } else {
        n >= s || n <= e
    }
}

/// The persisted device settings.
pub struct DeviceState {
    /// Where notification texts are sent.
    pub sms_send_phone_number: Option<String>,
    /// The shortest allowed gap between texts, in milliseconds.
    pub sms_send_throttle: u64,
    /// The sending phone number of the messaging account.
    pub sms_send_twilio_phone_number: Option<String>,
    /// The messaging account identifier.
    pub sms_send_twilio_account_sid: Option<String>,
    /// The messaging account token.
    pub sms_send_twilio_auth_token: Option<String>,
    /// When the daily activation window opens.
    pub activation_time_start: TimeOfDay,
    /// When the daily activation window closes; midnight if absent.
    pub activation_time_end: Option<TimeOfDay>,
}

/// The mathematical view of the device settings.
pub struct DeviceStateV {
    /// Where notification texts are sent.
    pub phone: Option<Seq<char>>,
    /// The shortest allowed gap between texts, in milliseconds.
    pub throttle: u64,
    /// The sending phone number of the messaging account.
    pub twilio_phone: Option<Seq<char>>,
    /// The messaging account identifier.
    pub account_sid: Option<Seq<char>>,
    /// The messaging account token.
    pub auth_token: Option<Seq<char>>,
    /// When the daily activation window opens.
    pub start: TimeOfDay,
    /// When the daily activation window closes; midnight if absent.
    pub end: Option<TimeOfDay>,
}

/// The view of optional text.
pub open spec fn opt_text_view(o: Option<String>) -> Option<Seq<char>> {
    match o {
        Some(s) => Some(s@),
        None => None,
    }
}

impl View for DeviceState {
    type V = DeviceStateV;

    open spec fn view(&self) -> DeviceStateV {
        DeviceStateV {
            phone: opt_text_view(self.sms_send_phone_number),
            throttle: self.sms_send_throttle,
            twilio_phone: opt_text_view(self.sms_send_twilio_phone_number),
            account_sid: opt_text_view(self.sms_send_twilio_account_sid),
            auth_token: opt_text_view(self.sms_send_twilio_auth_token),
            start: self.activation_time_start,
            end: self.activation_time_end,
        }
    }
}

/// Optional text that fits the record format.
pub open spec fn opt_text_fits(o: Option<Seq<char>>) -> bool {
    match o {
        Some(s) => text_fits(s),
        None => true,
    }
}

/// Validity of device settings.
pub open spec fn device_state_inv(v: DeviceStateV) -> bool {
    &&& opt_text_fits(v.phone)
    &&& opt_text_fits(v.twilio_phone)
    &&& opt_text_fits(v.account_sid)
    &&& opt_text_fits(v.auth_token)
    &&& time_wf(v.start)
    &&& match v.end {
        Some(t) => time_wf(t),
        None => true,
    }
}

// ----------------------------------------------------------------
// record format for the device settings
// ----------------------------------------------------------------
/// Spec encoding of optional text: a presence byte, then the text.
pub open spec fn spec_enc_opt_text(o: Option<Seq<char>>) -> Seq<u8> {
    match o {
        None => spec_enc_u8(0),
        Some(s) => spec_enc_u8(1) + spec_enc_text(s),
    }
}

/// Spec decoder for optional text at `pos`.
pub open spec fn spec_dec_opt_text(b: Seq<u8>, pos: int) -> Option<(Option<Seq<char>>, int)> {
    match spec_dec_u8(b, pos) {
        None => None,
        Some((tag, p)) => if tag == 0 {
            Some((None, p))
        } else if tag == 1 {
            match spec_dec_text(b, p) {
                Some((s, p2)) => Some((Some(s), p2)),
                None => None,
            }
        } else {
            None
        },
    }
}

/// Spec encoding of a time of day: hour, minute, second.
pub open spec fn spec_enc_time(t: TimeOfDay) -> Seq<u8> {
    seq![t.hour, t.minute, t.second]
}

/// Spec decoder for a time of day at `pos`; out-of-range parts make
/// the record undecodable.
pub open spec fn spec_dec_time(b: Seq<u8>, pos: int) -> Option<(TimeOfDay, int)> {
    if 0 <= pos && pos + 3 <= b.len() {
        let t = TimeOfDay { hour: b[pos], minute: b[pos + 1], second: b[pos + 2] };
        if time_wf(t) {
            Some((t, pos + 3))
        } else {
            None
        }
    } else {
        None
    }
}

/// Spec encoding of an optional time of day.
pub open spec fn spec_enc_opt_time(o: Option<TimeOfDay>) -> Seq<u8> {
    match o {
        None => spec_enc_u8(0),
        Some(t) => spec_enc_u8(1) + spec_enc_time(t),
    }
}

/// Spec decoder for an optional time of day at `pos`.
pub open spec fn spec_dec_opt_time(b: Seq<u8>, pos: int) -> Option<(Option<TimeOfDay>, int)> {
    match spec_dec_u8(b, pos) {
        None => None,
        Some((tag, p)) => if tag == 0 {
            Some((None, p))
        } else if tag == 1 {
            match spec_dec_time(b, p) {
                Some((t, p2)) => Some((Some(t), p2)),
                None => None,
            }
        } else {
            None
        },
    }
}

/// Appends the encoding of optional text to `out`.
fn push_opt_text(out: &mut Vec<u8>, o: &Option<String>)
    ensures
        final(out)@ == old(out)@ + spec_enc_opt_text(opt_text_view(*o)),
{
    match o {
        None => {
            push_u8(out, 0);
        },
        Some(s) => {
            push_u8(out, 1);
            push_text(out, s.as_str());
            assert(out@ =~= old(out)@ + spec_enc_opt_text(opt_text_view(*o)));
        },
    }
}

/// Reads optional text at `pos`, as the spec decoder does.
fn read_opt_text(b: &[u8], pos: usize) -> (r: Option<(Option<String>, usize)>)
    ensures
        match r {
            Some((o, p)) => spec_dec_opt_text(b@, pos as int) == Some((opt_text_view(o), p as int))
                && opt_text_fits(opt_text_view(o)),
            None => spec_dec_opt_text(b@, pos as int) is None,
        },
{
    let (tag, p) = match read_u8(b, pos) {
        Some(t) => t,
        None => {
            return None;
        },
    };
    if tag == 0 {
        Some((None, p))
    } else if tag == 1 {
        match read_text(b, p) {
            Some((s, p2)) => {
                proof {
                    lemma_dec_text_fits(b@, p as int);
                }
                Some((Some(s), p2))
            },
            None => None,
        }
    } else {
        None
    }
}

/// Appends the encoding of a time of day to `out`.
fn push_time(out: &mut Vec<u8>, t: &TimeOfDay)
    ensures
        final(out)@ == old(out)@ + spec_enc_time(*t),
{
    push_u8(out, t.hour);
    push_u8(out, t.minute);
    push_u8(out, t.second);
    assert(out@ =~= old(out)@ + spec_enc_time(*t));
}

/// Reads a time of day at `pos`, as the spec decoder does.
fn read_time(b: &[u8], pos: usize) -> (r: Option<(TimeOfDay, usize)>)
    ensures
        match r {
            Some((t, p)) => spec_dec_time(b@, pos as int) == Some((t, p as int)) && time_wf(t),
            None => spec_dec_time(b@, pos as int) is None,
        },
{
    if pos <= b.len() && b.len() - pos >= 3 {
        let t = TimeOfDay { hour: b[pos], minute: b[pos + 1], second: b[pos + 2] };
        if t.hour < 24 && t.minute < 60 && t.second < 60 {
            Some((t, pos + 3))
        } else {
            None
        }
    } else {
        None
    }
}

/// Appends the encoding of an optional time of day to `out`.
fn push_opt_time(out: &mut Vec<u8>, o: &Option<TimeOfDay>)
    ensures
        final(out)@ == old(out)@ + spec_enc_opt_time(*o),
{
    match o {
        None => {
            push_u8(out, 0);
        },
        Some(t) => {
            push_u8(out, 1);
            push_time(out, t);
            assert(out@ =~= old(out)@ + spec_enc_opt_time(*o));
        },
    }
}

/// Reads an optional time of day at `pos`, as the spec decoder does.
fn read_opt_time(b: &[u8], pos: usize) -> (r: Option<(Option<TimeOfDay>, usize)>)
    ensures
        match r {
            Some((o, p)) => spec_dec_opt_time(b@, pos as int) == Some((o, p as int)) && match o {
                Some(t) => time_wf(t),
                None => true,
            },
            None => spec_dec_opt_time(b@, pos as int) is None,
        },
{
    let (tag, p) = match read_u8(b, pos) {
        Some(t) => t,
        None => {
            return None;
        },
    };
    if tag == 0 {
        Some((None, p))
    } else if tag == 1 {
        match read_time(b, p) {
            Some((t, p2)) => Some((Some(t), p2)),
            None => None,
        }
    } else {
        None
    }
}

/// Law: decoding encoded optional text yields it back.
proof fn lemma_opt_text_round_trip(o: Option<Seq<char>>, prefix: Seq<u8>, suffix: Seq<u8>)
    requires
        opt_text_fits(o),
    ensures
        spec_dec_opt_text(prefix + spec_enc_opt_text(o) + suffix, prefix.len() as int) == Some(
            (o, prefix.len() as int + spec_enc_opt_text(o).len()),
        ),
{
    let b = prefix + spec_enc_opt_text(o) + suffix;
    match o {
        None => {
            assert(b[prefix.len() as int] == 0);
        },
        Some(s) => {
            assert(b[prefix.len() as int] == 1);
            assert(b =~= (prefix + spec_enc_u8(1)) + spec_enc_text(s) + suffix);
            lemma_text_round_trip(s, prefix + spec_enc_u8(1), suffix);
        },
    }
}

/// Law: decoding an encoded valid time of day yields it back.
proof fn lemma_time_round_trip(t: TimeOfDay, prefix: Seq<u8>, suffix: Seq<u8>)
    requires
        time_wf(t),
    ensures
        spec_dec_time(prefix + spec_enc_time(t) + suffix, prefix.len() as int) == Some(
            (t, prefix.len() as int + 3),
        ),
{
    let b = prefix + spec_enc_time(t) + suffix;
    let n = prefix.len() as int;
    assert(b[n] == t.hour && b[n + 1] == t.minute && b[n + 2] == t.second);
}

/// Law: decoding an encoded optional valid time yields it back.
proof fn lemma_opt_time_round_trip(o: Option<TimeOfDay>, prefix: Seq<u8>, suffix: Seq<u8>)
    requires
        match o {
            Some(t) => time_wf(t),
            None => true,
        },
    ensures
        spec_dec_opt_time(prefix + spec_enc_opt_time(o) + suffix, prefix.len() as int) == Some(
            (o, prefix.len() as int + spec_enc_opt_time(o).len()),
        ),
{
    let b = prefix + spec_enc_opt_time(o) + suffix;
    match o {
        None => {
            assert(b[prefix.len() as int] == 0);
        },
        Some(t) => {
            assert(b[prefix.len() as int] == 1);
            assert(b =~= (prefix + spec_enc_u8(1)) + spec_enc_time(t) + suffix);
            lemma_time_round_trip(t, prefix + spec_enc_u8(1), suffix);
        },
    }
}

impl Default for DeviceState {
    /// A fresh device: no messaging settings, one text per minute at
    /// most, active from eight in the evening until midnight.
    fn default() -> (r: DeviceState)
        ensures
            r@ == DeviceState::spec_default(),
    {
        DeviceState {
            sms_send_phone_number: None,
            sms_send_throttle: 60_000,
            sms_send_twilio_phone_number: None,
            sms_send_twilio_account_sid: None,
            sms_send_twilio_auth_token: None,
            activation_time_start: TimeOfDay { hour: 20, minute: 0, second: 0 },
            activation_time_end: Some(TimeOfDay { hour: 0, minute: 0, second: 0 }),
        }
    }
}

impl ConfigValue for DeviceState {
    /// Valid settings: texts fit the record format, times are in
    /// range.
    open spec fn inv(v: DeviceStateV) -> bool {
        device_state_inv(v)
    }

    /// The fresh-device settings.
    open spec fn spec_default() -> DeviceStateV {
        DeviceStateV {
            phone: None,
            throttle: 60_000,
            twilio_phone: None,
            account_sid: None,
            auth_token: None,
            start: TimeOfDay { hour: 20u8, minute: 0u8, second: 0u8 },
            end: Some(TimeOfDay { hour: 0u8, minute: 0u8, second: 0u8 }),
        }
    }

    /// The record: the fields in declaration order.
    open spec fn spec_encoding(v: DeviceStateV) -> Seq<u8> {
        spec_enc_opt_text(v.phone) + spec_enc_u64(v.throttle) + spec_enc_opt_text(v.twilio_phone)
            + spec_enc_opt_text(v.account_sid) + spec_enc_opt_text(v.auth_token) + spec_enc_time(
            v.start,
        ) + spec_enc_opt_time(v.end)
    }

    /// The decoded record, if whole and in range.
    open spec fn spec_decoded(b: Seq<u8>) -> Option<DeviceStateV> {
        match spec_dec_opt_text(b, 0) {
            None => None,
            Some((phone, p1)) => match spec_dec_u64(b, p1) {
                None => None,
                Some((throttle, p2)) => match spec_dec_opt_text(b, p2) {
                    None => None,
                    Some((twilio_phone, p3)) => match spec_dec_opt_text(b, p3) {
                        None => None,
                        Some((account_sid, p4)) => match spec_dec_opt_text(b, p4) {
                            None => None,
                            Some((auth_token, p5)) => match spec_dec_time(b, p5) {
                                None => None,
                                Some((start, p6)) => match spec_dec_opt_time(b, p6) {
                                    None => None,
                                    Some((end, p7)) => if p7 == b.len() {
                                        Some(
                                            DeviceStateV {
                                                phone,
                                                throttle,
                                                twilio_phone,
                                                account_sid,
                                                auth_token,
                                                start,
                                                end,
                                            },
                                        )
                                    } else {
                                        None
                                    },
                                },
                            },
                        },
                    },
                },
            },
        }
    }

    proof fn lemma_default_inv() {
    }

    proof fn lemma_decoded_inv(b: Seq<u8>) {
        match spec_dec_opt_text(b, 0) {
            None => {},
            Some((phone, p1)) => {
                lemma_dec_opt_text_fits(b, 0);
                match spec_dec_u64(b, p1) {
                    None => {},
                    Some((throttle, p2)) => {
                        lemma_dec_opt_text_fits(b, p2);
                        match spec_dec_opt_text(b, p2) {
                            None => {},
                            Some((twilio_phone, p3)) => {
                                lemma_dec_opt_text_fits(b, p3);
                                match spec_dec_opt_text(b, p3) {
                                    None => {},
                                    Some((account_sid, p4)) => {
                                        lemma_dec_opt_text_fits(b, p4);
                                    },
                                }
                            },
                        }
                    },
                }
            },
        }
    }

    #[verifier::rlimit(100)]
    #[verifier::spinoff_prover]
    proof fn lemma_round_trip(v: DeviceStateV) {
        let e1 = spec_enc_opt_text(v.phone);
        let e2 = spec_enc_u64(v.throttle);
        let e3 = spec_enc_opt_text(v.twilio_phone);
        let e4 = spec_enc_opt_text(v.account_sid);
        let e5 = spec_enc_opt_text(v.auth_token);
        let e6 = spec_enc_time(v.start);
        let e7 = spec_enc_opt_time(v.end);
        let b = Self::spec_encoding(v);
        assert(b =~= Seq::<u8>::empty() + e1 + (e2 + e3 + e4 + e5 + e6 + e7));
        lemma_opt_text_round_trip(v.phone, Seq::empty(), e2 + e3 + e4 + e5 + e6 + e7);
        assert(b =~= (Seq::<u8>::empty() + e1) + e2 + (e3 + e4 + e5 + e6 + e7));
        lemma_u64_round_trip(v.throttle, Seq::<u8>::empty() + e1, e3 + e4 + e5 + e6 + e7);
        assert(b =~= (Seq::<u8>::empty() + e1 + e2) + e3 + (e4 + e5 + e6 + e7));
        lemma_opt_text_round_trip(v.twilio_phone, Seq::<u8>::empty() + e1 + e2, e4 + e5 + e6 + e7);
        assert(b =~= (Seq::<u8>::empty() + e1 + e2 + e3) + e4 + (e5 + e6 + e7));
        lemma_opt_text_round_trip(
            v.account_sid,
            Seq::<u8>::empty() + e1 + e2 + e3,
            e5 + e6 + e7,
        );
        assert(b =~= (Seq::<u8>::empty() + e1 + e2 + e3 + e4) + e5 + (e6 + e7));
        lemma_opt_text_round_trip(v.auth_token, Seq::<u8>::empty() + e1 + e2 + e3 + e4, e6 + e7);
        assert(b =~= (Seq::<u8>::empty() + e1 + e2 + e3 + e4 + e5) + e6 + e7);
        lemma_time_round_trip(v.start, Seq::<u8>::empty() + e1 + e2 + e3 + e4 + e5, e7);
        assert(b =~= (Seq::<u8>::empty() + e1 + e2 + e3 + e4 + e5 + e6) + e7
            + Seq::<u8>::empty());
        lemma_opt_time_round_trip(
            v.end,
            Seq::<u8>::empty() + e1 + e2 + e3 + e4 + e5 + e6,
            Seq::empty(),
        );
    }

    fn default_value() -> (r: Self) {
        DeviceState::default()
    }

    fn encode(&self) -> (r: Vec<u8>) {
        let mut out: Vec<u8> = Vec::new();
        push_opt_text(&mut out, &self.sms_send_phone_number);
        push_u64(&mut out, self.sms_send_throttle);
        push_opt_text(&mut out, &self.sms_send_twilio_phone_number);
        push_opt_text(&mut out, &self.sms_send_twilio_account_sid);
        push_opt_text(&mut out, &self.sms_send_twilio_auth_token);
        push_time(&mut out, &self.activation_time_start);
        push_opt_time(&mut out, &self.activation_time_end);
        assert(out@ =~= Self::spec_encoding(self@));
        out
    }

    fn decode(bytes: &[u8]) -> (r: Option<Self>) {
        let (phone, p1) = match read_opt_text(bytes, 0) {
            Some(t) => t,
            None => {
                return None;
            },
        };
        let (throttle, p2) = match read_u64(bytes, p1) {
            Some(t) => t,
            None => {
                return None;
            },
        };
        let (twilio_phone, p3) = match read_opt_text(bytes, p2) {
            Some(t) => t,
            None => {
                return None;
            },
        };
        let (account_sid, p4) = match read_opt_text(bytes, p3) {
            Some(t) => t,
            None => {
                return None;
            },
        };
        let (auth_token, p5) = match read_opt_text(bytes, p4) {
            Some(t) => t,
            None => {
                return None;
            },
        };
        let (start, p6) = match read_time(bytes, p5) {
            Some(t) => t,
            None => {
                return None;
            },
        };
        let (end, p7) = match read_opt_time(bytes, p6) {
            Some(t) => t,
            None => {
                return None;
            },
        };
        if p7 != bytes.len() {
            return None;
        }
        Some(
            DeviceState {
                sms_send_phone_number: phone,
                sms_send_throttle: throttle,
                sms_send_twilio_phone_number: twilio_phone,
                sms_send_twilio_account_sid: account_sid,
                sms_send_twilio_auth_token: auth_token,
                activation_time_start: start,
                activation_time_end: end,
            },
        )
    }
}

/// The view of optional borrowed text.
pub open spec fn opt_str_view(o: Option<&str>) -> Option<Seq<char>> {
    match o {
        Some(s) => Some(s@),
        None => None,
    }
}

/// An equal copy of optional text.
fn clone_opt_text(o: &Option<String>) -> (r: Option<String>)
    ensures
        r == *o,
{
    match o {
        Some(s) => Some(s.clone()),
        None => None,
    }
}

/// Owned, record-format-fitting copies of optional borrowed text.
fn opt_owned(o: Option<&str>) -> (r: Option<String>)
    ensures
        opt_text_view(r) == opt_str_view(o),
        opt_text_fits(opt_text_view(r)),
{
    match o {
        Some(s) => {
            // The character count witnesses that the text fits the
            // record format's 64-bit count.
            let chars = s.unicode_len();
            proof {
                assert(chars as nat == s@.len());
            }
            Some(s.to_owned())
        },
        None => None,
    }
}

impl Clone for DeviceState {
    /// An equal copy, field for field.
    fn clone(&self) -> (r: Self)
        ensures
            r == *self,
    {
        DeviceState {
            sms_send_phone_number: clone_opt_text(&self.sms_send_phone_number),
            sms_send_throttle: self.sms_send_throttle,
            sms_send_twilio_phone_number: clone_opt_text(&self.sms_send_twilio_phone_number),
            sms_send_twilio_account_sid: clone_opt_text(&self.sms_send_twilio_account_sid),
            sms_send_twilio_auth_token: clone_opt_text(&self.sms_send_twilio_auth_token),
            activation_time_start: self.activation_time_start,
            activation_time_end: self.activation_time_end,
        }
    }
}

/// The device settings service: typed accessors and mutators over a
/// persistent state manager for the settings domain.
pub struct DeviceStateService<S: Storage<DeviceState>, U: Subscriber<DeviceState>> {
    state_manager: PersistentStateManager<DeviceState, S, U>,
}

impl<S: Storage<DeviceState>, U: Subscriber<DeviceState>> DeviceStateService<S, U> {
    /// The settings currently held.
    pub closed spec fn settings(&self) -> DeviceStateV {
        self.state_manager.spec_state()@
    }

    /// The wrapped state manager.
    pub closed spec fn manager(&self) -> PersistentStateManager<DeviceState, S, U> {
        self.state_manager
    }

    /// The held settings are valid.
    pub open spec fn wf(&self) -> bool {
        self.manager().wf()
    }

    /// One committed mutation's notifications: each subscriber heard
    /// exactly once, in registration order, with the same (previous,
    /// new) pair.
    pub open spec fn notified_once(self, post: Self) -> bool {
        post.manager().deliveries() == self.manager().deliveries() + delivery_round(
            self.manager().spec_subscribers().len(),
            self.manager().spec_state(),
            post.manager().spec_state(),
        )
    }

    /// A service over the given state manager.
    pub fn new(state_manager: PersistentStateManager<DeviceState, S, U>) -> (r: Result<
        Self,
        StorageError,
    >)
        ensures
            r matches Ok(s) && s.manager() == state_manager,
    {
        Ok(DeviceStateService { state_manager })
    }

    /// Registers a callback for committed settings changes.
    pub fn subscribe(&mut self, subscriber: U)
        ensures
            final(self).manager().spec_subscribers() == old(
                self,
            ).manager().spec_subscribers().push(subscriber),
            final(self).settings() == old(self).settings(),
            final(self).manager().store_contents() == old(self).manager().store_contents(),
            final(self).manager().deliveries() == old(self).manager().deliveries(),
    {
        self.state_manager.subscribe(subscriber);
    }

    /// Where notification texts are sent.
    pub fn sms_send_phone_number(&self) -> (r: Option<&str>)
        ensures
            opt_str_view(r) == self.settings().phone,
    {
        match &self.state_manager.state().sms_send_phone_number {
            Some(s) => Some(s.as_str()),
            None => None,
        }
    }

    /// The shortest allowed gap between texts, in milliseconds.
    pub fn sms_send_throttle(&self) -> (r: u64)
        ensures
            r == self.settings().throttle,
    {
        self.state_manager.state().sms_send_throttle
    }

    /// The sending phone number of the messaging account.
    pub fn sms_send_twilio_phone_number(&self) -> (r: Option<&str>)
        ensures
            opt_str_view(r) == self.settings().twilio_phone,
    {
        match &self.state_manager.state().sms_send_twilio_phone_number {
            Some(s) => Some(s.as_str()),
            None => None,
        }
    }

    /// The messaging account identifier.
    pub fn sms_send_twilio_account_sid(&self) -> (r: Option<&str>)
        ensures
            opt_str_view(r) == self.settings().account_sid,
    {
        match &self.state_manager.state().sms_send_twilio_account_sid {
            Some(s) => Some(s.as_str()),
            None => None,
        }
    }

    /// The messaging account token.
    pub fn sms_send_twilio_auth_token(&self) -> (r: Option<&str>)
        ensures
            opt_str_view(r) == self.settings().auth_token,
    {
        match &self.state_manager.state().sms_send_twilio_auth_token {
            Some(s) => Some(s.as_str()),
            None => None,
        }
    }

    /// When the daily activation window opens.
    pub fn activation_time_start(&self) -> (r: &TimeOfDay)
        ensures
            *r == self.settings().start,
    {
        &self.state_manager.state().activation_time_start
    }

    /// When the daily activation window closes, if an end is set.
    pub fn activation_time_end(&self) -> (r: Option<&TimeOfDay>)
        ensures
            match r {
                Some(t) => self.settings().end == Some(*t),
                None => self.settings().end is None,
            },
    {
        match &self.state_manager.state().activation_time_end {
            Some(t) => Some(t),
            None => None,
        }
    }

    /// Commits new settings through the manager.
    fn commit(&mut self, next: DeviceState) -> (r: Result<(), StorageError>)
        requires
            device_state_inv(next@),
        ensures
            final(self).settings() == next@,
            final(self).wf(),
            r is Ok ==> final(self).manager().in_sync(),
            r is Ok ==> old(self).notified_once(*final(self)),
            r is Err ==> final(self).manager().store_contents() == old(
                self,
            ).manager().store_contents(),
            r is Err ==> final(self).manager().deliveries() == old(self).manager().deliveries(),
    {
        self.state_manager.set_state(next)
    }

    /// Sets where notification texts are sent.
    pub fn set_sms_send_phone_number(&mut self, phone_number: &str) -> (r: Result<
        (),
        StorageError,
    >)
        requires
            old(self).wf(),
        ensures
            final(self).settings() == (DeviceStateV {
                phone: Some(phone_number@),
                ..old(self).settings()
            }),
            final(self).wf(),
            r is Ok ==> final(self).manager().in_sync(),
            r is Ok ==> old(self).notified_once(*final(self)),
            r is Err ==> final(self).manager().store_contents() == old(
                self,
            ).manager().store_contents(),
            r is Err ==> final(self).manager().deliveries() == old(self).manager().deliveries(),
    {
        let mut next = self.state_manager.state().clone();
        next.sms_send_phone_number = opt_owned(Some(phone_number));
        self.commit(next)
    }

    /// Sets the shortest allowed gap between texts.
    pub fn set_sms_send_throttle(&mut self, throttle: u64) -> (r: Result<(), StorageError>)
        requires
            old(self).wf(),
        ensures
            final(self).settings() == (DeviceStateV {
                throttle,
                ..old(self).settings()
            }),
            final(self).wf(),
            r is Ok ==> final(self).manager().in_sync(),
            r is Ok ==> old(self).notified_once(*final(self)),
            r is Err ==> final(self).manager().store_contents() == old(
                self,
            ).manager().store_contents(),
            r is Err ==> final(self).manager().deliveries() == old(self).manager().deliveries(),
    {
        let mut next = self.state_manager.state().clone();
        next.sms_send_throttle = throttle;
        self.commit(next)
    }

    /// Sets the sending phone number of the messaging account.
    pub fn set_sms_send_twilio_phone_number(&mut self, phone_number: &str) -> (r: Result<
        (),
        StorageError,
    >)
        requires
            old(self).wf(),
        ensures
            final(self).settings() == (DeviceStateV {
                twilio_phone: Some(phone_number@),
                ..old(self).settings()
            }),
            final(self).wf(),
            r is Ok ==> final(self).manager().in_sync(),
            r is Ok ==> old(self).notified_once(*final(self)),
            r is Err ==> final(self).manager().store_contents() == old(
                self,
            ).manager().store_contents(),
            r is Err ==> final(self).manager().deliveries() == old(self).manager().deliveries(),
    {
        let mut next = self.state_manager.state().clone();
        next.sms_send_twilio_phone_number = opt_owned(Some(phone_number));
        self.commit(next)
    }

    /// Sets the messaging account identifier.
    pub fn set_sms_send_twilio_account_sid(&mut self, account_sid: &str) -> (r: Result<
        (),
        StorageError,
    >)
        requires
            old(self).wf(),
        ensures
            final(self).settings() == (DeviceStateV {
                account_sid: Some(account_sid@),
                ..old(self).settings()
            }),
            final(self).wf(),
            r is Ok ==> final(self).manager().in_sync(),
            r is Ok ==> old(self).notified_once(*final(self)),
            r is Err ==> final(self).manager().store_contents() == old(
                self,
            ).manager().store_contents(),
            r is Err ==> final(self).manager().deliveries() == old(self).manager().deliveries(),
    {
        let mut next = self.state_manager.state().clone();
        next.sms_send_twilio_account_sid = opt_owned(Some(account_sid));
        self.commit(next)
    }

    /// Sets the messaging account token.
    pub fn set_sms_send_twilio_auth_token(&mut self, auth_token: &str) -> (r: Result<
        (),
        StorageError,
    >)
        requires
            old(self).wf(),
        ensures
            final(self).settings() == (DeviceStateV {
                auth_token: Some(auth_token@),
                ..old(self).settings()
            }),
            final(self).wf(),
            r is Ok ==> final(self).manager().in_sync(),
            r is Ok ==> old(self).notified_once(*final(self)),
            r is Err ==> final(self).manager().store_contents() == old(
                self,
            ).manager().store_contents(),
            r is Err ==> final(self).manager().deliveries() == old(self).manager().deliveries(),
    {
        let mut next = self.state_manager.state().clone();
        next.sms_send_twilio_auth_token = opt_owned(Some(auth_token));
        self.commit(next)
    }

    /// Sets all messaging settings in one committed mutation.
    pub fn set_sms(
        &mut self,
        phone_number: Option<&str>,
        throttle: u64,
        twilio_phone_number: Option<&str>,
        account_sid: Option<&str>,
        auth_token: Option<&str>,
    ) -> (r: Result<(), StorageError>)
        requires
            old(self).wf(),
        ensures
            final(self).settings() == (DeviceStateV {
                phone: opt_str_view(phone_number),
                throttle,
                twilio_phone: opt_str_view(twilio_phone_number),
                account_sid: opt_str_view(account_sid),
                auth_token: opt_str_view(auth_token),
                ..old(self).settings()
            }),
            final(self).wf(),
            r is Ok ==> final(self).manager().in_sync(),
            r is Ok ==> old(self).notified_once(*final(self)),
            r is Err ==> final(self).manager().store_contents() == old(
                self,
            ).manager().store_contents(),
            r is Err ==> final(self).manager().deliveries() == old(self).manager().deliveries(),
    {
        let mut next = self.state_manager.state().clone();
        next.sms_send_phone_number = opt_owned(phone_number);
        next.sms_send_throttle = throttle;
        next.sms_send_twilio_phone_number = opt_owned(twilio_phone_number);
        next.sms_send_twilio_account_sid = opt_owned(account_sid);
        next.sms_send_twilio_auth_token = opt_owned(auth_token);
        self.commit(next)
    }

    /// Sets when the daily activation window opens.
    pub fn set_activation_time_start(&mut self, time_start: TimeOfDay) -> (r: Result<
        (),
        StorageError,
    >)
        requires
            old(self).wf(),
            time_wf(time_start),
        ensures
            final(self).settings() == (DeviceStateV {
                start: time_start,
                ..old(self).settings()
            }),
            final(self).wf(),
            r is Ok ==> final(self).manager().in_sync(),
            r is Ok ==> old(self).notified_once(*final(self)),
            r is Err ==> final(self).manager().store_contents() == old(
                self,
            ).manager().store_contents(),
            r is Err ==> final(self).manager().deliveries() == old(self).manager().deliveries(),
    {
        let mut next = self.state_manager.state().clone();
        next.activation_time_start = time_start;
        self.commit(next)
    }

    /// Sets when the daily activation window closes.
    pub fn set_activation_time_end(&mut self, time_end: TimeOfDay) -> (r: Result<
        (),
        StorageError,
    >)
        requires
            old(self).wf(),
            time_wf(time_end),
        ensures
            final(self).settings() == (DeviceStateV {
                end: Some(time_end),
                ..old(self).settings()
            }),
            final(self).wf(),
            r is Ok ==> final(self).manager().in_sync(),
            r is Ok ==> old(self).notified_once(*final(self)),
            r is Err ==> final(self).manager().store_contents() == old(
                self,
            ).manager().store_contents(),
            r is Err ==> final(self).manager().deliveries() == old(self).manager().deliveries(),
    {
        let mut next = self.state_manager.state().clone();
        next.activation_time_end = Some(time_end);
        self.commit(next)
    }

    /// Sets the whole daily activation window in one committed
    /// mutation.
    pub fn set_activation(&mut self, time_start: &TimeOfDay, time_end: &TimeOfDay) -> (r: Result<
        (),
        StorageError,
    >)
        requires
            old(self).wf(),
            time_wf(*time_start),
            time_wf(*time_end),
        ensures
            final(self).settings() == (DeviceStateV {
                start: *time_start,
                end: Some(*time_end),
                ..old(self).settings()
            }),
            final(self).wf(),
            r is Ok ==> final(self).manager().in_sync(),
            r is Ok ==> old(self).notified_once(*final(self)),
            r is Err ==> final(self).manager().store_contents() == old(
                self,
            ).manager().store_contents(),
            r is Err ==> final(self).manager().deliveries() == old(self).manager().deliveries(),
    {
        let mut next = self.state_manager.state().clone();
        next.activation_time_start = *time_start;
        next.activation_time_end = Some(*time_end);
        self.commit(next)
    }
}

/// Decoded optional text fits the record format.
proof fn lemma_dec_opt_text_fits(b: Seq<u8>, pos: int)
    ensures
        spec_dec_opt_text(b, pos) matches Some(t) ==> opt_text_fits(t.0),
{
    match spec_dec_u8(b, pos) {
        None => {},
        Some((tag, p)) => {
            lemma_dec_text_fits(b, p);
        },
    }
}

} // verus!
