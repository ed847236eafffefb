//! Network credentials and the credential set.
//!
//! A credential's identity is its (network name, hardware address)
//! pair; the secret is deliberately excluded, so re-saving a known
//! network replaces its secret instead of adding an entry. The set is
//! a sequence with pairwise distinct identities, persisted as one
//! configuration domain.

use vstd::prelude::*;

use crate::codec::{
    lemma_dec_text_fits, lemma_text_round_trip, push_text, push_u8, read_text, spec_dec_text,
    spec_enc_text, spec_enc_u8, text_fits,
};

verus! {

/// One provisioned network: name, secret, 6-byte hardware address.
pub struct Credential {
    /// The network name.
    pub ssid: String,
    /// The secret; no part of the credential's identity.
    pub psk: String,
    /// The hardware address of the access point.
    pub bssid: [u8; 6],
}

/// The mathematical view of a credential.
pub struct CredentialV {
    /// The network name.
    pub ssid: Seq<char>,
    /// The secret.
    pub psk: Seq<char>,
    /// The hardware address.
    pub bssid: Seq<u8>,
}

impl View for Credential {
    type V = CredentialV;

    open spec fn view(&self) -> CredentialV {
        CredentialV { ssid: self.ssid@, psk: self.psk@, bssid: self.bssid@ }
    }
}

/// Identity of credentials: same name and same hardware address. The
/// secret does not participate.
pub open spec fn key_matches(a: CredentialV, b: CredentialV) -> bool {
    a.ssid == b.ssid && a.bssid == b.bssid
}

/// The credential's text fields are short enough for the record
/// format's 64-bit counts.
pub open spec fn cred_fits(c: CredentialV) -> bool {
    text_fits(c.ssid) && text_fits(c.psk) && c.bssid.len() == 6
}

impl Clone for Credential {
    /// An equal copy, field for field.
    fn clone(&self) -> (r: Self)
        ensures
            r == *self,
    {
        Credential { ssid: self.ssid.clone(), psk: self.psk.clone(), bssid: self.bssid }
    }
}

impl Credential {
    /// A credential from its parts.
    pub fn new(ssid: &str, psk: &str, bssid: [u8; 6]) -> (r: Credential)
        ensures
            r@.ssid == ssid@,
            r@.psk == psk@,
            r@.bssid == bssid@,
            cred_fits(r@),
    {
        // The character counts witness that both texts fit the
        // record format's 64-bit counts.
        let ssid_chars = ssid.unicode_len();
        let psk_chars = psk.unicode_len();
        proof {
            assert(ssid_chars as nat == ssid@.len() && psk_chars as nat == psk@.len());
        }
        Credential { ssid: ssid.to_owned(), psk: psk.to_owned(), bssid }
    }

    /// Whether the two credentials are the same network: same name,
    /// same hardware address, the secrets notwithstanding.
    pub fn same_key(&self, other: &Credential) -> (r: bool)
        ensures
            r == key_matches(self@, other@),
    {
        let bssid_eq = self.bssid[0] == other.bssid[0] && self.bssid[1] == other.bssid[1]
            && self.bssid[2] == other.bssid[2] && self.bssid[3] == other.bssid[3] && self.bssid[4]
            == other.bssid[4] && self.bssid[5] == other.bssid[5];
        proof {
            if bssid_eq {
                assert(self.bssid@ =~= other.bssid@);
            }
        }
        self.ssid == other.ssid && bssid_eq
    }
}

// ----------------------------------------------------------------
// record format for one credential
// ----------------------------------------------------------------
/// Spec encoding of one credential: name, secret, then the six
/// address bytes.
pub open spec fn spec_enc_cred(c: CredentialV) -> Seq<u8> {
    spec_enc_text(c.ssid) + spec_enc_text(c.psk) + c.bssid
}

/// Spec decoder for one credential at `pos`.
pub open spec fn spec_dec_cred(b: Seq<u8>, pos: int) -> Option<(CredentialV, int)> {
    match spec_dec_text(b, pos) {
        None => None,
        Some((ssid, p1)) => match spec_dec_text(b, p1) {
            None => None,
            Some((psk, p2)) => if p2 + 6 <= b.len() {
                Some((CredentialV { ssid, psk, bssid: b.subrange(p2, p2 + 6) }, p2 + 6))
            } else {
                None
            },
        },
    }
}

/// Appends the encoding of `c` to `out`.
pub fn push_cred(out: &mut Vec<u8>, c: &Credential)
    ensures
        final(out)@ == old(out)@ + spec_enc_cred(c@),
{
    push_text(out, c.ssid.as_str());
    push_text(out, c.psk.as_str());
    push_u8(out, c.bssid[0]);
    push_u8(out, c.bssid[1]);
    push_u8(out, c.bssid[2]);
    push_u8(out, c.bssid[3]);
    push_u8(out, c.bssid[4]);
    push_u8(out, c.bssid[5]);
    assert(spec_enc_u8(c.bssid@[0]) + spec_enc_u8(c.bssid@[1]) + spec_enc_u8(c.bssid@[2])
        + spec_enc_u8(c.bssid@[3]) + spec_enc_u8(c.bssid@[4]) + spec_enc_u8(c.bssid@[5]) =~= c@.bssid);
    assert(out@ =~= old(out)@ + spec_enc_cred(c@));
}

/// Reads one credential at `pos`, as the spec decoder does.
pub fn read_cred(b: &[u8], pos: usize) -> (r: Option<(Credential, usize)>)
    ensures
        match r {
            Some((c, p)) => spec_dec_cred(b@, pos as int) == Some((c@, p as int)) && cred_fits(c@),
            None => spec_dec_cred(b@, pos as int) is None,
        },
{
    let (ssid, p1) = match read_text(b, pos) {
        Some(t) => t,
        None => {
            return None;
        },
    };
    let (psk, p2) = match read_text(b, p1) {
        Some(t) => t,
        None => {
            return None;
        },
    };
    if p2 <= b.len() && b.len() - p2 >= 6 {
        let bssid: [u8; 6] = [b[p2], b[p2 + 1], b[p2 + 2], b[p2 + 3], b[p2 + 4], b[p2 + 5]];
        let c = Credential { ssid, psk, bssid };
        assert(c.bssid@ =~= b@.subrange(p2 as int, p2 + 6));
        // Decoded texts fit by construction: their stored counts are
        // 64-bit.
        proof {
            lemma_dec_text_fits(b@, pos as int);
            lemma_dec_text_fits(b@, p1 as int);
        }
        Some((c, p2 + 6))
    } else {
        None
    }
}

/// Law: decoding an encoded credential yields it back and consumes
/// exactly its encoding.
pub proof fn lemma_cred_round_trip(c: CredentialV, prefix: Seq<u8>, suffix: Seq<u8>)
    requires
        cred_fits(c),
    ensures
        spec_dec_cred(prefix + spec_enc_cred(c) + suffix, prefix.len() as int) == Some(
            (c, prefix.len() as int + spec_enc_cred(c).len()),
        ),
{
    let b = prefix + spec_enc_cred(c) + suffix;
    let enc_ssid = spec_enc_text(c.ssid);
    let enc_psk = spec_enc_text(c.psk);
    assert(b =~= prefix + enc_ssid + (enc_psk + c.bssid + suffix));
    lemma_text_round_trip(c.ssid, prefix, enc_psk + c.bssid + suffix);
    assert(b =~= (prefix + enc_ssid) + enc_psk + (c.bssid + suffix));
    lemma_text_round_trip(c.psk, prefix + enc_ssid, c.bssid + suffix);
    let p2 = prefix.len() as int + enc_ssid.len() + enc_psk.len();
    assert(b.subrange(p2, p2 + 6) =~= c.bssid);
    assert(spec_dec_cred(b, prefix.len() as int) matches Some(t) && t.0.ssid == c.ssid && t.0.psk
        == c.psk && t.0.bssid == c.bssid);
    assert(spec_dec_cred(b, prefix.len() as int) == Some(
        (c, prefix.len() as int + spec_enc_cred(c).len()),
    ));
}

// ----------------------------------------------------------------
// record format for a credential list
// ----------------------------------------------------------------
/// Spec encoding of a credential list: the credentials in order.
pub open spec fn spec_enc_cred_list(s: Seq<CredentialV>) -> Seq<u8>
    decreases s.len(),
{
    if s.len() == 0 {
        Seq::empty()
    } else {
        spec_enc_cred(s[0]) + spec_enc_cred_list(s.drop_first())
    }
}

/// Prepends already-decoded credentials to a decoder outcome.
pub open spec fn spec_with_cred_prefix(
    acc: Seq<CredentialV>,
    r: Option<(Seq<CredentialV>, int)>,
) -> Option<(Seq<CredentialV>, int)> {
    match r {
        Some(t) => Some((acc + t.0, t.1)),
        None => None,
    }
}

/// Spec decoder for `count` credentials at `pos`.
pub open spec fn spec_dec_cred_list(b: Seq<u8>, pos: int, count: nat) -> Option<
    (Seq<CredentialV>, int),
>
    decreases count,
{
    if count == 0 {
        Some((Seq::empty(), pos))
    } else {
        match spec_dec_cred(b, pos) {
            Some((c, p)) => spec_with_cred_prefix(
                seq![c],
                spec_dec_cred_list(b, p, (count - 1) as nat),
            ),
            None => None,
        }
    }
}

/// Appending one credential extends the encoding by its record.
proof fn lemma_enc_cred_list_push(s: Seq<CredentialV>, c: CredentialV)
    ensures
        spec_enc_cred_list(s.push(c)) == spec_enc_cred_list(s) + spec_enc_cred(c),
    decreases s.len(),
{
    if s.len() == 0 {
        let t = s.push(c);
        assert(t[0] == c);
        assert(t.drop_first() =~= s);
        assert(spec_enc_cred_list(t) == spec_enc_cred(c) + spec_enc_cred_list(t.drop_first()));
        assert(spec_enc_cred_list(t) =~= spec_enc_cred_list(s) + spec_enc_cred(c));
    } else {
        assert(s.push(c)[0] == s[0]);
        assert(s.push(c).drop_first() =~= s.drop_first().push(c));
        lemma_enc_cred_list_push(s.drop_first(), c);
        assert(spec_enc_cred_list(s.push(c)) == spec_enc_cred(s[0]) + (spec_enc_cred_list(
            s.drop_first(),
        ) + spec_enc_cred(c)));
        assert(spec_enc_cred_list(s.push(c)) =~= spec_enc_cred_list(s) + spec_enc_cred(c));
    }
}

/// Folding one decoded credential into the accumulated prefix.
proof fn lemma_with_cred_prefix_fold(
    acc: Seq<CredentialV>,
    c: CredentialV,
    r: Option<(Seq<CredentialV>, int)>,
)
    ensures
        spec_with_cred_prefix(acc, spec_with_cred_prefix(seq![c], r)) == spec_with_cred_prefix(
            acc.push(c),
            r,
        ),
{
    match r {
        Some(t) => {
            assert(acc + (seq![c] + t.0) =~= acc.push(c) + t.0);
        },
        None => {},
    }
}

/// A successful credential-list decode yields exactly `count` entries,
/// each fit for the record format.
pub proof fn lemma_dec_cred_list_shape(b: Seq<u8>, pos: int, count: nat)
    ensures
        spec_dec_cred_list(b, pos, count) matches Some(t) ==> t.0.len() == count && forall|i: int|
            0 <= i < t.0.len() ==> cred_fits(#[trigger] t.0[i]),
    decreases count,
{
    if count > 0 {
        match spec_dec_cred(b, pos) {
            Some((c, p)) => {
                lemma_dec_cred_list_shape(b, p, (count - 1) as nat);
                lemma_dec_cred_fits(b, pos);
            },
            None => {},
        }
    }
}

/// A decoded credential is fit for the record format.
proof fn lemma_dec_cred_fits(b: Seq<u8>, pos: int)
    ensures
        spec_dec_cred(b, pos) matches Some(t) ==> cred_fits(t.0),
{
    lemma_dec_text_fits(b, pos);
    match spec_dec_text(b, pos) {
        Some((ssid, p1)) => {
            lemma_dec_text_fits(b, p1);
        },
        None => {},
    }
}

/// Law: decoding an encoded credential list yields it back and
/// consumes exactly its encoding.
#[verifier::rlimit(100)]
pub proof fn lemma_cred_list_round_trip(s: Seq<CredentialV>, prefix: Seq<u8>, suffix: Seq<u8>)
    requires
        forall|i: int| 0 <= i < s.len() ==> cred_fits(#[trigger] s[i]),
    ensures
        spec_dec_cred_list(prefix + spec_enc_cred_list(s) + suffix, prefix.len() as int, s.len())
            == Some((s, prefix.len() as int + spec_enc_cred_list(s).len())),
    decreases s.len(),
{
    let b = prefix + spec_enc_cred_list(s) + suffix;
    if s.len() == 0 {
        assert(spec_enc_cred_list(s) =~= Seq::<u8>::empty());
    } else {
        let c = s[0];
        let rest = s.drop_first();
        assert(b =~= prefix + spec_enc_cred(c) + (spec_enc_cred_list(rest) + suffix));
        lemma_cred_round_trip(c, prefix, spec_enc_cred_list(rest) + suffix);
        assert(prefix + spec_enc_cred(c) + spec_enc_cred_list(rest) + suffix =~= b);
        lemma_cred_list_round_trip(rest, prefix + spec_enc_cred(c), suffix);
        assert(seq![c] + rest =~= s);
    }
}

// ----------------------------------------------------------------
// the credential set
// ----------------------------------------------------------------
/// The views of a list of credentials, in order.
pub open spec fn creds_view(s: Seq<Credential>) -> Seq<CredentialV> {
    s.map_values(|c: Credential| c@)
}

/// Pairwise distinct identities.
pub open spec fn unique_keys(s: Seq<CredentialV>) -> bool {
    forall|i: int, j: int|
        #![trigger s[i], s[j]]
        0 <= i < j < s.len() ==> !key_matches(s[i], s[j])
}

/// Validity of a credential set: distinct identities, every entry fit
/// for the record format.
pub open spec fn state_inv(s: Seq<CredentialV>) -> bool {
    &&& unique_keys(s)
    &&& s.len() <= u64::MAX
    &&& forall|i: int| 0 <= i < s.len() ==> cred_fits(#[trigger] s[i])
}

/// The persisted wifi configuration domain: the set of saved
/// credentials.
pub struct WifiState {
    /// The saved credentials. No two share an identity.
    pub credentials: Vec<Credential>,
}

impl View for WifiState {
    type V = Seq<CredentialV>;

    open spec fn view(&self) -> Seq<CredentialV> {
        creds_view(self.credentials@)
    }
}

/// An equal copy of a credential list.
fn clone_credentials(v: &Vec<Credential>) -> (r: Vec<Credential>)
    ensures
        r@ == v@,
{
    let n = v.len();
    let mut out: Vec<Credential> = Vec::new();
    let mut i: usize = 0;
    while i < n
        invariant
            i <= n,
            n == v@.len(),
            out@ == v@.take(i as int),
        decreases n - i,
    {
        out.push(v[i].clone());
        assert(out@ =~= v@.take(i + 1 as int));
        i = i + 1;
    }
    assert(v@.take(n as int) =~= v@);
    out
}

/// Whether all identities in the list are pairwise distinct.
fn creds_unique(v: &Vec<Credential>) -> (r: bool)
    ensures
        r == unique_keys(creds_view(v@)),
{
    let n = v.len();
    let mut i: usize = 0;
    while i < n
        invariant
            i <= n,
            n == v@.len(),
            forall|a: int, b: int|
                #![trigger creds_view(v@)[a], creds_view(v@)[b]]
                0 <= a < b < n && a < i ==> !key_matches(creds_view(v@)[a], creds_view(v@)[b]),
        decreases n - i,
    {
        let mut j: usize = i + 1;
        while j < n
            invariant
                i < n,
                i < j <= n,
                n == v@.len(),
                forall|a: int, b: int|
                    #![trigger creds_view(v@)[a], creds_view(v@)[b]]
                    0 <= a < b < n && a < i ==> !key_matches(creds_view(v@)[a], creds_view(v@)[b]),
                forall|b: int|
                    i < b < j ==> !key_matches(
                        creds_view(v@)[i as int],
                        #[trigger] creds_view(v@)[b],
                    ),
            decreases n - j,
        {
            if v[i].same_key(&v[j]) {
                proof {
                    assert(creds_view(v@)[i as int] == v@[i as int]@);
                    assert(creds_view(v@)[j as int] == v@[j as int]@);
                    assert(key_matches(creds_view(v@)[i as int], creds_view(v@)[j as int]));
                }
                return false;
            }
            j = j + 1;
        }
        i = i + 1;
    }
    true
}

impl crate::storage::ConfigValue for WifiState {
    /// A valid set has pairwise distinct identities and entries fit
    /// for the record format.
    open spec fn inv(v: Seq<CredentialV>) -> bool {
        state_inv(v)
    }

    /// A fresh device knows no networks.
    open spec fn spec_default() -> Seq<CredentialV> {
        Seq::empty()
    }

    /// The record: the entry count, then the entries in order.
    open spec fn spec_encoding(v: Seq<CredentialV>) -> Seq<u8> {
        crate::codec::spec_enc_u64(v.len() as u64) + spec_enc_cred_list(v)
    }

    /// The decoded record, if whole and with distinct identities.
    open spec fn spec_decoded(b: Seq<u8>) -> Option<Seq<CredentialV>> {
        match crate::codec::spec_dec_u64(b, 0) {
            Some((n, p)) => match spec_dec_cred_list(b, p, n as nat) {
                Some((s, pend)) => if pend == b.len() && unique_keys(s) {
                    Some(s)
                } else {
                    None
                },
                None => None,
            },
            None => None,
        }
    }

    proof fn lemma_default_inv() {
    }

    proof fn lemma_decoded_inv(b: Seq<u8>) {
        match crate::codec::spec_dec_u64(b, 0) {
            Some((n, p)) => {
                lemma_dec_cred_list_shape(b, p, n as nat);
            },
            None => {},
        }
    }

    #[verifier::rlimit(50)]
    proof fn lemma_round_trip(v: Seq<CredentialV>) {
        let n = v.len() as u64;
        let enc = Self::spec_encoding(v);
        assert(enc =~= Seq::<u8>::empty() + crate::codec::spec_enc_u64(n) + spec_enc_cred_list(v));
        crate::codec::lemma_u64_round_trip(n, Seq::empty(), spec_enc_cred_list(v));
        assert(crate::codec::spec_enc_u64(n) + spec_enc_cred_list(v) + Seq::<u8>::empty() =~= enc);
        lemma_cred_list_round_trip(v, crate::codec::spec_enc_u64(n), Seq::empty());
    }

    fn default_value() -> (r: Self) {
        let r = WifiState { credentials: Vec::new() };
        assert(r@ =~= Seq::<CredentialV>::empty());
        r
    }

    fn encode(&self) -> (r: Vec<u8>) {
        let n = self.credentials.len();
        let mut out: Vec<u8> = Vec::new();
        crate::codec::push_u64(&mut out, n as u64);
        let mut i: usize = 0;
        while i < n
            invariant
                i <= n,
                n == self.credentials@.len(),
                out@ == crate::codec::spec_enc_u64(n as u64) + spec_enc_cred_list(
                    creds_view(self.credentials@).take(i as int),
                ),
            decreases n - i,
        {
            push_cred(&mut out, &self.credentials[i]);
            proof {
                let cv = creds_view(self.credentials@);
                assert(cv.take(i + 1 as int) =~= cv.take(i as int).push(cv[i as int]));
                lemma_enc_cred_list_push(cv.take(i as int), cv[i as int]);
            }
            i = i + 1;
        }
        proof {
            assert(creds_view(self.credentials@).take(n as int) =~= self@);
        }
        out
    }

    fn decode(bytes: &[u8]) -> (r: Option<Self>) {
        let (n, start) = match crate::codec::read_u64(bytes, 0) {
            Some(t) => t,
            None => {
                return None;
            },
        };
        let mut creds: Vec<Credential> = Vec::new();
        let mut p = start;
        let mut i: u64 = 0;
        while i < n
            invariant
                i <= n,
                crate::codec::spec_dec_u64(bytes@, 0) == Some((n, start as int)),
                spec_with_cred_prefix(
                    creds_view(creds@),
                    spec_dec_cred_list(bytes@, p as int, (n - i) as nat),
                ) == spec_dec_cred_list(bytes@, start as int, n as nat),
            decreases n - i,
        {
            let (c, p2) = match read_cred(bytes, p) {
                Some(t) => t,
                None => {
                    return None;
                },
            };
            proof {
                lemma_with_cred_prefix_fold(
                    creds_view(creds@),
                    c@,
                    spec_dec_cred_list(bytes@, p2 as int, (n - i - 1) as nat),
                );
                assert(creds_view(creds@.push(c)) =~= creds_view(creds@).push(c@));
            }
            creds.push(c);
            p = p2;
            i = i + 1;
        }
        proof {
            assert(spec_dec_cred_list(bytes@, p as int, 0) == Some(
                (Seq::<CredentialV>::empty(), p as int),
            ));
            assert(creds_view(creds@) + Seq::<CredentialV>::empty() =~= creds_view(creds@));
            assert(spec_dec_cred_list(bytes@, start as int, n as nat) == Some(
                (creds_view(creds@), p as int),
            ));
        }
        if p != bytes.len() {
            return None;
        }
        if !creds_unique(&creds) {
            return None;
        }
        Some(WifiState { credentials: creds })
    }
}

// ----------------------------------------------------------------
// operations on the credential set
// ----------------------------------------------------------------
/// Whether some entry shares `c`'s identity.
pub open spec fn has_key(s: Seq<CredentialV>, c: CredentialV) -> bool {
    exists|i: int| 0 <= i < s.len() && key_matches(#[trigger] s[i], c)
}

/// The index of the entry with `c`'s identity; unique when the set's
/// identities are.
pub open spec fn key_index(s: Seq<CredentialV>, c: CredentialV) -> int {
    choose|i: int| 0 <= i < s.len() && key_matches(#[trigger] s[i], c)
}

/// The set after saving `c`: the entry sharing its identity is
/// replaced in place, or `c` is appended if there is none. Replacing
/// keeps the set's size — saving a known network only changes its
/// secret.
pub open spec fn spec_saved(s: Seq<CredentialV>, c: CredentialV) -> Seq<CredentialV> {
    if has_key(s, c) {
        s.update(key_index(s, c), c)
    } else {
        s.push(c)
    }
}

/// Which entries a forget request removes. With an address, any entry
/// whose name matches *or* whose address matches goes — a deliberately
/// broad rule; do not narrow it to requiring both. Without an
/// address, every entry with the name goes.
pub open spec fn forget_hits(c: CredentialV, ssid: Seq<char>, bssid: Option<Seq<u8>>) -> bool {
    match bssid {
        Some(hw) => c.ssid == ssid || c.bssid == hw,
        None => c.ssid == ssid,
    }
}

/// The set after a forget request: the surviving entries, in order.
pub open spec fn spec_forgotten(
    s: Seq<CredentialV>,
    ssid: Seq<char>,
    bssid: Option<Seq<u8>>,
) -> Seq<CredentialV> {
    s.filter(|c: CredentialV| !forget_hits(c, ssid, bssid))
}

/// The view of an optional hardware address.
pub open spec fn bssid_view(b: Option<[u8; 6]>) -> Option<Seq<u8>> {
    match b {
        Some(hw) => Some(hw@),
        None => None,
    }
}

/// The index of the entry sharing `cred`'s identity, if any.
fn find_key(v: &Vec<Credential>, cred: &Credential) -> (r: Option<usize>)
    ensures
        match r {
            Some(k) => k < v@.len() && key_matches(creds_view(v@)[k as int], cred@),
            None => !has_key(creds_view(v@), cred@),
        },
{
    let n = v.len();
    let mut i: usize = 0;
    while i < n
        invariant
            i <= n,
            n == v@.len(),
            forall|a: int| 0 <= a < i ==> !key_matches(#[trigger] creds_view(v@)[a], cred@),
        decreases n - i,
    {
        if v[i].same_key(cred) {
            assert(creds_view(v@)[i as int] == v@[i as int]@);
            return Some(i);
        }
        proof {
            assert(creds_view(v@)[i as int] == v@[i as int]@);
        }
        i = i + 1;
    }
    None
}

/// An identity absent from a set is absent from any filtering of it.
proof fn lemma_filter_no_key(s: Seq<CredentialV>, pred: spec_fn(CredentialV) -> bool, c: CredentialV)
    requires
        forall|i: int| 0 <= i < s.len() ==> !key_matches(#[trigger] s[i], c),
    ensures
        forall|k: int|
            0 <= k < s.filter(pred).len() ==> !key_matches(#[trigger] s.filter(pred)[k], c),
    decreases s.len(),
{
    reveal(Seq::filter);
    if s.len() > 0 {
        let t = s.drop_last();
        assert(forall|i: int| 0 <= i < t.len() ==> !key_matches(#[trigger] t[i], c));
        lemma_filter_no_key(t, pred, c);
        let out = s.filter(pred);
        assert forall|k: int| 0 <= k < out.len() implies !key_matches(out[k], c) by {
            if pred(s.last()) {
                assert(out == t.filter(pred).push(s.last()));
                if k < out.len() - 1 {
                    assert(out[k] == t.filter(pred)[k]);
                } else {
                    assert(out[k] == s.last());
                    assert(!key_matches(s[s.len() - 1], c));
                }
            } else {
                assert(out == t.filter(pred));
                assert(out[k] == t.filter(pred)[k]);
            }
        }
    }
}

/// Every entry of a filtered set is fit if every entry of the set is.
proof fn lemma_filter_keeps_fits(s: Seq<CredentialV>, pred: spec_fn(CredentialV) -> bool)
    requires
        forall|i: int| 0 <= i < s.len() ==> cred_fits(#[trigger] s[i]),
    ensures
        forall|k: int| 0 <= k < s.filter(pred).len() ==> cred_fits(#[trigger] s.filter(pred)[k]),
    decreases s.len(),
{
    reveal(Seq::filter);
    if s.len() > 0 {
        let t = s.drop_last();
        assert(forall|i: int| 0 <= i < t.len() ==> cred_fits(#[trigger] t[i]));
        lemma_filter_keeps_fits(t, pred);
        let out = s.filter(pred);
        assert forall|k: int| 0 <= k < out.len() implies cred_fits(out[k]) by {
            if pred(s.last()) {
                assert(out == t.filter(pred).push(s.last()));
                if k < out.len() - 1 {
                    assert(out[k] == t.filter(pred)[k]);
                } else {
                    assert(out[k] == s.last());
                    assert(cred_fits(s[s.len() - 1]));
                }
            } else {
                assert(out == t.filter(pred));
                assert(out[k] == t.filter(pred)[k]);
            }
        }
    }
}

/// Entries filtered out of a key-unique set stay key-unique.
proof fn lemma_filter_keeps_unique(s: Seq<CredentialV>, pred: spec_fn(CredentialV) -> bool)
    requires
        unique_keys(s),
    ensures
        unique_keys(s.filter(pred)),
    decreases s.len(),
{
    reveal(Seq::filter);
    if s.len() > 0 {
        let t = s.drop_last();
        let x = s.last();
        assert(forall|i: int, j: int|
            #![trigger t[i], t[j]]
            0 <= i < j < t.len() ==> !key_matches(t[i], t[j]));
        lemma_filter_keeps_unique(t, pred);
        if pred(x) {
            assert(s.filter(pred) == t.filter(pred).push(x));
            assert(forall|i: int| 0 <= i < t.len() ==> !key_matches(#[trigger] t[i], x));
            lemma_filter_no_key(t, pred, x);
            let out = t.filter(pred).push(x);
            assert forall|i: int, j: int|
                #![trigger out[i], out[j]]
                0 <= i < j < out.len() implies !key_matches(out[i], out[j]) by {
                if j < out.len() - 1 {
                    assert(out[i] == t.filter(pred)[i] && out[j] == t.filter(pred)[j]);
                } else {
                    assert(out[i] == t.filter(pred)[i] && out[j] == x);
                }
            }
        }
    }
}

impl WifiState {
    /// The set after saving `cred`: its network's entry replaced, or
    /// `cred` appended. Saving a credential whose (name, address)
    /// already exists replaces the stored secret and leaves the set's
    /// size unchanged.
    pub fn with_credential(&self, cred: &Credential) -> (r: WifiState)
        requires
            state_inv(self@),
            cred_fits(cred@),
        ensures
            r@ == spec_saved(self@, cred@),
            state_inv(r@),
            r@.len() == if has_key(self@, cred@) {
                self@.len() as int
            } else {
                self@.len() as int + 1
            },
    {
        let found = find_key(&self.credentials, cred);
        let mut creds = clone_credentials(&self.credentials);
        match found {
            Some(k) => {
                let slot = &mut creds[k];
                *slot = cred.clone();
                proof {
                    let ki = key_index(self@, cred@);
                    assert(key_matches(self@[k as int], cred@));
                    assert(0 <= ki < self@.len() && key_matches(self@[ki], cred@));
                    assert(ki == k as int);
                    assert(creds_view(creds@) =~= self@.update(k as int, cred@));
                }
                let r = WifiState { credentials: creds };
                proof {
                    lemma_saved_inv(self@, cred@);
                }
                r
            },
            None => {
                creds.push(cred.clone());
                // The new list's length witnesses that the set had
                // room for one more entry.
                let total = creds.len();
                proof {
                    assert(creds_view(creds@) =~= self@.push(cred@));
                    assert(total as nat == creds@.len());
                    assert(self@.len() < u64::MAX);
                    lemma_saved_inv(self@, cred@);
                }
                WifiState { credentials: creds }
            },
        }
    }

    /// The set after a forget request: removes every entry the broad
    /// rule hits, keeping the others in order.
    pub fn without(&self, ssid: &str, bssid: Option<[u8; 6]>) -> (r: WifiState)
        requires
            state_inv(self@),
        ensures
            r@ == spec_forgotten(self@, ssid@, bssid_view(bssid)),
            state_inv(r@),
    {
        let ghost hw = bssid_view(bssid);
        let ghost pred = |c: CredentialV| !forget_hits(c, ssid@, hw);
        let ssid_owned = ssid.to_owned();
        let n = self.credentials.len();
        let mut out: Vec<Credential> = Vec::new();
        let mut i: usize = 0;
        proof {
            reveal(Seq::filter);
            assert(self@.take(0).filter(pred) =~= Seq::<CredentialV>::empty());
        }
        while i < n
            invariant
                i <= n,
                n == self.credentials@.len(),
                creds_view(out@) == self@.take(i as int).filter(pred),
                pred == (|c: CredentialV| !forget_hits(c, ssid@, hw)),
                hw == bssid_view(bssid),
                ssid_owned@ == ssid@,
            decreases n - i,
        {
            let c = &self.credentials[i];
            let hit = match &bssid {
                Some(hw_bytes) => {
                    let addr_eq = c.bssid[0] == hw_bytes[0] && c.bssid[1] == hw_bytes[1]
                        && c.bssid[2] == hw_bytes[2] && c.bssid[3] == hw_bytes[3] && c.bssid[4]
                        == hw_bytes[4] && c.bssid[5] == hw_bytes[5];
                    proof {
                        if addr_eq {
                            assert(c.bssid@ =~= hw_bytes@);
                        }
                    }
                    c.ssid == ssid_owned || addr_eq
                },
                None => c.ssid == ssid_owned,
            };
            proof {
                assert(hit == forget_hits(self@[i as int], ssid@, hw));
            }
            if !hit {
                out.push(c.clone());
            }
            proof {
                reveal(Seq::filter);
                let prefix = self@.take(i as int);
                assert(self@.take(i + 1 as int) =~= prefix.push(self@[i as int]));
                assert(self@.take(i + 1 as int).drop_last() =~= prefix);
                if !hit {
                    assert(creds_view(out@) =~= prefix.filter(pred).push(self@[i as int]));
                }
            }
            i = i + 1;
        }
        proof {
            assert(self@.take(n as int) =~= self@);
            lemma_filter_keeps_unique(self@, pred);
        }
        proof {
            lemma_filter_keeps_fits(self@, pred);
        }
        WifiState { credentials: out }
    }

    /// A snapshot copy of the saved credentials, in order; safe to
    /// hold while the set changes elsewhere.
    pub fn all(&self) -> (r: Vec<Credential>)
        ensures
            creds_view(r@) == self@,
            r@.len() == self@.len(),
    {
        clone_credentials(&self.credentials)
    }

    /// Whether no credential is saved.
    pub fn is_empty(&self) -> (r: bool)
        ensures
            r == (self@.len() == 0),
    {
        self.credentials.is_empty()
    }
}

/// Law: saving a credential whose identity already exists replaces
/// that entry in place — the stored secret changes, the set's size
/// does not, and nothing else moves.
pub proof fn lemma_replacement_preserves_size(s: Seq<CredentialV>, c: CredentialV)
    requires
        unique_keys(s),
        has_key(s, c),
    ensures
        spec_saved(s, c).len() == s.len(),
        spec_saved(s, c)[key_index(s, c)] == c,
        forall|i: int|
            0 <= i < s.len() && i != key_index(s, c) ==> spec_saved(s, c)[i] == #[trigger] s[i],
{
}

/// Law: forgetting removes exactly the entries the rule hits — every
/// survivor misses the rule, and every entry missing the rule
/// survives.
pub proof fn lemma_forgotten_exact(s: Seq<CredentialV>, ssid: Seq<char>, bssid: Option<Seq<u8>>)
    ensures
        forall|k: int|
            0 <= k < spec_forgotten(s, ssid, bssid).len() ==> !forget_hits(
                #[trigger] spec_forgotten(s, ssid, bssid)[k],
                ssid,
                bssid,
            ),
        forall|i: int|
            0 <= i < s.len() && !forget_hits(#[trigger] s[i], ssid, bssid) ==> spec_forgotten(
                s,
                ssid,
                bssid,
            ).contains(s[i]),
{
    broadcast use vstd::seq_lib::group_filter_ensures;

    let pred = |c: CredentialV| !forget_hits(c, ssid, bssid);
    assert(spec_forgotten(s, ssid, bssid) == s.filter(pred));
}

/// Saving keeps the set valid, given room for one more entry.
proof fn lemma_saved_inv(s: Seq<CredentialV>, c: CredentialV)
    requires
        state_inv(s),
        cred_fits(c),
        has_key(s, c) || s.len() < u64::MAX,
    ensures
        state_inv(spec_saved(s, c)),
{
    if has_key(s, c) {
        let k = key_index(s, c);
        let r = s.update(k, c);
        assert forall|i: int, j: int|
            #![trigger r[i], r[j]]
            0 <= i < j < r.len() implies !key_matches(r[i], r[j]) by {
            if i != k && j != k {
                assert(!key_matches(s[i], s[j]));
            } else if i == k && j != k {
                assert(!key_matches(s[k], s[j]) || !(0 <= k < j));
                if key_matches(r[i], r[j]) {
                    assert(key_matches(s[j], c));
                    assert(j != k && 0 <= j < s.len() && 0 <= k < s.len());
                    assert(key_matches(s[k], c));
                    assert(false);
                }
            } else if j == k && i != k {
                if key_matches(r[i], r[j]) {
                    assert(key_matches(s[i], c));
                    assert(key_matches(s[k], c));
                    assert(false);
                }
            }
        }
    } else {
        let r = s.push(c);
        assert forall|i: int, j: int|
            #![trigger r[i], r[j]]
            0 <= i < j < r.len() implies !key_matches(r[i], r[j]) by {
            if j == s.len() as int {
                assert(!key_matches(s[i], c));
            } else {
                assert(!key_matches(s[i], s[j]));
            }
        }
    }
}

} // verus!
