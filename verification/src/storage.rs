//! The durable store: a byte-level record location, a binary store
//! over it, and the contract every configuration value must meet to
//! live in one.
//!
//! A record location holds at most one record and is replaced
//! wholesale or not at all, so a reader never observes a partial
//! write. A record that fails to decode is reported as an absent
//! value, never as an error: the caller falls back to the domain's
//! default and re-saves it.
//!
//! Contracts are stated over each value's mathematical view
//! (`View::V`): the store holds a view, saving puts the value's view
//! there, and loading yields a value with exactly that view.

use vstd::prelude::*;

use crate::errors::StorageError;

verus! {

/// A configuration value that can live in a durable store: it has a
/// well-defined default and a stable binary encoding whose decoder
/// accepts exactly the valid values of the domain.
pub trait ConfigValue: View + Sized {
    /// Validity of a value of the domain, on its view. Only valid
    /// values round-trip through the store.
    spec fn inv(v: Self::V) -> bool;

    /// The value the domain starts from when nothing is saved.
    spec fn spec_default() -> Self::V;

    /// The binary record for a value with this view.
    spec fn spec_encoding(v: Self::V) -> Seq<u8>;

    /// What a binary record decodes to, if anything.
    spec fn spec_decoded(b: Seq<u8>) -> Option<Self::V>;

    /// Law: the default value is valid.
    proof fn lemma_default_inv()
        ensures
            Self::inv(Self::spec_default()),
    ;

    /// Law: decoding accepts only valid values.
    proof fn lemma_decoded_inv(b: Seq<u8>)
        ensures
            Self::spec_decoded(b) matches Some(v) ==> Self::inv(v),
    ;

    /// Law: decoding the encoding of a valid value yields the value
    /// back (the record format loses nothing).
    proof fn lemma_round_trip(v: Self::V)
        requires
            Self::inv(v),
        ensures
            Self::spec_decoded(Self::spec_encoding(v)) == Some(v),
    ;

    /// The default value.
    fn default_value() -> (r: Self)
        ensures
            r@ == Self::spec_default(),
    ;

    /// Encodes the value into its binary record.
    fn encode(&self) -> (r: Vec<u8>)
        ensures
            r@ == Self::spec_encoding(self@),
    ;

    /// Decodes a binary record, rejecting anything malformed.
    fn decode(bytes: &[u8]) -> (r: Option<Self>)
        ensures
            match r {
                Some(v) => Self::spec_decoded(bytes@) == Some(v@),
                None => Self::spec_decoded(bytes@) is None,
            },
    ;
}

/// A byte-level durable record location for one configuration domain.
/// Writes replace the whole record or leave it untouched; nothing
/// partial is ever observable.
pub trait Media: Sized {
    /// The bytes at the record location, if a record exists.
    spec fn stored(&self) -> Option<Seq<u8>>;

    /// Replaces the record wholesale, creating it if absent. On
    /// failure the previous record is intact.
    fn write(&mut self, bytes: &[u8]) -> (r: Result<(), StorageError>)
        ensures
            r is Ok ==> final(self).stored() == Some(bytes@),
            r is Err ==> final(self).stored() == old(self).stored(),
    ;

    /// Reads the whole record, or reports that none exists.
    fn read(&self) -> (r: Result<Option<Vec<u8>>, StorageError>)
        ensures
            r matches Ok(o) ==> match o {
                Some(v) => self.stored() == Some(v@),
                None => self.stored() is None,
            },
    ;
}

/// An in-memory record location. It never fails, which makes it the
/// reference medium for exercising everything built on top; a caller
/// may also place arbitrary raw bytes to stand for a corrupt record.
pub struct RamMedia {
    record: Option<Vec<u8>>,
}

impl RamMedia {
    /// An empty location: no record was ever written.
    pub fn new() -> (r: RamMedia)
        ensures
            r.stored() is None,
    {
        RamMedia { record: None }
    }

    /// A location already holding the given raw bytes, however they
    /// came to be there.
    pub fn holding(bytes: Vec<u8>) -> (r: RamMedia)
        ensures
            r.stored() == Some(bytes@),
    {
        RamMedia { record: Some(bytes) }
    }
}

impl Media for RamMedia {
    closed spec fn stored(&self) -> Option<Seq<u8>> {
        match self.record {
            Some(v) => Some(v@),
            None => None,
        }
    }

    fn write(&mut self, bytes: &[u8]) -> (r: Result<(), StorageError>)
        ensures
            r is Ok,
    {
        let mut copy: Vec<u8> = Vec::new();
        copy.extend_from_slice(bytes);
        assert(copy@ =~= bytes@);
        self.record = Some(copy);
        Ok(())
    }

    fn read(&self) -> (r: Result<Option<Vec<u8>>, StorageError>)
        ensures
            r is Ok,
    {
        match &self.record {
            Some(v) => {
                let mut copy: Vec<u8> = Vec::new();
                copy.extend_from_slice(v.as_slice());
                assert(copy@ =~= v@);
                Ok(Some(copy))
            },
            None => Ok(None),
        }
    }
}

/// The value-level durable store for one configuration domain.
pub trait Storage<C: ConfigValue>: Sized {
    /// The view of the value the store currently holds, if a
    /// decodable record exists.
    spec fn contents(&self) -> Option<C::V>;

    /// Law: a store only ever holds valid values.
    proof fn lemma_contents_inv(&self)
        ensures
            self.contents() matches Some(v) ==> C::inv(v),
    ;

    /// Persists `item` as the domain's one record, atomically: after
    /// success the store holds exactly `item`; after failure it holds
    /// what it held before.
    fn save(&mut self, item: &C) -> (r: Result<(), StorageError>)
        requires
            C::inv(item@),
        ensures
            r is Ok ==> final(self).contents() == Some(item@),
            r is Err ==> final(self).contents() == old(self).contents(),
    ;

    /// Reads the saved value back. Absence — nothing ever saved, or a
    /// record that does not decode — is `Ok(None)`, not an error.
    fn load(&self) -> (r: Result<Option<C>, StorageError>)
        ensures
            r matches Ok(o) ==> match o {
                Some(v) => self.contents() == Some(v@),
                None => self.contents() is None,
            },
    ;
}

/// The binary durable store: a configuration value encoded with the
/// crate's record format onto a byte-level medium. Corruption reads
/// as absence.
pub struct BinaryStorage<C: ConfigValue, M: Media> {
    media: M,
    domain: core::marker::PhantomData<C>,
}

impl<C: ConfigValue, M: Media> BinaryStorage<C, M> {
    /// The raw record at the store's location, if one exists.
    pub closed spec fn record(&self) -> Option<Seq<u8>> {
        self.media.stored()
    }

    /// A store over the given record location.
    pub fn new(media: M) -> (r: BinaryStorage<C, M>)
        ensures
            r.contents() == match media.stored() {
                Some(b) => C::spec_decoded(b),
                None => None,
            },
    {
        BinaryStorage { media, domain: core::marker::PhantomData }
    }
}

impl<C: ConfigValue, M: Media> Storage<C> for BinaryStorage<C, M> {
    /// The decoded record, if the medium holds a decodable one.
    closed spec fn contents(&self) -> Option<C::V> {
        match self.media.stored() {
            Some(b) => C::spec_decoded(b),
            None => None,
        }
    }

    proof fn lemma_contents_inv(&self) {
        match self.media.stored() {
            Some(b) => C::lemma_decoded_inv(b),
            None => {},
        }
    }

    fn save(&mut self, item: &C) -> (r: Result<(), StorageError>) {
        let bytes = item.encode();
        match self.media.write(bytes.as_slice()) {
            Ok(()) => {
                proof {
                    C::lemma_round_trip(item@);
                }
                Ok(())
            },
            Err(e) => Err(e),
        }
    }

    fn load(&self) -> (r: Result<Option<C>, StorageError>) {
        match self.media.read() {
            Err(e) => Err(e),
            Ok(None) => Ok(None),
            Ok(Some(bytes)) => Ok(C::decode(bytes.as_slice())),
        }
    }
}

/// Law: a record that does not decode reads as an absent value, not
/// as an error — whatever bytes stand at the record location, and
/// however they came to be there. Together with `Storage::load`'s
/// contract, a load over such a record can only report absence or a
/// fault of the medium, never a malformed value.
pub proof fn lemma_corruption_reads_absent<C: ConfigValue, M: Media>(
    s: BinaryStorage<C, M>,
    bytes: Seq<u8>,
)
    requires
        s.record() == Some(bytes),
        C::spec_decoded(bytes) is None,
    ensures
        s.contents() is None,
{
}

} // verus!
