//! The persistent state manager: one in-memory configuration value,
//! committed transactionally (mutate, persist, notify) against a
//! durable store, with an ordered subscriber list.
//!
//! Commit order is fixed: the in-memory value is swapped first, then
//! persisted, and only on a successful persist are the subscribers
//! notified, each exactly once, in registration order, with the same
//! (previous, current) pair. A failed persist leaves the new value in
//! memory — the swap is deliberately not rolled back — and notifies
//! nobody; a caller that needs memory and disk to agree again
//! re-loads after the error.
//!
//! The ghost delivery log pins the notification discipline down: each
//! committed mutation appends one delivery per subscriber, indexed in
//! registration order. For the same reason the manager hands out no
//! mutable borrow of the value: every change goes through a commit,
//! so none can bypass the persist-then-notify order.

use vstd::prelude::*;

use crate::errors::StorageError;
use crate::storage::ConfigValue;
use crate::storage::Storage;

verus! {

/// A registered callback of one manager, invoked after every
/// committed mutation with the previous and the new value.
pub trait Subscriber<C>: Sized {
    /// Reacts to one committed mutation.
    fn notify(&mut self, previous: &C, current: &C);
}

/// A manager whose mutations nobody observes.
impl<C> Subscriber<C> for () {
    fn notify(&mut self, _previous: &C, _current: &C) {
    }
}

/// One delivery per subscriber, in registration order, all with the
/// same (previous, current) pair.
pub open spec fn delivery_round<C>(count: nat, previous: C, current: C) -> Seq<(int, C, C)> {
    Seq::new(count, |i: int| (i, previous, current))
}

/// The persistent state manager for one configuration domain.
///
/// The manager performs no internal locking: it assumes at most one
/// mutation in flight at a time. Callers sharing one across
/// concurrent execution contexts serialize every access through one
/// external lock.
pub struct PersistentStateManager<C: ConfigValue, S: Storage<C>, U: Subscriber<C>> {
    state: C,
    storage: S,
    subscribers: Vec<U>,
    deliveries: Ghost<Seq<(int, C, C)>>,
}

impl<C: ConfigValue, S: Storage<C>, U: Subscriber<C>> PersistentStateManager<C, S, U> {
    /// The configuration value currently held in memory.
    pub closed spec fn spec_state(&self) -> C {
        self.state
    }

    /// The view of what the wrapped store holds.
    pub closed spec fn store_contents(&self) -> Option<C::V> {
        self.storage.contents()
    }

    /// The registered subscribers, in registration order.
    pub closed spec fn spec_subscribers(&self) -> Seq<U> {
        self.subscribers@
    }

    /// Every notification ever delivered: (subscriber index,
    /// previous value, new value), in delivery order.
    pub closed spec fn deliveries(&self) -> Seq<(int, C, C)> {
        self.deliveries@
    }

    /// The in-memory value is valid for its domain.
    pub open spec fn wf(&self) -> bool {
        C::inv(self.spec_state()@)
    }

    /// Memory and disk agree, as they do after every successful
    /// mutation.
    pub open spec fn in_sync(&self) -> bool {
        self.store_contents() == Some(self.spec_state()@)
    }

    /// A manager holding `config` in memory over `storage`, with no
    /// subscribers. Nothing is persisted yet.
    pub fn new(config: C, storage: S) -> (r: Self)
        requires
            C::inv(config@),
        ensures
            r.spec_state() == config,
            r.store_contents() == storage.contents(),
            r.spec_subscribers().len() == 0,
            r.deliveries().len() == 0,
            r.wf(),
    {
        PersistentStateManager {
            state: config,
            storage,
            subscribers: Vec::new(),
            deliveries: Ghost(Seq::empty()),
        }
    }

    /// A manager started from what the store holds: the saved value
    /// if one exists, else the domain's default, which is then saved
    /// at once. A failure of that initial save is swallowed — the
    /// device still starts on the in-memory default — while a failure
    /// to read the store is surfaced.
    pub fn new_loaded_or_default(storage: S) -> (r: Result<Self, StorageError>)
        ensures
            r matches Ok(m) ==> {
                &&& m.spec_subscribers().len() == 0
                &&& m.deliveries().len() == 0
                &&& m.wf()
                &&& (storage.contents() matches Some(v) ==> m.spec_state()@ == v && m.in_sync())
                &&& (storage.contents() is None ==> m.spec_state()@ == C::spec_default() && (
                m.in_sync() || m.store_contents() is None))
            },
    {
        let mut storage = storage;
        match storage.load() {
            Err(e) => Err(e),
            Ok(Some(value)) => {
                proof {
                    storage.lemma_contents_inv();
                }
                Ok(Self::new(value, storage))
            },
            Ok(None) => {
                let default = C::default_value();
                proof {
                    C::lemma_default_inv();
                }
                // A failed initial save is not fatal; the manager
                // still starts with the in-memory default.
                let _ = storage.save(&default);
                Ok(Self::new(default, storage))
            },
        }
    }

    /// Reads the current value. No side effect.
    pub fn state(&self) -> (r: &C)
        ensures
            *r == self.spec_state(),
    {
        &self.state
    }

    /// Registers a callback; it lives as long as the manager and is
    /// invoked after every later committed mutation, after all
    /// callbacks registered before it.
    pub fn subscribe(&mut self, subscriber: U)
        ensures
            final(self).spec_subscribers() == old(self).spec_subscribers().push(subscriber),
            final(self).spec_state() == old(self).spec_state(),
            final(self).store_contents() == old(self).store_contents(),
            final(self).deliveries() == old(self).deliveries(),
    {
        self.subscribers.push(subscriber);
    }

    /// Replaces the value and commits: persist, then notify. On a
    /// persist failure the replacement stays in memory, the store is
    /// unchanged and nobody is notified.
    pub fn set_state(&mut self, new_state: C) -> (r: Result<(), StorageError>)
        requires
            C::inv(new_state@),
        ensures
            final(self).spec_state() == new_state,
            final(self).wf(),
            final(self).spec_subscribers().len() == old(self).spec_subscribers().len(),
            r is Ok ==> final(self).store_contents() == Some(new_state@) && final(self).in_sync()
                && final(self).deliveries() == old(self).deliveries() + delivery_round(
                old(self).spec_subscribers().len(),
                old(self).spec_state(),
                new_state,
            ),
            r is Err ==> final(self).store_contents() == old(self).store_contents()
                && final(self).deliveries() == old(self).deliveries()
                && final(self).spec_subscribers() == old(self).spec_subscribers(),
    {
        let mut old_state = new_state;
        core::mem::swap(&mut self.state, &mut old_state);
        match self.storage.save(&self.state) {
            Ok(()) => {
                self.notify_subs(&old_state);
                Ok(())
            },
            Err(e) => Err(e),
        }
    }

    /// Computes the replacement from the current value, then commits
    /// exactly as `set_state` does. The mutation function must yield
    /// a well-formed value for the domain.
    pub fn update_state<F: FnOnce(&C) -> C>(&mut self, f: F) -> (r: Result<(), StorageError>)
        requires
            forall|x: &C| *x == old(self).spec_state() ==> call_requires(f, (x,)),
            forall|x: &C, v: C| call_ensures(f, (x,), v) ==> C::inv(v@),
        ensures
            exists|x: &C|
                *x == old(self).spec_state() && call_ensures(f, (x,), final(self).spec_state()),
            final(self).wf(),
            final(self).spec_subscribers().len() == old(self).spec_subscribers().len(),
            r is Ok ==> final(self).in_sync() && final(self).deliveries() == old(self).deliveries()
                + delivery_round(
                old(self).spec_subscribers().len(),
                old(self).spec_state(),
                final(self).spec_state(),
            ),
            r is Err ==> final(self).store_contents() == old(self).store_contents()
                && final(self).deliveries() == old(self).deliveries()
                && final(self).spec_subscribers() == old(self).spec_subscribers(),
    {
        let new_state = f(&self.state);
        self.set_state(new_state)
    }

    /// Delivers (previous, current) to every subscriber, in
    /// registration order.
    fn notify_subs(&mut self, previous: &C)
        ensures
            final(self).spec_state() == old(self).spec_state(),
            final(self).store_contents() == old(self).store_contents(),
            final(self).spec_subscribers().len() == old(self).spec_subscribers().len(),
            final(self).deliveries() == old(self).deliveries() + delivery_round(
                old(self).spec_subscribers().len(),
                *previous,
                old(self).spec_state(),
            ),
    {
        let count = self.subscribers.len();
        let mut i: usize = 0;
        while i < count
            invariant
                i <= count,
                count == self.subscribers@.len(),
                self.state == old(self).spec_state(),
                self.storage.contents() == old(self).store_contents(),
                self.deliveries@ == old(self).deliveries() + delivery_round(
                    i as nat,
                    *previous,
                    old(self).spec_state(),
                ),
            decreases count - i,
        {
            self.subscribers[i].notify(previous, &self.state);
            proof {
                self.deliveries@ = self.deliveries@.push(
                    (i as int, *previous, old(self).spec_state()),
                );
                assert(old(self).deliveries() + delivery_round(
                    (i + 1) as nat,
                    *previous,
                    old(self).spec_state(),
                ) =~= self.deliveries@);
            }
            i = i + 1;
        }
        proof {
            assert(self.deliveries@ =~= old(self).deliveries() + delivery_round(
                old(self).spec_subscribers().len(),
                *previous,
                old(self).spec_state(),
            ));
        }
    }
}

} // verus!
