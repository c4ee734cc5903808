use vstd::prelude::*;
use std::sync::{Arc, Mutex};
use crate::addr::KnownPair;
use crate::pairs::NetPairList;

verus! {

#[verifier::external_type_specification]
#[verifier::external_body]
#[verifier::reject_recursive_types(T)]
pub struct ExMutex<T: ?Sized>(Mutex<T>);

/// Relies on std::sync::Mutex::new and Arc::new: builds a fresh
/// lock-protected slot holding `v`, shared through a new handle.
#[verifier::external_body]
fn new_slot<T>(v: T) -> (r: Arc<Mutex<T>>) {
    Arc::new(Mutex::new(v))
}

/// Relies on std::sync::Mutex::lock: blocks until the slot's lock is
/// free, then reads the protected value. A lock left poisoned by a
/// panicking holder is recovered by taking its inner value, so the call
/// itself never panics.
#[verifier::external_body]
fn read_slot<T: Clone>(cell: &Arc<Mutex<T>>) -> (r: T) {
    match cell.lock() {
        Ok(guard) => (*guard).clone(),
        Err(poisoned) => (*poisoned.into_inner()).clone(),
    }
}

/// Relies on std::sync::Mutex::lock: blocks until the slot's lock is
/// free, then replaces the protected value. Recovers a poisoned lock the
/// same way as the read path.
#[verifier::external_body]
fn write_slot<T>(cell: &Arc<Mutex<T>>, v: T) {
    match cell.lock() {
        Ok(mut guard) => {
            *guard = v;
        },
        Err(poisoned) => {
            *(poisoned.into_inner()) = v;
        },
    }
}

/// Relies on Arc::clone: the result is a new handle onto the very same
/// slot, not a copy of its contents.
#[verifier::external_body]
fn clone_slot<T>(cell: &Arc<Mutex<T>>) -> (r: Arc<Mutex<T>>)
    ensures
        r == *cell,
{
    Arc::clone(cell)
}

/// The lock-protected, multi-owner record of what is known about the
/// network: the gateway identity, this host's own identity, and the
/// table of discovered hosts. Each slot is locked independently; a
/// holder of one slot's lock never blocks users of the other two.
///
/// A `HostMgr` value is a handle: cloning it yields a second handle onto
/// the same three slots, so a write through any clone is seen by every
/// other handle as soon as the slot's lock is released.
pub struct HostMgr {
    gateway: Arc<Mutex<KnownPair>>,
    myself: Arc<Mutex<KnownPair>>,
    nethosts: Arc<Mutex<NetPairList>>,
}

impl HostMgr {
    pub closed spec fn gateway_cell(&self) -> Arc<Mutex<KnownPair>> {
        self.gateway
    }

    pub closed spec fn myself_cell(&self) -> Arc<Mutex<KnownPair>> {
        self.myself
    }

    pub closed spec fn nethosts_cell(&self) -> Arc<Mutex<NetPairList>> {
        self.nethosts
    }

    /// Two handles address the very same three slots.
    pub open spec fn same_cells(&self, other: &HostMgr) -> bool {
        &&& self.gateway_cell() == other.gateway_cell()
        &&& self.myself_cell() == other.myself_cell()
        &&& self.nethosts_cell() == other.nethosts_cell()
    }

    /// Fresh slots for a known gateway and a known local identity; the
    /// table of discovered hosts starts empty.
    pub fn new(gate: KnownPair, me: KnownPair) -> HostMgr {
        HostMgr { gateway: new_slot(gate), myself: new_slot(me), nethosts: new_slot(NetPairList::new()) }
    }

    /// A shared handle onto the gateway slot alone, for a holder that
    /// needs no other slot.
    pub fn get_gateway(&self) -> (r: Arc<Mutex<KnownPair>>)
        ensures
            r == self.gateway_cell(),
    {
        clone_slot(&self.gateway)
    }

    /// A shared handle onto the local-identity slot alone.
    pub fn get_myself(&self) -> (r: Arc<Mutex<KnownPair>>)
        ensures
            r == self.myself_cell(),
    {
        clone_slot(&self.myself)
    }

    /// A shared handle onto the discovered-host slot alone.
    pub fn get_nethosts(&self) -> (r: Arc<Mutex<NetPairList>>)
        ensures
            r == self.nethosts_cell(),
    {
        clone_slot(&self.nethosts)
    }

    /// Read the gateway identity under its lock, blocking until the lock
    /// is free. A concurrent holder of another handle may replace the
    /// value at any moment after the lock is released.
    pub fn acquire_gateway(&self) -> KnownPair {
        read_slot(&self.gateway)
    }

    /// Read this host's own identity under its lock.
    pub fn acquire_myself(&self) -> KnownPair {
        read_slot(&self.myself)
    }

    /// Read the table of discovered hosts under its lock.
    pub fn acquire_nethosts(&self) -> NetPairList {
        read_slot(&self.nethosts)
    }

    /// Replace the gateway identity under its lock; every handle onto
    /// this manager sees the new value once the lock is released.
    pub fn set_gateway(&self, v: KnownPair) {
        write_slot(&self.gateway, v);
    }

    /// Replace this host's own identity under its lock.
    pub fn set_myself(&self, v: KnownPair) {
        write_slot(&self.myself, v);
    }

    /// Replace the table of discovered hosts under its lock.
    pub fn set_nethosts(&self, v: NetPairList) {
        write_slot(&self.nethosts, v);
    }
}

impl Clone for HostMgr {
    /// A second handle onto the same three slots, never a copy of the
    /// values inside them.
    fn clone(&self) -> (r: HostMgr)
        ensures
            r.same_cells(self),
    {
        HostMgr {
            gateway: clone_slot(&self.gateway),
            myself: clone_slot(&self.myself),
            nethosts: clone_slot(&self.nethosts),
        }
    }
}

} // verus!
