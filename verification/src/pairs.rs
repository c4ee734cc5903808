use vstd::prelude::*;
use std::collections::HashMap;
use crate::addr::{Ipv4, Mac};

verus! {

/// The table of hosts discovered on the network. `hosts` keeps the
/// discovery order and is the canonical index order; `macs` maps each
/// discovered address (packed with [`Ipv4::spec_key`]) to its resolved
/// hardware address, or to `None` while it is still unresolved.
#[derive(Clone)]
pub struct NetPairList {
    hosts: Vec<Ipv4>,
    macs: HashMap<u32, Option<Mac>>,
}

impl NetPairList {
    /// The ordered sequence of discovered addresses.
    pub closed spec fn hosts_seq(&self) -> Seq<Ipv4> {
        self.hosts@
    }

    /// The resolution table, keyed by the packed address.
    pub closed spec fn macs_map(&self) -> Map<u32, Option<Mac>> {
        self.macs@
    }

    /// Every address in the ordered host sequence has an entry (possibly
    /// still unresolved) in the resolution table.
    pub open spec fn wf(&self) -> bool {
        forall|i: int|
            0 <= i < self.hosts_seq().len() ==> self.macs_map().contains_key(
                #[trigger] self.hosts_seq()[i].spec_key(),
            )
    }

    pub fn new() -> (r: NetPairList)
        ensures
            r.wf(),
            r.hosts_seq().len() == 0,
            r.macs_map() == Map::<u32, Option<Mac>>::empty(),
    {
        NetPairList { hosts: Vec::new(), macs: HashMap::new() }
    }

    pub fn len(&self) -> (r: usize)
        ensures
            r == self.hosts_seq().len(),
    {
        self.hosts.len()
    }

    pub fn hosts(&self) -> (r: &Vec<Ipv4>)
        ensures
            r@ == self.hosts_seq(),
    {
        &self.hosts
    }

    pub fn macs(&self) -> (r: &HashMap<u32, Option<Mac>>)
        ensures
            r@ == self.macs_map(),
    {
        &self.macs
    }

    /// Indexed lookup in discovery order: the i-th discovered address for
    /// a valid index, nothing for an index at or past the length.
    pub fn get(&self, index: usize) -> (r: Option<&Ipv4>)
        ensures
            index < self.hosts_seq().len() ==> r == Some(&self.hosts_seq()[index as int]),
            index >= self.hosts_seq().len() ==> r is None,
    {
        if index < self.hosts.len() {
            Some(&self.hosts[index])
        } else {
            None
        }
    }

    /// Record a newly discovered address at the end of the discovery
    /// order, resolved or not, keeping the table invariant.
    pub fn push(&mut self, ip: Ipv4, hw: Option<Mac>)
        requires
            old(self).wf(),
        ensures
            final(self).wf(),
            final(self).hosts_seq() == old(self).hosts_seq().push(ip),
            final(self).macs_map() == old(self).macs_map().insert(ip.spec_key(), hw),
    {
        broadcast use vstd::std_specs::hash::group_hash_axioms;

        let key = ip.key();
        self.macs.insert(key, hw);
        self.hosts.push(ip);
        proof {
            assert forall|i: int| 0 <= i < self.hosts_seq().len() implies self.macs_map()
                .contains_key(#[trigger] self.hosts_seq()[i].spec_key()) by {
                if i < old(self).hosts_seq().len() {
                    assert(self.hosts_seq()[i] == old(self).hosts_seq()[i]);
                } else {
                    assert(self.hosts_seq()[i] == ip);
                }
            }
        }
    }
}

} // verus!
