use vstd::prelude::*;

verus! {

/// An IPv4 protocol address, one octet per field, most significant octet
/// first.
#[derive(Clone, Copy, PartialEq, Eq, Structural, Debug, Hash)]
pub struct Ipv4(pub u8, pub u8, pub u8, pub u8);

impl Ipv4 {
    /// The address packed into one 32-bit integer, most significant octet
    /// first; used as the lookup key of the resolution table.
    pub open spec fn spec_key(self) -> u32 {
        ((self.0 as u32) << 24) | ((self.1 as u32) << 16) | ((self.2 as u32) << 8) | (
        self.3 as u32)
    }

    /// Pack the four octets into the 32-bit table key.
    pub fn key(self) -> (r: u32)
        ensures
            r == self.spec_key(),
    {
        ((self.0 as u32) << 24) | ((self.1 as u32) << 16) | ((self.2 as u32) << 8) | (
        self.3 as u32)
    }
}

/// A hardware (link-layer) address, one octet per field, most significant
/// octet first.
#[derive(Clone, Copy, PartialEq, Eq, Structural, Debug, Hash)]
pub struct Mac(pub u8, pub u8, pub u8, pub u8, pub u8, pub u8);

/// An identity that must be known to the framework: a protocol address
/// bound to the hardware address it resolves to. Immutable once built;
/// a slot of `HostMgr` replaces a pair wholesale rather than editing it.
#[derive(Clone, Copy, PartialEq, Eq, Structural, Debug)]
pub struct KnownPair {
    pub proto: Ipv4,
    pub hardw: Mac,
}

impl KnownPair {
    pub fn new(ip: Ipv4, hw: Mac) -> (r: KnownPair)
        ensures
            r.proto == ip,
            r.hardw == hw,
    {
        KnownPair { proto: ip, hardw: hw }
    }
}

} // verus!
