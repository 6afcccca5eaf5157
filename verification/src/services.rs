//! Service flags that a peer advertises.

use vstd::prelude::*;

verus! {

/// Bit of the flag `NODE_NETWORK`: the peer serves full blocks.
pub const NODE_NETWORK_BITS: u64 = 1;

/// All the bits that stand for a known flag.
pub const ALL_SERVICE_BITS: u64 = 1;

/// A set of advertised services, as a bit pattern.
#[derive(Copy, Clone, Debug, PartialEq, Eq, Structural)]
pub struct PeerServices {
    /// The bit pattern.
    pub bits: u64,
}

impl PeerServices {
    /// A set of services is well formed when it holds known flags only.
    pub open spec fn wf(self) -> bool {
        self.bits & ALL_SERVICE_BITS == self.bits
    }

    /// The bit pattern as a mathematical integer.
    pub open spec fn bits_key(self) -> int {
        self.bits as int
    }

    /// No service at all.
    pub fn empty() -> (s: Self)
        ensures
            s.bits == 0,
            s.wf(),
    {
        assert(0u64 & 1u64 == 0u64) by (bit_vector);
        PeerServices { bits: 0 }
    }

    /// The flag `NODE_NETWORK` alone.
    pub fn node_network() -> (s: Self)
        ensures
            s.bits == NODE_NETWORK_BITS,
            s.wf(),
    {
        assert(1u64 & 1u64 == 1u64) by (bit_vector);
        PeerServices { bits: NODE_NETWORK_BITS }
    }

    /// Makes a set of services from a bit pattern, dropping the bits that
    /// stand for no known flag.
    pub fn from_bits_truncate(bits: u64) -> (s: Self)
        ensures
            s.bits == bits & ALL_SERVICE_BITS,
            s.wf(),
            (PeerServices { bits }).wf() ==> s.bits == bits,
    {
        assert((bits & 1u64) & 1u64 == bits & 1u64) by (bit_vector);
        PeerServices { bits: bits & ALL_SERVICE_BITS }
    }

    /// The bit pattern.
    pub fn bits(&self) -> (bits: u64)
        ensures
            bits == self.bits,
    {
        self.bits
    }

    pub(crate) fn bits_wide(&self) -> (k: u128)
        ensures
            k == self.bits_key(),
    {
        self.bits as u128
    }
}

} // verus!
