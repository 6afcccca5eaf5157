//! The wire format of an address record: 30 bytes.
//!
//! Four bytes of Unix seconds and eight bytes of service bits, both
//! little-endian; the sixteen bytes of the IP address, an IPv4 address in its
//! IPv4-mapped IPv6 form; two bytes of port, big-endian.

use vstd::prelude::*;

use crate::address::{PeerIp, PeerSocketAddr};
use crate::endian::{
    be_bytes, be_value, le_bytes, le_value, lemma_be_round_trip, lemma_bytes_len,
    lemma_le_round_trip, lemma_pow256_values, read_u128_be, read_u16_be, read_u32_le,
    read_u64_le, u128_be_bytes, u16_be_bytes, u32_le_bytes, u64_le_bytes,
};
use crate::meta_addr::{MetaAddr, PeerAddrState};
use crate::serialization::{max_elements, SerializationError, TrustedPreallocate};
use crate::services::{PeerServices, ALL_SERVICE_BITS};
use crate::timestamp::Timestamp;

verus! {

/// A serialized address record has a 4 byte time, 8 bytes of services, a 16
/// byte IP address and a 2 byte port.
pub const META_ADDR_SIZE: usize = 30;

/// The first IPv4-mapped IPv6 address, `::ffff:0.0.0.0`, as a number.
pub const IPV4_MAPPED_FIRST: u128 = 0xffff_0000_0000;

/// The last IPv4-mapped IPv6 address, `::ffff:255.255.255.255`, as a number.
pub const IPV4_MAPPED_LAST: u128 = 0xffff_ffff_ffff;

impl PeerIp {
    /// The number that the sixteen bytes on the wire spell.
    pub open spec fn wire_number(self) -> nat {
        match self {
            PeerIp::V4(a) => (IPV4_MAPPED_FIRST + a) as nat,
            PeerIp::V6(a) => a as nat,
        }
    }

    /// The address that sixteen bytes on the wire stand for: an IPv4 address
    /// where they spell an IPv4-mapped address.
    pub open spec fn of_wire_number(n: nat) -> PeerIp {
        if IPV4_MAPPED_FIRST <= n <= IPV4_MAPPED_LAST {
            PeerIp::V4((n - IPV4_MAPPED_FIRST) as u32)
        } else {
            PeerIp::V6(n as u128)
        }
    }

    /// Whether the address is held in the form that the wire gives back: an
    /// IPv4-mapped address is held as IPv4.
    pub open spec fn is_canonical(self) -> bool {
        match self {
            PeerIp::V4(_) => true,
            PeerIp::V6(a) => !(IPV4_MAPPED_FIRST <= a <= IPV4_MAPPED_LAST),
        }
    }

    /// The number that the sixteen bytes on the wire spell.
    pub fn to_wire_number(&self) -> (n: u128)
        ensures
            n == self.wire_number(),
    {
        match self {
            PeerIp::V4(a) => IPV4_MAPPED_FIRST + (*a as u128),
            PeerIp::V6(a) => *a,
        }
    }

    /// The address that sixteen bytes on the wire stand for.
    pub fn from_wire_number(n: u128) -> (ip: PeerIp)
        ensures
            ip == Self::of_wire_number(n as nat),
            ip.is_canonical(),
    {
        if IPV4_MAPPED_FIRST <= n && n <= IPV4_MAPPED_LAST {
            PeerIp::V4((n - IPV4_MAPPED_FIRST) as u32)
        } else {
            PeerIp::V6(n)
        }
    }
}

impl Timestamp {
    /// The seconds as the wire holds them: their low 32 bits.
    pub open spec fn wire_seconds(self) -> nat {
        (self.secs % 0x1_0000_0000) as nat
    }
}

impl MetaAddr {
    /// The 30 bytes of the record on the wire.
    pub open spec fn encoding(self) -> Seq<u8> {
        le_bytes(self.last_seen.wire_seconds(), 4) + le_bytes(self.services.bits as nat, 8)
            + be_bytes(self.addr.ip.wire_number(), 16) + be_bytes(self.addr.port as nat, 2)
    }

    /// The record that 30 bytes from the wire stand for.
    pub open spec fn decoded(bytes: Seq<u8>) -> MetaAddr {
        MetaAddr::of_parts(
            PeerSocketAddr {
                ip: PeerIp::of_wire_number(be_value(bytes.subrange(12, 28))),
                port: be_value(bytes.subrange(28, 30)) as u16,
            },
            PeerServices { bits: (le_value(bytes.subrange(4, 12)) as u64) & ALL_SERVICE_BITS },
            Timestamp { secs: le_value(bytes.subrange(0, 4)) as i64, nanos: 0 },
            PeerAddrState::NeverAttempted,
        )
    }

    /// What bytes from the wire stand for: the record that the first 30
    /// stand for, or an error where there are fewer.
    pub open spec fn parsed(bytes: Seq<u8>) -> Result<MetaAddr, SerializationError> {
        if bytes.len() < META_ADDR_SIZE {
            Err(SerializationError::UnexpectedEof)
        } else {
            Ok(Self::decoded(bytes.subrange(0, 30)))
        }
    }

    /// The record as the wire gives it back: whole seconds in 32 bits, the
    /// state reset.
    pub open spec fn as_gossiped(self) -> MetaAddr {
        MetaAddr::of_parts(
            PeerSocketAddr {
                ip: PeerIp::of_wire_number(self.addr.ip.wire_number()),
                port: self.addr.port,
            },
            self.services,
            Timestamp { secs: self.last_seen.wire_seconds() as i64, nanos: 0 },
            PeerAddrState::NeverAttempted,
        )
    }

    /// Writes the record in its wire format.
    pub fn zcash_serialize(&self) -> (out: Vec<u8>)
        ensures
            out@ == self.encoding(),
            out@.len() == META_ADDR_SIZE,
    {
        let low: i64 = match self.last_seen.secs.checked_rem_euclid(0x1_0000_0000) {
            Some(low) => low,
            None => 0,
        };
        let mut out = u32_le_bytes(low as u32);
        let mut services = u64_le_bytes(self.services.bits());
        let mut ip = u128_be_bytes(self.addr.ip.to_wire_number());
        let mut port = u16_be_bytes(self.addr.port);
        proof {
            lemma_bytes_len(self.last_seen.wire_seconds(), 4);
            lemma_bytes_len(self.services.bits as nat, 8);
            lemma_bytes_len(self.addr.ip.wire_number(), 16);
            lemma_bytes_len(self.addr.port as nat, 2);
        }
        out.append(&mut services);
        out.append(&mut ip);
        out.append(&mut port);
        out
    }

    /// Reads a record in its wire format from the start of `bytes`. The
    /// state of the record is `NeverAttempted`. Fewer than 30 bytes are
    /// refused.
    pub fn zcash_deserialize(bytes: &[u8]) -> (r: Result<MetaAddr, SerializationError>)
        ensures
            r == Self::parsed(bytes@),
            r is Ok <==> bytes@.len() >= META_ADDR_SIZE,
            r is Ok ==> r->Ok_0.wf() && r->Ok_0.addr.ip.is_canonical(),
    {
        if bytes.len() < META_ADDR_SIZE {
            return Err(SerializationError::UnexpectedEof);
        }
        let ghost record = bytes@.subrange(0, 30);
        let time_bytes = vstd::slice::slice_subrange(bytes, 0, 4);
        let services_bytes = vstd::slice::slice_subrange(bytes, 4, 12);
        let ip_bytes = vstd::slice::slice_subrange(bytes, 12, 28);
        let port_bytes = vstd::slice::slice_subrange(bytes, 28, 30);
        proof {
            assert(time_bytes@.subrange(0, 4) =~= record.subrange(0, 4));
            assert(services_bytes@.subrange(0, 8) =~= record.subrange(4, 12));
            assert(ip_bytes@.subrange(0, 16) =~= record.subrange(12, 28));
            assert(port_bytes@.subrange(0, 2) =~= record.subrange(28, 30));
        }
        let secs = read_u32_le(time_bytes);
        let services = PeerServices::from_bits_truncate(read_u64_le(services_bytes));
        let ip = PeerIp::from_wire_number(read_u128_be(ip_bytes));
        let port = read_u16_be(port_bytes);
        let addr = PeerSocketAddr::new(ip, port);
        let last_seen = Timestamp::from_secs(secs as i64);
        Ok(MetaAddr::new_gossiped(&addr, &services, &last_seen))
    }

    /// Reading back what was written gives the record as the wire holds it.
    pub proof fn lemma_decode_encode(self)
        requires
            self.services.wf(),
        ensures
            self.encoding().len() == META_ADDR_SIZE,
            Self::decoded(self.encoding()) == self.as_gossiped(),
            Self::parsed(self.encoding()) == Ok::<MetaAddr, SerializationError>(
                self.as_gossiped(),
            ),
    {
        let time = le_bytes(self.last_seen.wire_seconds(), 4);
        let services = le_bytes(self.services.bits as nat, 8);
        let ip = be_bytes(self.addr.ip.wire_number(), 16);
        let port = be_bytes(self.addr.port as nat, 2);
        lemma_bytes_len(self.last_seen.wire_seconds(), 4);
        lemma_bytes_len(self.services.bits as nat, 8);
        lemma_bytes_len(self.addr.ip.wire_number(), 16);
        lemma_bytes_len(self.addr.port as nat, 2);
        lemma_pow256_values();
        lemma_le_round_trip(self.last_seen.wire_seconds(), 4);
        lemma_le_round_trip(self.services.bits as nat, 8);
        lemma_be_round_trip(self.addr.ip.wire_number(), 16);
        lemma_be_round_trip(self.addr.port as nat, 2);
        let all = self.encoding();
        assert(all.subrange(0, 4) =~= time);
        assert(all.subrange(4, 12) =~= services);
        assert(all.subrange(12, 28) =~= ip);
        assert(all.subrange(28, 30) =~= port);
        assert(all.subrange(0, 30) =~= all);
    }

    /// Writing a record and reading it back gives the record with its state
    /// reset and its time in whole seconds, where the time lies in the 32
    /// bits of the wire format, the services are known flags and the address
    /// is canonical.
    pub proof fn lemma_round_trip(self)
        requires
            self.services.wf(),
            self.addr.ip.is_canonical(),
            0 <= self.last_seen.secs < 0x1_0000_0000,
        ensures
            Self::parsed(self.encoding()) == Ok::<MetaAddr, SerializationError>(
                MetaAddr::of_parts(
                    self.addr,
                    self.services,
                    Timestamp { secs: self.last_seen.secs, nanos: 0 },
                    PeerAddrState::NeverAttempted,
                ),
            ),
    {
        self.lemma_decode_encode();
    }
}

impl TrustedPreallocate for MetaAddr {
    open spec fn wire_size() -> nat {
        META_ADDR_SIZE as nat
    }

    /// A longest list of addresses has more than 252 elements, so its length
    /// prefix takes three bytes at least.
    open spec fn min_prefix_len() -> nat {
        3
    }

    open spec fn decoding(bytes: Seq<u8>) -> Result<Self, SerializationError> {
        Self::parsed(bytes)
    }

    fn element_size() -> (size: usize) {
        META_ADDR_SIZE
    }

    fn max_allocation() -> (max: u64)
        ensures
            max == 66_666,
    {
        max_elements(3, META_ADDR_SIZE)
    }

    fn decode(bytes: &[u8]) -> (r: Result<Self, SerializationError>) {
        MetaAddr::zcash_deserialize(bytes)
    }
}

} // verus!
