//! A peer address with metadata: advertised services, the time of the last
//! interaction and the outcome of the last connection attempt.

use std::cmp::Ordering;
use vstd::prelude::*;

use crate::address::PeerSocketAddr;
use crate::clock::utc_now;
use crate::constants::TIMESTAMP_TRUNCATION_SECONDS;
use crate::services::PeerServices;
use crate::timestamp::Timestamp;

verus! {

/// The ordering of two integers.
pub open spec fn int_ordering(a: int, b: int) -> Ordering {
    if a < b {
        Ordering::Less
    } else if a == b {
        Ordering::Equal
    } else {
        Ordering::Greater
    }
}

/// Lexical composition: the first ordering decides unless it is `Equal`.
pub open spec fn lexical(first: Ordering, rest: Ordering) -> Ordering {
    if first == Ordering::Equal {
        rest
    } else {
        first
    }
}

/// An ordering turned round: `Less` for `Greater` and back.
pub open spec fn reversed(o: Ordering) -> Ordering {
    match o {
        Ordering::Less => Ordering::Greater,
        Ordering::Equal => Ordering::Equal,
        Ordering::Greater => Ordering::Less,
    }
}

fn cmp_wide(a: u128, b: u128) -> (o: Ordering)
    ensures
        a < b ==> o == Ordering::Less,
        a == b ==> o == Ordering::Equal,
        a > b ==> o == Ordering::Greater,
{
    if a < b {
        Ordering::Less
    } else if a == b {
        Ordering::Equal
    } else {
        Ordering::Greater
    }
}

fn lexical_of(first: Ordering, rest: Ordering) -> (o: Ordering)
    ensures
        o == lexical(first, rest),
{
    match first {
        Ordering::Equal => rest,
        _ => first,
    }
}

/// Peer connection state, based on our interactions with the peer.
///
/// Liveness is not part of the state: it is derived from the time of the last
/// interaction and the current time.
#[derive(Copy, Clone, Debug, PartialEq, Eq, Structural)]
pub enum PeerAddrState {
    /// The peer has sent us a valid message.
    Responded,
    /// The address was learned from a seeder or from gossip, and no
    /// connection to it has been attempted yet.
    NeverAttempted,
    /// The connection failed, or the peer sent an unexpected message.
    Failed,
    /// A connection attempt to this peer has just been started.
    AttemptPending,
}

impl Default for PeerAddrState {
    fn default() -> (state: Self)
        ensures
            state == PeerAddrState::NeverAttempted,
    {
        PeerAddrState::NeverAttempted
    }
}

impl PeerAddrState {
    /// Position of the state in reconnection order: peers that responded come
    /// first, then never attempted addresses, then failed ones; pending
    /// attempts come last.
    pub open spec fn rank(self) -> int {
        match self {
            PeerAddrState::Responded => 0,
            PeerAddrState::NeverAttempted => 1,
            PeerAddrState::Failed => 2,
            PeerAddrState::AttemptPending => 3,
        }
    }

    /// The ordering of two states, by rank.
    pub open spec fn ordering(self, other: Self) -> Ordering {
        int_ordering(self.rank(), other.rank())
    }

    /// Compares two states in approximate reconnection attempt order,
    /// ignoring liveness.
    pub fn cmp(&self, other: &Self) -> (o: Ordering)
        ensures
            o == self.ordering(*other),
    {
        match (self, other) {
            (PeerAddrState::Responded, PeerAddrState::Responded)
            | (PeerAddrState::NeverAttempted, PeerAddrState::NeverAttempted)
            | (PeerAddrState::Failed, PeerAddrState::Failed)
            | (PeerAddrState::AttemptPending, PeerAddrState::AttemptPending) => Ordering::Equal,
            (PeerAddrState::Responded, _) => Ordering::Less,
            (_, PeerAddrState::Responded) => Ordering::Greater,
            (PeerAddrState::NeverAttempted, _) => Ordering::Less,
            (_, PeerAddrState::NeverAttempted) => Ordering::Greater,
            (PeerAddrState::Failed, _) => Ordering::Less,
            (_, PeerAddrState::Failed) => Ordering::Greater,
        }
    }
}

impl PartialOrd for PeerAddrState {
    fn partial_cmp(&self, other: &Self) -> (o: Option<Ordering>) {
        Some(self.cmp(other))
    }
}

impl vstd::std_specs::cmp::PartialOrdSpecImpl for PeerAddrState {
    open spec fn obeys_partial_cmp_spec() -> bool {
        true
    }

    open spec fn partial_cmp_spec(&self, other: &Self) -> Option<Ordering> {
        Some(self.ordering(*other))
    }
}

/// An address with metadata on its advertised services and last-seen time.
#[derive(Copy, Clone, Debug, PartialEq, Eq, Structural)]
pub struct MetaAddr {
    /// The peer's address.
    pub addr: PeerSocketAddr,
    /// The services advertised by the peer.
    ///
    /// Services of `NeverAttempted` peers are unverified: they come from the
    /// peer that sent us the address.
    pub services: PeerServices,
    /// The last time we interacted with this peer. It changes together with
    /// the state, never alone.
    pub last_seen: Timestamp,
    /// The outcome of our most recent communication attempt with this peer.
    pub last_connection_state: PeerAddrState,
}

impl MetaAddr {
    /// A record is well formed when its services and its timestamp are.
    pub open spec fn wf(self) -> bool {
        self.services.wf() && self.last_seen.wf()
    }

    /// The record that the four parts make.
    pub open spec fn of_parts(
        addr: PeerSocketAddr,
        services: PeerServices,
        last_seen: Timestamp,
        state: PeerAddrState,
    ) -> MetaAddr {
        MetaAddr { addr, services, last_seen, last_connection_state: state }
    }

    /// Creates a record from its four parts.
    pub fn new(
        addr: &PeerSocketAddr,
        services: &PeerServices,
        last_seen: &Timestamp,
        state: PeerAddrState,
    ) -> (meta: MetaAddr)
        ensures
            meta == Self::of_parts(*addr, *services, *last_seen, state),
    {
        MetaAddr {
            addr: *addr,
            services: *services,
            last_seen: *last_seen,
            last_connection_state: state,
        }
    }

    /// Creates a record from the fields of a gossiped address: the state is
    /// `NeverAttempted`.
    pub fn new_gossiped(
        addr: &PeerSocketAddr,
        services: &PeerServices,
        last_seen: &Timestamp,
    ) -> (meta: MetaAddr)
        ensures
            meta == Self::of_parts(*addr, *services, *last_seen, PeerAddrState::NeverAttempted),
    {
        MetaAddr::new(addr, services, last_seen, PeerAddrState::NeverAttempted)
    }

    /// Creates a record for a peer that has just responded; the time is read
    /// from the clock.
    pub fn new_responded(addr: &PeerSocketAddr, services: &PeerServices) -> (meta: MetaAddr)
        ensures
            meta == Self::of_parts(
                *addr,
                *services,
                meta.last_seen,
                PeerAddrState::Responded,
            ),
            meta.last_seen.wf(),
    {
        let now = utc_now();
        MetaAddr::new(addr, services, &now, PeerAddrState::Responded)
    }

    /// Creates a record for a peer that we want to reconnect to; the time is
    /// read from the clock.
    pub fn new_reconnect(addr: &PeerSocketAddr, services: &PeerServices) -> (meta: MetaAddr)
        ensures
            meta == Self::of_parts(
                *addr,
                *services,
                meta.last_seen,
                PeerAddrState::AttemptPending,
            ),
            meta.last_seen.wf(),
    {
        let now = utc_now();
        MetaAddr::new(addr, services, &now, PeerAddrState::AttemptPending)
    }

    /// Creates a record for a peer that has just had an error; the time is
    /// read from the clock.
    pub fn new_errored(addr: &PeerSocketAddr, services: &PeerServices) -> (meta: MetaAddr)
        ensures
            meta == Self::of_parts(*addr, *services, meta.last_seen, PeerAddrState::Failed),
            meta.last_seen.wf(),
    {
        let now = utc_now();
        MetaAddr::new(addr, services, &now, PeerAddrState::Failed)
    }

    /// Creates a record for a peer that has just shut down. A shutdown counts
    /// as a failure, whatever the state of the peer was before.
    pub fn new_shutdown(addr: &PeerSocketAddr, services: &PeerServices) -> (meta: MetaAddr)
        ensures
            meta == Self::of_parts(*addr, *services, meta.last_seen, PeerAddrState::Failed),
            meta.last_seen.wf(),
    {
        MetaAddr::new_errored(addr, services)
    }

    /// The last time we interacted with this peer.
    ///
    /// For a `NeverAttempted` peer this is the unverified time that another
    /// peer sent with the address.
    pub fn get_last_seen(&self) -> (last_seen: Timestamp)
        ensures
            last_seen == self.last_seen,
    {
        self.last_seen
    }

    /// The sanitized form of a record: its time truncated to the start of its
    /// bucket, its state reset.
    pub open spec fn sanitized(self) -> MetaAddr {
        Self::of_parts(
            self.addr,
            self.services,
            self.last_seen.truncated(),
            PeerAddrState::NeverAttempted,
        )
    }

    /// Returns a sanitized version of this record, for sending to a remote
    /// peer: the time is truncated to a multiple of
    /// `TIMESTAMP_TRUNCATION_SECONDS`, and the state is reset so that our
    /// history with the peer is not disclosed.
    pub fn sanitize(&self) -> (meta: MetaAddr)
        requires
            self.last_seen.secs - self.last_seen.secs % TIMESTAMP_TRUNCATION_SECONDS >= i64::MIN,
        ensures
            meta == self.sanitized(),
            meta.addr == self.addr,
            meta.services == self.services,
            meta.last_connection_state == PeerAddrState::NeverAttempted,
            meta.last_seen.secs % TIMESTAMP_TRUNCATION_SECONDS == 0,
            meta.last_seen.nanos == 0,
            meta.last_seen.secs <= self.last_seen.secs
                < meta.last_seen.secs + TIMESTAMP_TRUNCATION_SECONDS,
            self.wf() ==> meta.wf(),
    {
        let last_seen = self.get_last_seen().truncate();
        MetaAddr {
            addr: self.addr,
            services: self.services,
            last_seen,
            last_connection_state: PeerAddrState::NeverAttempted,
        }
    }

    /// The ordering of the last-seen times as reconnection order wants it:
    /// the newest first among `NeverAttempted` records, the oldest first
    /// among the others.
    pub open spec fn reconnection_time_ordering(self, other: Self) -> Ordering {
        match self.last_connection_state {
            PeerAddrState::NeverAttempted => reversed(
                self.last_seen.ordering(other.last_seen),
            ),
            _ => self.last_seen.ordering(other.last_seen),
        }
    }

    /// The ordering of two records: by state, then by reconnection time,
    /// then by IP family and IP number, port and service bits.
    pub open spec fn ordering(self, other: Self) -> Ordering {
        lexical(
            self.last_connection_state.ordering(other.last_connection_state),
            lexical(
                self.reconnection_time_ordering(other),
                lexical(
                    int_ordering(self.addr.ip.family_key(), other.addr.ip.family_key()),
                    lexical(
                        int_ordering(self.addr.ip.numeric_key(), other.addr.ip.numeric_key()),
                        lexical(
                            int_ordering(self.addr.port_key(), other.addr.port_key()),
                            int_ordering(self.services.bits_key(), other.services.bits_key()),
                        ),
                    ),
                ),
            ),
        )
    }

    /// Whether `self` sorts strictly before `other`.
    pub open spec fn sorts_before(self, other: Self) -> bool {
        self.ordering(other) == Ordering::Less
    }

    /// Compares two records in approximate reconnection attempt order, with
    /// the peers that responded first as a group. The last keys carry no
    /// meaning: they make the order total.
    pub fn cmp(&self, other: &Self) -> (o: Ordering)
        ensures
            o == self.ordering(*other),
    {
        let oldest_first = self.get_last_seen().cmp(&other.get_last_seen());
        let newest_first = match oldest_first {
            Ordering::Less => Ordering::Greater,
            Ordering::Equal => Ordering::Equal,
            Ordering::Greater => Ordering::Less,
        };
        let connection_state = self.last_connection_state.cmp(&other.last_connection_state);
        let reconnection_time = match self.last_connection_state {
            PeerAddrState::Responded => oldest_first,
            PeerAddrState::NeverAttempted => newest_first,
            PeerAddrState::Failed => oldest_first,
            PeerAddrState::AttemptPending => oldest_first,
        };
        let ip_family = cmp_wide(self.addr.ip.family(), other.addr.ip.family());
        let ip_numeric = cmp_wide(self.addr.ip.numeric(), other.addr.ip.numeric());
        let port = cmp_wide(self.addr.port_wide(), other.addr.port_wide());
        let services = cmp_wide(self.services.bits_wide(), other.services.bits_wide());
        lexical_of(
            connection_state,
            lexical_of(
                reconnection_time,
                lexical_of(ip_family, lexical_of(ip_numeric, lexical_of(port, services))),
            ),
        )
    }

    /// Tells whether `self` sorts strictly before `other`.
    pub fn is_before(&self, other: &Self) -> (b: bool)
        ensures
            b == self.sorts_before(*other),
    {
        match self.cmp(other) {
            Ordering::Less => true,
            _ => false,
        }
    }

    /// Two records compare as equal exactly when they are the same record.
    pub proof fn lemma_ordering_equal_iff_same(self, other: Self)
        ensures
            self.ordering(other) == Ordering::Equal <==> self == other,
    {
    }

    /// Turning the arguments round turns the ordering round, so of `<`, `=`
    /// and `>` exactly one holds of any two records.
    pub proof fn lemma_ordering_antisymmetric(self, other: Self)
        ensures
            other.ordering(self) == reversed(self.ordering(other)),
            self.sorts_before(other) ==> !other.sorts_before(self) && self != other,
            self.sorts_before(other) || other.sorts_before(self) || self == other,
    {
    }

    /// The order is transitive.
    pub proof fn lemma_ordering_transitive(self, middle: Self, other: Self)
        requires
            self.sorts_before(middle) || self == middle,
            middle.sorts_before(other) || middle == other,
        ensures
            self.sorts_before(other) || self == other,
            self.sorts_before(middle) && middle.sorts_before(other) ==> self.sorts_before(other),
            (self.sorts_before(middle) || middle.sorts_before(other)) ==> self.sorts_before(other),
    {
    }
}

impl PartialOrd for MetaAddr {
    fn partial_cmp(&self, other: &Self) -> (o: Option<Ordering>) {
        Some(self.cmp(other))
    }
}

impl vstd::std_specs::cmp::PartialOrdSpecImpl for MetaAddr {
    open spec fn obeys_partial_cmp_spec() -> bool {
        true
    }

    open spec fn partial_cmp_spec(&self, other: &Self) -> Option<Ordering> {
        Some(self.ordering(*other))
    }
}

} // verus!
