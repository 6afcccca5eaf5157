//! The address book: a bounded registry of peers, one record per address.

use vstd::prelude::*;

use crate::address::PeerSocketAddr;
use crate::meta_addr::{MetaAddr, PeerAddrState};
use crate::timestamp::Timestamp;

verus! {

/// Whether some record of `records` has the address `addr`.
pub open spec fn has_addr(records: Seq<MetaAddr>, addr: PeerSocketAddr) -> bool {
    exists|i: int| 0 <= i < records.len() && (#[trigger] records[i]).addr == addr
}

/// Whether no two records of `records` share an address.
pub open spec fn distinct_addrs(records: Seq<MetaAddr>) -> bool {
    forall|i: int, j: int|
        0 <= i < records.len() && 0 <= j < records.len() && i != j ==> (#[trigger] records[i]).addr
            != (#[trigger] records[j]).addr
}

/// The place of the record with the address `addr`.
pub open spec fn index_of_addr(records: Seq<MetaAddr>, addr: PeerSocketAddr) -> int {
    choose|i: int| 0 <= i < records.len() && (#[trigger] records[i]).addr == addr
}

/// Whether the record at `w` sorts last: it sorts before no record.
pub open spec fn is_worst(records: Seq<MetaAddr>, w: int) -> bool {
    &&& 0 <= w < records.len()
    &&& forall|j: int| 0 <= j < records.len() ==> !records[w].sorts_before(#[trigger] records[j])
}

/// The place of the record that sorts last.
pub open spec fn worst_index(records: Seq<MetaAddr>) -> int {
    choose|w: int| is_worst(records, w)
}

/// The records after `record` has come in, under the limit `limit`.
///
/// A record for a known address takes the place of the old one. A record
/// for a new address is added while there is room. When there is none, the
/// record that sorts last among the old ones and the new one leaves: the new
/// record takes the place of the worst old one, or is dropped where it
/// sorts last itself.
pub open spec fn inserted(records: Seq<MetaAddr>, limit: nat, record: MetaAddr) -> Seq<MetaAddr> {
    if has_addr(records, record.addr) {
        records.update(index_of_addr(records, record.addr), record)
    } else if records.len() < limit {
        records.push(record)
    } else if records.len() > 0 && record.sorts_before(records[worst_index(records)]) {
        records.update(worst_index(records), record)
    } else {
        records
    }
}

/// The records after each record of `incoming` has come in, in order.
pub open spec fn extended(records: Seq<MetaAddr>, limit: nat, incoming: Seq<MetaAddr>) -> Seq<
    MetaAddr,
>
    decreases incoming.len(),
{
    if incoming.len() == 0 {
        records
    } else {
        extended(inserted(records, limit, incoming[0]), limit, incoming.drop_first())
    }
}

/// Whether a connection to the peer of `record` should be attempted at the
/// time `now`: no attempt is pending, and the peer has not responded since
/// the liveness cutoff.
pub open spec fn is_candidate(record: MetaAddr, now: Timestamp) -> bool {
    &&& record.last_connection_state != PeerAddrState::AttemptPending
    &&& !(record.last_connection_state == PeerAddrState::Responded && record.last_seen.is_after(
        now.liveness_cutoff(),
    ))
}

/// Whether the record at `k` is the candidate to try first: a candidate
/// that no other candidate sorts before.
pub open spec fn is_first_candidate(records: Seq<MetaAddr>, now: Timestamp, k: int) -> bool {
    &&& 0 <= k < records.len()
    &&& is_candidate(records[k], now)
    &&& forall|j: int|
        0 <= j < records.len() && is_candidate(#[trigger] records[j], now)
            ==> !records[j].sorts_before(records[k])
}

/// Whether each record of `sorted` sorts strictly before the next ones.
pub open spec fn strictly_sorted(sorted: Seq<MetaAddr>) -> bool {
    forall|i: int, j: int|
        0 <= i < j < sorted.len() ==> (#[trigger] sorted[i]).sorts_before(#[trigger] sorted[j])
}

/// A registry of peer addresses with their metadata, one record per address
/// and no more records than its limit.
pub struct AddressBook {
    records: Vec<MetaAddr>,
    limit: usize,
}

impl View for AddressBook {
    type V = Seq<MetaAddr>;

    /// The records, in the order of their places.
    closed spec fn view(&self) -> Seq<MetaAddr> {
        self.records@
    }
}

impl AddressBook {
    /// The largest number of records that the book holds.
    pub closed spec fn limit(&self) -> nat {
        self.limit as nat
    }

    /// A book is well formed when no two records share an address and the
    /// records are no more than the limit.
    pub open spec fn wf(&self) -> bool {
        distinct_addrs(self@) && self@.len() <= self.limit()
    }

    /// Makes an empty book that holds up to `limit` records.
    pub fn new(limit: usize) -> (book: AddressBook)
        ensures
            book.wf(),
            book@ == Seq::<MetaAddr>::empty(),
            book.limit() == limit,
    {
        AddressBook { records: Vec::new(), limit }
    }

    /// The number of records.
    pub fn len(&self) -> (n: usize)
        ensures
            n == self@.len(),
    {
        self.records.len()
    }

    /// Tells whether the book holds no record.
    pub fn is_empty(&self) -> (b: bool)
        ensures
            b == (self@.len() == 0),
    {
        self.records.len() == 0
    }

    /// The largest number of records that the book holds.
    pub fn capacity(&self) -> (n: usize)
        ensures
            n == self.limit(),
    {
        self.limit
    }

    /// The records, in the order of their places.
    pub fn peers(&self) -> (records: Vec<MetaAddr>)
        ensures
            records@ == self@,
    {
        self.records.clone()
    }

    fn position(&self, addr: &PeerSocketAddr) -> (found: Option<usize>)
        ensures
            match found {
                Some(i) => i < self@.len() && self@[i as int].addr == *addr,
                None => !has_addr(self@, *addr),
            },
    {
        let mut i: usize = 0;
        while i < self.records.len()
            invariant
                i <= self.records@.len(),
                forall|j: int| 0 <= j < i ==> (#[trigger] self.records@[j]).addr != *addr,
            decreases self.records@.len() - i,
        {
            if self.records[i].addr == *addr {
                return Some(i);
            }
            i = i + 1;
        }
        None
    }

    /// Tells whether the book holds a record for `addr`.
    pub fn contains(&self, addr: &PeerSocketAddr) -> (b: bool)
        ensures
            b == has_addr(self@, *addr),
    {
        self.position(addr).is_some()
    }

    /// The record for `addr`, if the book holds one.
    pub fn get(&self, addr: &PeerSocketAddr) -> (found: Option<MetaAddr>)
        ensures
            match found {
                Some(record) => record.addr == *addr && self@.contains(record),
                None => !has_addr(self@, *addr),
            },
    {
        match self.position(addr) {
            Some(i) => Some(self.records[i]),
            None => None,
        }
    }

    fn worst(&self) -> (w: usize)
        requires
            self@.len() > 0,
        ensures
            is_worst(self@, w as int),
    {
        let mut w: usize = 0;
        let mut i: usize = 1;
        while i < self.records.len()
            invariant
                1 <= i <= self.records@.len(),
                w < i,
                forall|j: int|
                    0 <= j < i ==> !self.records@[w as int].sorts_before(
                        #[trigger] self.records@[j],
                    ),
            decreases self.records@.len() - i,
        {
            if self.records[w].is_before(&self.records[i]) {
                w = i;
            }
            i = i + 1;
        }
        w
    }

    /// Adds `record`, or puts it in the place of the record with the same
    /// address. In a full book a record for a new address takes the place
    /// of the record that sorts last, unless it sorts last itself: then it
    /// is dropped.
    pub fn insert_or_update(&mut self, record: MetaAddr)
        requires
            old(self).wf(),
        ensures
            final(self).wf(),
            final(self).limit() == old(self).limit(),
            final(self)@ == inserted(old(self)@, old(self).limit(), record),
            final(self)@.len() >= old(self)@.len(),
            has_addr(old(self)@, record.addr) || old(self)@.len() < old(self).limit()
                ==> final(self)@.contains(record),
            forall|i: int|
                0 <= i < final(self)@.len() ==> #[trigger] final(self)@[i] == record || old(
                    self,
                )@.contains(final(self)@[i]),
    {
        let ghost before = self@;
        match self.position(&record.addr) {
            Some(i) => {
                self.records[i] = record;
                assert(self@[i as int] == record);
                assert(forall|j: int| 0 <= j < self@.len() && j != i ==> self@[j] == before[j]);
            },
            None => {
                if self.records.len() < self.limit {
                    self.records.push(record);
                    assert(self@[before.len() as int] == record);
                    assert(forall|j: int| 0 <= j < before.len() ==> self@[j] == before[j]);
                } else if self.records.len() > 0 {
                    let w = self.worst();
                    proof {
                        lemma_worst_is_one(self@, w as int);
                    }
                    if record.is_before(&self.records[w]) {
                        self.records[w] = record;
                        assert(forall|j: int|
                            0 <= j < self@.len() && j != w ==> self@[j] == before[j]);
                    }
                }
            },
        }
    }

    /// Adds each record of `incoming` in turn, as `insert_or_update` does.
    /// A record equal to the one that the book holds changes nothing.
    pub fn extend(&mut self, incoming: &Vec<MetaAddr>)
        requires
            old(self).wf(),
        ensures
            final(self).wf(),
            final(self).limit() == old(self).limit(),
            final(self)@ == extended(old(self)@, old(self).limit(), incoming@),
    {
        let mut i: usize = 0;
        assert(incoming@.subrange(0, incoming@.len() as int) =~= incoming@);
        while i < incoming.len()
            invariant
                i <= incoming@.len(),
                self.wf(),
                self.limit() == old(self).limit(),
                extended(old(self)@, old(self).limit(), incoming@) == extended(
                    self@,
                    self.limit(),
                    incoming@.subrange(i as int, incoming@.len() as int),
                ),
            decreases incoming@.len() - i,
        {
            let record = incoming[i];
            proof {
                let rest = incoming@.subrange(i as int, incoming@.len() as int);
                assert(rest.drop_first() =~= incoming@.subrange(i + 1, incoming@.len() as int));
                assert(rest[0] == record);
            }
            let known = match self.get(&record.addr) {
                Some(held) => held == record,
                None => false,
            };
            if known {
                proof {
                    let at = index_of_addr(self@, record.addr);
                    assert(self@.update(at, record) =~= self@);
                }
            } else {
                self.insert_or_update(record);
            }
            i = i + 1;
        }
    }

    /// The candidate to try first at the time `now`: the record that sorts
    /// first among those that `is_candidate` holds of. `None` where the book
    /// holds no candidate.
    pub fn next_candidate(&self, now: &Timestamp) -> (first: Option<MetaAddr>)
        ensures
            match first {
                Some(record) => exists|k: int|
                    is_first_candidate(self@, *now, k) && #[trigger] self@[k] == record,
                None => forall|k: int|
                    0 <= k < self@.len() ==> !is_candidate(#[trigger] self@[k], *now),
            },
    {
        let cutoff = now.cutoff();
        let mut best: Option<usize> = None;
        let mut i: usize = 0;
        while i < self.records.len()
            invariant
                i <= self.records@.len(),
                cutoff == now.liveness_cutoff(),
                match best {
                    Some(b) => {
                        &&& b < i
                        &&& is_candidate(self.records@[b as int], *now)
                        &&& forall|j: int|
                            0 <= j < i && is_candidate(#[trigger] self.records@[j], *now)
                                ==> !self.records@[j].sorts_before(self.records@[b as int])
                    },
                    None => forall|j: int|
                        0 <= j < i ==> !is_candidate(#[trigger] self.records@[j], *now),
                },
            decreases self.records@.len() - i,
        {
            let record = self.records[i];
            if candidate_at(&record, &cutoff, now) {
                match best {
                    Some(b) => {
                        if record.is_before(&self.records[b]) {
                            best = Some(i);
                        }
                    },
                    None => {
                        best = Some(i);
                    },
                }
            }
            i = i + 1;
        }
        match best {
            Some(b) => {
                assert(is_first_candidate(self@, *now, b as int));
                Some(self.records[b])
            },
            None => None,
        }
    }

    /// The peers to reconnect to at the time `now`, in the order in which to
    /// try them: the peers that responded before the liveness cutoff, the
    /// oldest first; then the never attempted ones, the newest first; then
    /// the failed ones, the oldest first. Peers with a pending attempt and
    /// peers that responded since the cutoff are left out.
    pub fn reconnection_candidates(&self, now: &Timestamp) -> (sorted: Vec<MetaAddr>)
        requires
            self.wf(),
        ensures
            strictly_sorted(sorted@),
            forall|i: int|
                0 <= i < sorted@.len() ==> self@.contains(#[trigger] sorted@[i]) && is_candidate(
                    sorted@[i],
                    *now,
                ),
            forall|k: int|
                0 <= k < self@.len() && is_candidate(#[trigger] self@[k], *now)
                    ==> sorted@.contains(self@[k]),
    {
        let cutoff = now.cutoff();
        let mut sorted: Vec<MetaAddr> = Vec::new();
        let mut i: usize = 0;
        while i < self.records.len()
            invariant
                i <= self.records@.len(),
                self.wf(),
                cutoff == now.liveness_cutoff(),
                strictly_sorted(sorted@),
                forall|a: int|
                    0 <= a < sorted@.len() ==> is_candidate(#[trigger] sorted@[a], *now) && exists|
                        k: int,
                    |
                        0 <= k < i && self.records@[k] == sorted@[a],
                forall|k: int|
                    0 <= k < i && is_candidate(#[trigger] self.records@[k], *now)
                        ==> sorted@.contains(self.records@[k]),
            decreases self.records@.len() - i,
        {
            let record = self.records[i];
            if candidate_at(&record, &cutoff, now) {
                let mut p: usize = 0;
                while p < sorted.len() && sorted[p].is_before(&record)
                    invariant
                        p <= sorted@.len(),
                        forall|a: int| 0 <= a < p ==> (#[trigger] sorted@[a]).sorts_before(record),
                    decreases sorted@.len() - p,
                {
                    p = p + 1;
                }
                let ghost before = sorted@;
                proof {
                    assert forall|b: int| p <= b < before.len() implies record.sorts_before(
                        #[trigger] before[b],
                    ) by {
                        let k = choose|k: int| 0 <= k < i && self.records@[k] == before[b];
                        assert(self.records@[k].addr != self.records@[i as int].addr);
                        record.lemma_ordering_antisymmetric(before[p as int]);
                        record.lemma_ordering_transitive(before[p as int], before[b]);
                    }
                }
                sorted.insert(p, record);
                proof {
                    assert forall|a: int, b: int| 0 <= a < b < sorted@.len() implies (
                    #[trigger] sorted@[a]).sorts_before(#[trigger] sorted@[b]) by {
                        if a < p && b > p {
                            assert(before[a].sorts_before(record));
                            assert(record.sorts_before(before[b - 1]));
                            before[a].lemma_ordering_transitive(record, before[b - 1]);
                        }
                    }
                    assert forall|k: int|
                        0 <= k < i + 1 && is_candidate(
                            #[trigger] self.records@[k],
                            *now,
                        ) implies sorted@.contains(self.records@[k]) by {
                        if k < i {
                            let a = choose|a: int|
                                0 <= a < before.len() && before[a] == self.records@[k];
                            if a < p {
                                assert(sorted@[a] == self.records@[k]);
                            } else {
                                assert(sorted@[a + 1] == self.records@[k]);
                            }
                        } else {
                            assert(sorted@[p as int] == self.records@[k]);
                        }
                    }
                    assert forall|a: int| 0 <= a < sorted@.len() implies is_candidate(
                        #[trigger] sorted@[a],
                        *now,
                    ) && exists|k: int| 0 <= k < i + 1 && self.records@[k] == sorted@[a] by {
                        if a < p {
                            assert(sorted@[a] == before[a]);
                            let k = choose|k: int| 0 <= k < i && self.records@[k] == before[a];
                            assert(self.records@[k] == sorted@[a]);
                        } else if a == p {
                            assert(self.records@[i as int] == sorted@[a]);
                        } else {
                            assert(sorted@[a] == before[a - 1]);
                            let k = choose|k: int|
                                0 <= k < i && self.records@[k] == before[a - 1];
                            assert(self.records@[k] == sorted@[a]);
                        }
                    }
                }
            }
            i = i + 1;
        }
        sorted
    }
}

/// Tells whether `record` is a candidate at the time `now`, whose liveness
/// cutoff is `cutoff`.
fn candidate_at(record: &MetaAddr, cutoff: &Timestamp, now: &Timestamp) -> (b: bool)
    requires
        *cutoff == now.liveness_cutoff(),
    ensures
        b == is_candidate(*record, *now),
{
    match record.last_connection_state {
        PeerAddrState::AttemptPending => false,
        PeerAddrState::Responded => !record.last_seen.after(cutoff),
        _ => true,
    }
}

/// The first of the sorted candidates is the candidate to try first, and
/// there is no candidate at all where the sorted ones are none.
pub proof fn lemma_head_is_first_candidate(
    records: Seq<MetaAddr>,
    sorted: Seq<MetaAddr>,
    now: Timestamp,
)
    requires
        strictly_sorted(sorted),
        forall|i: int|
            0 <= i < sorted.len() ==> records.contains(#[trigger] sorted[i]) && is_candidate(
                sorted[i],
                now,
            ),
        forall|k: int|
            0 <= k < records.len() && is_candidate(#[trigger] records[k], now) ==> sorted.contains(
                records[k],
            ),
    ensures
        sorted.len() == 0 ==> forall|k: int|
            0 <= k < records.len() ==> !is_candidate(#[trigger] records[k], now),
        sorted.len() > 0 ==> exists|k: int|
            is_first_candidate(records, now, k) && #[trigger] records[k] == sorted[0],
{
    if sorted.len() == 0 {
        assert forall|k: int| 0 <= k < records.len() implies !is_candidate(
            #[trigger] records[k],
            now,
        ) by {
            if is_candidate(records[k], now) {
                assert(sorted.contains(records[k]));
            }
        }
    } else {
        let head = sorted[0];
        assert(records.contains(head));
        let k = choose|k: int| 0 <= k < records.len() && records[k] == head;
        assert forall|j: int|
            0 <= j < records.len() && is_candidate(
                #[trigger] records[j],
                now,
            ) implies !records[j].sorts_before(head) by {
            assert(sorted.contains(records[j]));
            let a = choose|a: int| 0 <= a < sorted.len() && sorted[a] == records[j];
            if a > 0 {
                assert(sorted[0].sorts_before(sorted[a]));
            }
            head.lemma_ordering_antisymmetric(records[j]);
        }
        assert(is_first_candidate(records, now, k));
    }
}

/// Among sorted records, a peer that responded comes before every peer
/// that was never attempted, and a never attempted one before every failed
/// one.
pub proof fn lemma_sorted_by_state(sorted: Seq<MetaAddr>, i: int, j: int)
    requires
        strictly_sorted(sorted),
        0 <= i < sorted.len(),
        0 <= j < sorted.len(),
        sorted[i].last_connection_state.rank() < sorted[j].last_connection_state.rank(),
    ensures
        i < j,
{
    if j < i {
        assert(sorted[j].sorts_before(sorted[i]));
    }
}

/// In a book without two records for one address, one record only sorts
/// last.
pub proof fn lemma_worst_is_one(records: Seq<MetaAddr>, w: int)
    requires
        distinct_addrs(records),
        is_worst(records, w),
    ensures
        worst_index(records) == w,
{
    let v = worst_index(records);
    assert(is_worst(records, v));
    assert(!records[w].sorts_before(records[v]));
    assert(!records[v].sorts_before(records[w]));
    records[w].lemma_ordering_antisymmetric(records[v]);
}

/// A full book stays full and no larger when a record for a new address
/// comes in, and the record that leaves sorts last among the records held
/// and the one that came in.
pub proof fn lemma_evicted_sorts_last(
    records: Seq<MetaAddr>,
    limit: nat,
    record: MetaAddr,
    evicted: MetaAddr,
    other: MetaAddr,
)
    requires
        distinct_addrs(records),
        records.len() == limit,
        !has_addr(records, record.addr),
        records.contains(evicted) || evicted == record,
        !inserted(records, limit, record).contains(evicted),
        records.contains(other) || other == record,
    ensures
        inserted(records, limit, record).len() == limit,
        other == evicted || other.sorts_before(evicted),
{
    let after = inserted(records, limit, record);
    if records.len() > 0 {
        let w = worst_index(records);
        lemma_some_worst(records, records.len() as int);
        assert(records.subrange(0, records.len() as int) =~= records);
        assert(is_worst(records, w));
        let worst = records[w];
        if record.sorts_before(worst) {
            assert(after[w] == record);
            if records.contains(evicted) {
                let e = choose|e: int| 0 <= e < records.len() && records[e] == evicted;
                if e != w {
                    assert(after[e] == evicted);
                }
            }
            assert(evicted == worst);
            if records.contains(other) {
                let o = choose|o: int| 0 <= o < records.len() && records[o] == other;
                other.lemma_ordering_antisymmetric(worst);
            }
        } else {
            if records.contains(evicted) {
                let e = choose|e: int| 0 <= e < records.len() && records[e] == evicted;
                assert(after[e] == evicted);
            }
            assert(evicted == record);
            if records.contains(other) {
                let o = choose|o: int| 0 <= o < records.len() && records[o] == other;
                other.lemma_ordering_antisymmetric(worst);
                record.lemma_ordering_antisymmetric(worst);
                other.lemma_ordering_transitive(worst, record);
            }
        }
    }
}

/// Among the first `n` records, where there is one, some record sorts last.
pub proof fn lemma_some_worst(records: Seq<MetaAddr>, n: int)
    requires
        0 < n <= records.len(),
    ensures
        is_worst(records.subrange(0, n), worst_index(records.subrange(0, n))),
    decreases n,
{
    let head = records.subrange(0, n);
    if n == 1 {
        head[0].lemma_ordering_antisymmetric(head[0]);
        assert(is_worst(head, 0));
    } else {
        lemma_some_worst(records, n - 1);
        let shorter = records.subrange(0, n - 1);
        let v = worst_index(shorter);
        let last = head[n - 1];
        assert(forall|j: int| 0 <= j < n - 1 ==> head[j] == shorter[j]);
        if shorter[v].sorts_before(last) {
            assert forall|j: int| 0 <= j < n implies !last.sorts_before(#[trigger] head[j]) by {
                if j < n - 1 {
                    assert(!shorter[v].sorts_before(shorter[j]));
                    if last.sorts_before(head[j]) {
                        shorter[v].lemma_ordering_transitive(last, head[j]);
                    }
                } else {
                    last.lemma_ordering_antisymmetric(last);
                }
            }
            assert(is_worst(head, n - 1));
        } else {
            assert forall|j: int| 0 <= j < n implies !head[v].sorts_before(#[trigger] head[j]) by {
                if j < n - 1 {
                    assert(!shorter[v].sorts_before(shorter[j]));
                }
            }
            assert(is_worst(head, v));
        }
    }
}

} // verus!
