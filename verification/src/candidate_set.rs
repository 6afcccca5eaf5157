//! The candidate set: which peer to connect to next, and when.
//!
//! Peers fall into four groups by their state. Peers that responded are
//! tried again once they have been silent past the liveness cutoff; then
//! the never attempted ones; then the failed ones. A peer that is handed
//! out becomes `AttemptPending`, and the connection layer later reports it
//! as responded or failed. Candidates are handed out no faster than one per
//! `MIN_PEER_CONNECTION_INTERVAL_MILLIS`, however often they are asked for.
//!
//! Nothing here waits or sends: the caller holds the address book, asks the
//! network, sleeps, and reports what happened.

use vstd::prelude::*;

use crate::address_book::{
    extended, has_addr, index_of_addr, inserted, is_candidate, is_first_candidate, AddressBook,
};
use crate::clock::utc_now;
use crate::constants::{GET_ADDR_FANOUT, MIN_PEER_CONNECTION_INTERVAL_MILLIS};
use crate::meta_addr::{MetaAddr, PeerAddrState};
use crate::timestamp::Timestamp;

verus! {

/// The time at which a candidate asked for at `now` is handed out, when the
/// earliest time allowed is `deadline`.
pub open spec fn wake_time(deadline: int, now: int) -> int {
    if deadline >= now {
        deadline
    } else {
        now
    }
}

/// The earliest time allowed for the candidate after the one asked for at
/// `now`.
pub open spec fn next_deadline(deadline: int, now: int) -> int {
    wake_time(deadline, now) + MIN_PEER_CONNECTION_INTERVAL_MILLIS
}

/// The times at which the candidates asked for at the times `asked` are
/// handed out, starting from the earliest time allowed `deadline`.
pub open spec fn wake_times(deadline: int, asked: Seq<int>) -> Seq<int>
    decreases asked.len(),
{
    if asked.len() == 0 {
        Seq::empty()
    } else {
        seq![wake_time(deadline, asked[0])] + wake_times(
            next_deadline(deadline, asked[0]),
            asked.drop_first(),
        )
    }
}

/// However close together candidates are asked for, two candidates in a row
/// are handed out at least `MIN_PEER_CONNECTION_INTERVAL_MILLIS` apart.
pub proof fn lemma_throttle(deadline: int, asked: Seq<int>, i: int)
    requires
        0 <= i,
        i + 1 < asked.len(),
    ensures
        wake_times(deadline, asked).len() == asked.len(),
        wake_times(deadline, asked)[i + 1] >= wake_times(deadline, asked)[i]
            + MIN_PEER_CONNECTION_INTERVAL_MILLIS,
    decreases asked.len(),
{
    lemma_wake_times_len(deadline, asked);
    let rest = asked.drop_first();
    let later = next_deadline(deadline, asked[0]);
    lemma_wake_times_len(later, rest);
    if i == 0 {
        assert(wake_times(later, rest)[0] == wake_time(later, rest[0]));
    } else {
        lemma_throttle(later, rest, i - 1);
    }
}

/// One time of handing out for each time of asking.
pub proof fn lemma_wake_times_len(deadline: int, asked: Seq<int>)
    ensures
        wake_times(deadline, asked).len() == asked.len(),
    decreases asked.len(),
{
    if asked.len() > 0 {
        lemma_wake_times_len(next_deadline(deadline, asked[0]), asked.drop_first());
    }
}

/// The records of `incoming` whose address `records` does not hold, in
/// order.
pub open spec fn unknown_of(records: Seq<MetaAddr>, incoming: Seq<MetaAddr>) -> Seq<MetaAddr>
    decreases incoming.len(),
{
    if incoming.len() == 0 {
        Seq::empty()
    } else {
        let before = unknown_of(records, incoming.drop_last());
        if has_addr(records, incoming.last().addr) {
            before
        } else {
            before.push(incoming.last())
        }
    }
}

/// Whether handing out at the time `now` turns the records `before` into
/// `after` and gives `candidate`: the first candidate, marked as
/// `AttemptPending` at `now` in its place; or nothing, where there is no
/// candidate and the records stay as they are.
pub open spec fn hands_out(
    before: Seq<MetaAddr>,
    after: Seq<MetaAddr>,
    now: Timestamp,
    candidate: Option<MetaAddr>,
) -> bool {
    match candidate {
        Some(record) => exists|k: int|
            {
                &&& is_first_candidate(before, now, k)
                &&& record == MetaAddr::of_parts(
                    (#[trigger] before[k]).addr,
                    before[k].services,
                    now,
                    PeerAddrState::AttemptPending,
                )
                &&& after == before.update(k, record)
            },
        None => {
            &&& after == before
            &&& forall|k: int| 0 <= k < before.len() ==> !is_candidate(#[trigger] before[k], now)
        },
    }
}

/// What happened since the last step of a crawl.
pub enum CrawlEvent {
    /// A crawl is asked for.
    Start,
    /// The peer service is ready for a request.
    ServiceReady,
    /// The peer service did not become ready in time.
    ServiceTimedOut,
    /// The peer service failed for good.
    ServiceFailed,
    /// A request was answered with these addresses.
    Response(Vec<MetaAddr>),
    /// A request failed.
    RequestFailed,
}

/// What the caller does next in a crawl.
#[derive(Copy, Clone, Debug, PartialEq, Eq, Structural)]
pub enum CrawlAction {
    /// Wait, under the request timeout, for the peer service to be ready.
    AwaitReady,
    /// Send a request for peers, then wait for the service to be ready
    /// again.
    SendThenAwaitReady,
    /// Send a request for peers, then wait for the next answer.
    SendThenAwaitResponse,
    /// Wait for the next answer.
    AwaitResponse,
    /// The crawl is over.
    ReturnOk,
    /// The crawl is over and the peer service is lost: the caller stops
    /// crawling.
    ReturnError,
}

/// The requests of a crawl: how many were sent, and how many are not
/// answered yet.
#[derive(Copy, Clone, Debug, PartialEq, Eq, Structural)]
pub struct Crawl {
    /// Requests sent in this crawl.
    pub sent: usize,
    /// Requests sent and not answered yet.
    pub pending: usize,
}

/// The requests of a crawl after `event`, and what the caller does next.
///
/// A crawl sends `GET_ADDR_FANOUT` requests, each when the service is
/// ready, then takes the answers one by one. A service that is not ready in
/// time ends the crawl without an error; a service that failed ends it with
/// one. A request that failed counts as answered.
pub open spec fn crawl_step(crawl: Crawl, event: CrawlEvent) -> (Crawl, CrawlAction) {
    match event {
        CrawlEvent::Start => (
            Crawl { sent: 0, pending: 0 },
            if GET_ADDR_FANOUT > 0 {
                CrawlAction::AwaitReady
            } else {
                CrawlAction::ReturnOk
            },
        ),
        CrawlEvent::ServiceReady => if crawl.sent < GET_ADDR_FANOUT && crawl.pending
            < usize::MAX {
            (
                Crawl { sent: (crawl.sent + 1) as usize, pending: (crawl.pending + 1) as usize },
                if crawl.sent + 1 < GET_ADDR_FANOUT {
                    CrawlAction::SendThenAwaitReady
                } else {
                    CrawlAction::SendThenAwaitResponse
                },
            )
        } else {
            (crawl, after_answer(crawl.pending))
        },
        CrawlEvent::ServiceTimedOut => (Crawl { sent: 0, pending: 0 }, CrawlAction::ReturnOk),
        CrawlEvent::ServiceFailed => (Crawl { sent: 0, pending: 0 }, CrawlAction::ReturnError),
        CrawlEvent::Response(_) | CrawlEvent::RequestFailed => {
            let pending = if crawl.pending > 0 {
                (crawl.pending - 1) as usize
            } else {
                0
            };
            (Crawl { sent: crawl.sent, pending }, after_answer(pending))
        },
    }
}

/// What the caller does when `pending` requests are not answered yet.
pub open spec fn after_answer(pending: usize) -> CrawlAction {
    if pending > 0 {
        CrawlAction::AwaitResponse
    } else {
        CrawlAction::ReturnOk
    }
}

/// The records after `event`: the addresses of an answer that the book did
/// not hold come in, in order; any other event leaves the records alone.
pub open spec fn crawl_records(records: Seq<MetaAddr>, limit: nat, event: CrawlEvent) -> Seq<
    MetaAddr,
> {
    match event {
        CrawlEvent::Response(addrs) => extended(records, limit, unknown_of(records, addrs@)),
        _ => records,
    }
}

/// What `CandidateSet::next` gives: the candidate, if there is one, and the
/// time before which it must not be used.
#[derive(Copy, Clone, Debug, PartialEq, Eq, Structural)]
pub struct Handout {
    /// The peer to connect to, already marked as `AttemptPending` in the
    /// address book.
    pub candidate: Option<MetaAddr>,
    /// The time, in milliseconds of the caller's monotonic clock, until
    /// which the caller sleeps before it connects.
    pub wake_at: u64,
}

/// Manages the reconnection attempts to the peers of an address book.
pub struct CandidateSet {
    next_peer_min_wait: u64,
    crawl: Crawl,
}

impl CandidateSet {
    /// The earliest time, in milliseconds of the caller's monotonic clock,
    /// at which the next candidate may be used.
    pub closed spec fn deadline(&self) -> u64 {
        self.next_peer_min_wait
    }

    /// The requests of the crawl under way.
    pub closed spec fn crawl(&self) -> Crawl {
        self.crawl
    }

    /// Makes a candidate set at the time `now` of the caller's monotonic
    /// clock: the first candidate may be used at once.
    pub fn new(now: u64) -> (set: CandidateSet)
        ensures
            set.deadline() == now,
            set.crawl() == (Crawl { sent: 0, pending: 0 }),
    {
        CandidateSet { next_peer_min_wait: now, crawl: Crawl { sent: 0, pending: 0 } }
    }

    /// The earliest time at which the next candidate may be used.
    pub fn next_peer_min_wait(&self) -> (deadline: u64)
        ensures
            deadline == self.deadline(),
    {
        self.next_peer_min_wait
    }

    /// Takes one step of a crawl for more peers: records what `event` says,
    /// puts the new addresses of an answer into `book`, and tells the caller
    /// what to do next.
    ///
    /// Addresses that the book holds already are left out before the
    /// others come in, as never attempted peers.
    pub fn update(&mut self, book: &mut AddressBook, event: CrawlEvent) -> (action: CrawlAction)
        requires
            old(book).wf(),
        ensures
            final(book).wf(),
            final(book).limit() == old(book).limit(),
            final(self).deadline() == old(self).deadline(),
            (final(self).crawl(), action) == crawl_step(old(self).crawl(), event),
            final(book)@ == crawl_records(old(book)@, old(book).limit(), event),
    {
        match event {
            CrawlEvent::Start => {
                self.crawl = Crawl { sent: 0, pending: 0 };
                if GET_ADDR_FANOUT > 0 {
                    CrawlAction::AwaitReady
                } else {
                    CrawlAction::ReturnOk
                }
            },
            CrawlEvent::ServiceReady => {
                if self.crawl.sent < GET_ADDR_FANOUT && self.crawl.pending < usize::MAX {
                    self.crawl = Crawl {
                        sent: self.crawl.sent + 1,
                        pending: self.crawl.pending + 1,
                    };
                    if self.crawl.sent < GET_ADDR_FANOUT {
                        CrawlAction::SendThenAwaitReady
                    } else {
                        CrawlAction::SendThenAwaitResponse
                    }
                } else {
                    Self::action_after_answer(self.crawl.pending)
                }
            },
            CrawlEvent::ServiceTimedOut => {
                self.crawl = Crawl { sent: 0, pending: 0 };
                CrawlAction::ReturnOk
            },
            CrawlEvent::ServiceFailed => {
                self.crawl = Crawl { sent: 0, pending: 0 };
                CrawlAction::ReturnError
            },
            CrawlEvent::Response(addrs) => {
                let new_addrs = Self::filter_unknown(book, &addrs);
                book.extend(&new_addrs);
                self.answered()
            },
            CrawlEvent::RequestFailed => self.answered(),
        }
    }

    fn answered(&mut self) -> (action: CrawlAction)
        ensures
            final(self).deadline() == old(self).deadline(),
            (final(self).crawl(), action) == crawl_step(
                old(self).crawl(),
                CrawlEvent::RequestFailed,
            ),
    {
        let pending: usize = if self.crawl.pending > 0 {
            self.crawl.pending - 1
        } else {
            0
        };
        self.crawl = Crawl { sent: self.crawl.sent, pending };
        Self::action_after_answer(pending)
    }

    fn action_after_answer(pending: usize) -> (action: CrawlAction)
        ensures
            action == after_answer(pending),
    {
        if pending > 0 {
            CrawlAction::AwaitResponse
        } else {
            CrawlAction::ReturnOk
        }
    }

    /// The records of `incoming` whose address `book` does not hold.
    pub fn filter_unknown(book: &AddressBook, incoming: &Vec<MetaAddr>) -> (unknown: Vec<MetaAddr>)
        ensures
            unknown@ == unknown_of(book@, incoming@),
    {
        let mut unknown: Vec<MetaAddr> = Vec::new();
        let mut i: usize = 0;
        while i < incoming.len()
            invariant
                i <= incoming@.len(),
                unknown@ == unknown_of(book@, incoming@.subrange(0, i as int)),
            decreases incoming@.len() - i,
        {
            assert(incoming@.subrange(0, i + 1).drop_last() =~= incoming@.subrange(0, i as int));
            if !book.contains(&incoming[i].addr) {
                unknown.push(incoming[i]);
            }
            i = i + 1;
        }
        assert(incoming@.subrange(0, incoming@.len() as int) =~= incoming@);
        unknown
    }

    /// Hands out the next candidate for a connection attempt at the time
    /// `now`, asked for at the time `instant` of the caller's monotonic
    /// clock.
    ///
    /// The candidate is the oldest peer that responded and is no longer
    /// live, else the newest never attempted peer, else the oldest failed
    /// peer. It becomes `AttemptPending` in the book, with `now` as the time
    /// of its last interaction. The caller sleeps until `wake_at` before it
    /// uses the candidate. Whether a candidate was found or not, the
    /// earliest time for the next one is
    /// `MIN_PEER_CONNECTION_INTERVAL_MILLIS` after `wake_at`.
    pub fn next_at(&mut self, book: &mut AddressBook, now: &Timestamp, instant: u64) -> (handout:
        Handout)
        requires
            old(book).wf(),
            next_deadline(old(self).deadline() as int, instant as int) <= u64::MAX,
        ensures
            final(book).wf(),
            final(book).limit() == old(book).limit(),
            final(self).crawl() == old(self).crawl(),
            handout.wake_at == wake_time(old(self).deadline() as int, instant as int),
            final(self).deadline() == next_deadline(old(self).deadline() as int, instant as int),
            hands_out(old(book)@, final(book)@, *now, handout.candidate),
    {
        let wake_at: u64 = if self.next_peer_min_wait >= instant {
            self.next_peer_min_wait
        } else {
            instant
        };
        self.next_peer_min_wait = wake_at + MIN_PEER_CONNECTION_INTERVAL_MILLIS;
        let candidate = match book.next_candidate(now) {
            None => None,
            Some(reconnect) => {
                let ghost k = choose|k: int|
                    is_first_candidate(book@, *now, k) && #[trigger] book@[k] == reconnect;
                let reconnect = MetaAddr::new(
                    &reconnect.addr,
                    &reconnect.services,
                    now,
                    PeerAddrState::AttemptPending,
                );
                proof {
                    assert(has_addr(book@, reconnect.addr));
                    assert(index_of_addr(book@, reconnect.addr) == k);
                }
                book.insert_or_update(reconnect);
                Some(reconnect)
            },
        };
        Handout { candidate, wake_at }
    }

    /// Hands out the next candidate as `next_at` does, at the time that the
    /// clock shows.
    pub fn next(&mut self, book: &mut AddressBook, instant: u64) -> (handout: Handout)
        requires
            old(book).wf(),
            next_deadline(old(self).deadline() as int, instant as int) <= u64::MAX,
        ensures
            final(book).wf(),
            final(book).limit() == old(book).limit(),
            final(self).crawl() == old(self).crawl(),
            handout.wake_at == wake_time(old(self).deadline() as int, instant as int),
            final(self).deadline() == next_deadline(old(self).deadline() as int, instant as int),
            exists|now: Timestamp|
                now.wf() && #[trigger] hands_out(old(book)@, final(book)@, now, handout.candidate),
    {
        let now = utc_now();
        self.next_at(book, &now, instant)
    }

    /// Marks the peer of `addr` as failed at the time `now`, whatever its
    /// state was.
    pub fn report_failed_at(&mut self, book: &mut AddressBook, addr: &MetaAddr, now: &Timestamp)
        requires
            old(book).wf(),
        ensures
            *final(self) == *old(self),
            final(book).wf(),
            final(book).limit() == old(book).limit(),
            final(book)@ == inserted(
                old(book)@,
                old(book).limit(),
                MetaAddr::of_parts(addr.addr, addr.services, *now, PeerAddrState::Failed),
            ),
    {
        let failed = MetaAddr::new(&addr.addr, &addr.services, now, PeerAddrState::Failed);
        book.insert_or_update(failed);
    }

    /// Marks the peer of `addr` as failed at the time that the clock shows.
    pub fn report_failed(&mut self, book: &mut AddressBook, addr: &MetaAddr)
        requires
            old(book).wf(),
        ensures
            *final(self) == *old(self),
            final(book).wf(),
            final(book).limit() == old(book).limit(),
            exists|now: Timestamp|
                now.wf() && final(book)@ == inserted(
                    old(book)@,
                    old(book).limit(),
                    #[trigger] MetaAddr::of_parts(
                        addr.addr,
                        addr.services,
                        now,
                        PeerAddrState::Failed,
                    ),
                ),
    {
        let failed = MetaAddr::new_errored(&addr.addr, &addr.services);
        book.insert_or_update(failed);
    }
}

} // verus!
