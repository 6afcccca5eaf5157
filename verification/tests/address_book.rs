use peer_candidates::address::{PeerIp, PeerSocketAddr};
use peer_candidates::address_book::AddressBook;
use peer_candidates::meta_addr::{MetaAddr, PeerAddrState};
use peer_candidates::services::PeerServices;
use peer_candidates::timestamp::Timestamp;

fn peer(n: u32) -> PeerSocketAddr {
    PeerSocketAddr::new(PeerIp::V4(0x0a00_0000 + n), 8233)
}

fn entry(n: u32, secs: i64, state: PeerAddrState) -> MetaAddr {
    MetaAddr::new(&peer(n), &PeerServices::node_network(), &Timestamp::from_secs(secs), state)
}

#[test]
fn new_book_is_empty() {
    let book = AddressBook::new(8);
    assert_eq!(book.len(), 0);
    assert!(book.is_empty());
    assert_eq!(book.capacity(), 8);
    assert!(!book.contains(&peer(1)));
    assert_eq!(book.get(&peer(1)), None);
    assert_eq!(book.next_candidate(&Timestamp::from_secs(10_000)), None);
    assert!(book.reconnection_candidates(&Timestamp::from_secs(10_000)).is_empty());
}

#[test]
fn insert_then_contains() {
    let mut book = AddressBook::new(8);
    let record = entry(1, 100, PeerAddrState::NeverAttempted);
    book.insert_or_update(record);
    assert!(book.contains(&peer(1)));
    assert!(!book.contains(&peer(2)));
    assert_eq!(book.get(&peer(1)), Some(record));
    assert_eq!(book.len(), 1);
    assert!(!book.is_empty());
}

#[test]
fn update_overwrites_in_place() {
    let mut book = AddressBook::new(8);
    book.insert_or_update(entry(1, 100, PeerAddrState::NeverAttempted));
    book.insert_or_update(entry(2, 100, PeerAddrState::NeverAttempted));
    let responded = entry(1, 500, PeerAddrState::Responded);
    book.insert_or_update(responded);
    assert_eq!(book.len(), 2);
    assert_eq!(book.get(&peer(1)), Some(responded));
    assert_eq!(book.peers(), vec![responded, entry(2, 100, PeerAddrState::NeverAttempted)]);
}

#[test]
fn update_in_a_full_book_still_overwrites() {
    let mut book = AddressBook::new(1);
    book.insert_or_update(entry(1, 100, PeerAddrState::Responded));
    let pending = entry(1, 900, PeerAddrState::AttemptPending);
    book.insert_or_update(pending);
    assert_eq!(book.peers(), vec![pending]);
}

#[test]
fn full_book_evicts_the_record_that_sorts_last() {
    let mut book = AddressBook::new(3);
    book.insert_or_update(entry(1, 100, PeerAddrState::Responded));
    book.insert_or_update(entry(2, 100, PeerAddrState::AttemptPending));
    book.insert_or_update(entry(3, 100, PeerAddrState::Failed));
    let incoming = entry(4, 100, PeerAddrState::NeverAttempted);
    book.insert_or_update(incoming);
    assert_eq!(book.len(), 3);
    assert!(book.contains(&peer(4)));
    assert!(!book.contains(&peer(2)));
    assert!(book.contains(&peer(1)));
    assert!(book.contains(&peer(3)));
    assert_eq!(
        book.peers(),
        vec![entry(1, 100, PeerAddrState::Responded), incoming, entry(3, 100, PeerAddrState::Failed)]
    );
}

#[test]
fn full_book_drops_an_incoming_record_that_sorts_last() {
    let mut book = AddressBook::new(2);
    book.insert_or_update(entry(1, 100, PeerAddrState::Responded));
    book.insert_or_update(entry(2, 100, PeerAddrState::NeverAttempted));
    let before = book.peers();
    book.insert_or_update(entry(3, 100, PeerAddrState::AttemptPending));
    assert_eq!(book.peers(), before);
    assert!(!book.contains(&peer(3)));
    book.insert_or_update(entry(4, 50, PeerAddrState::NeverAttempted));
    assert_eq!(book.peers(), before);
}

#[test]
fn book_without_room_holds_nothing() {
    let mut book = AddressBook::new(0);
    book.insert_or_update(entry(1, 100, PeerAddrState::Responded));
    assert!(book.is_empty());
}

#[test]
fn count_never_exceeds_capacity() {
    let mut book = AddressBook::new(4);
    let states = [
        PeerAddrState::Failed,
        PeerAddrState::Responded,
        PeerAddrState::AttemptPending,
        PeerAddrState::NeverAttempted,
    ];
    for n in 0..40u32 {
        book.insert_or_update(entry(n % 13, (n as i64 * 37) % 101, states[(n % 4) as usize]));
        assert!(book.len() <= 4);
        let peers = book.peers();
        for (i, a) in peers.iter().enumerate() {
            for b in &peers[i + 1..] {
                assert_ne!(a.addr, b.addr);
            }
        }
    }
    assert_eq!(book.len(), 4);
}

#[test]
fn extend_inserts_in_order_and_skips_equal_records() {
    let mut book = AddressBook::new(8);
    let first = entry(1, 100, PeerAddrState::NeverAttempted);
    let second = entry(2, 100, PeerAddrState::NeverAttempted);
    let newer = entry(1, 300, PeerAddrState::NeverAttempted);
    book.extend(&vec![first, second, first, newer]);
    assert_eq!(book.peers(), vec![newer, second]);
    book.extend(&vec![newer, second]);
    assert_eq!(book.peers(), vec![newer, second]);
    book.extend(&vec![]);
    assert_eq!(book.len(), 2);
}

#[test]
fn candidates_come_in_reconnection_order() {
    let now = Timestamp::from_secs(10_000);
    let mut book = AddressBook::new(16);
    let failed_new = entry(1, 9_000, PeerAddrState::Failed);
    let failed_old = entry(2, 8_000, PeerAddrState::Failed);
    let never_old = entry(3, 100, PeerAddrState::NeverAttempted);
    let never_new = entry(4, 9_999, PeerAddrState::NeverAttempted);
    let responded_old = entry(5, 9_000, PeerAddrState::Responded);
    let responded_older = entry(6, 1_000, PeerAddrState::Responded);
    let responded_live = entry(7, 9_990, PeerAddrState::Responded);
    let pending = entry(8, 10, PeerAddrState::AttemptPending);
    book.extend(&vec![
        failed_new,
        failed_old,
        never_old,
        never_new,
        responded_old,
        responded_older,
        responded_live,
        pending,
    ]);
    assert_eq!(
        book.reconnection_candidates(&now),
        vec![responded_older, responded_old, never_new, never_old, failed_old, failed_new]
    );
    assert_eq!(book.next_candidate(&now), Some(responded_older));
    assert_eq!(book.reconnection_candidates(&now), book.reconnection_candidates(&now));
}

#[test]
fn stale_responded_peer_comes_before_never_attempted() {
    let now = Timestamp::from_secs(1_000_000);
    let mut book = AddressBook::new(4);
    let never = entry(1, 999_999, PeerAddrState::NeverAttempted);
    let stale = entry(2, 1_000_000 - 121, PeerAddrState::Responded);
    book.insert_or_update(never);
    book.insert_or_update(stale);
    assert_eq!(book.reconnection_candidates(&now), vec![stale, never]);
    assert_eq!(book.next_candidate(&now), Some(stale));
}

#[test]
fn liveness_cutoff_is_inclusive() {
    let now = Timestamp { secs: 1_000, nanos: 500 };
    let mut book = AddressBook::new(4);
    let at_cutoff = MetaAddr::new(
        &peer(1),
        &PeerServices::empty(),
        &Timestamp { secs: 880, nanos: 500 },
        PeerAddrState::Responded,
    );
    let just_after = MetaAddr::new(
        &peer(2),
        &PeerServices::empty(),
        &Timestamp { secs: 880, nanos: 501 },
        PeerAddrState::Responded,
    );
    book.insert_or_update(at_cutoff);
    book.insert_or_update(just_after);
    assert_eq!(book.reconnection_candidates(&now), vec![at_cutoff]);
}

#[test]
fn only_live_or_pending_peers_give_no_candidate() {
    let now = Timestamp::from_secs(1_000);
    let mut book = AddressBook::new(4);
    book.insert_or_update(entry(1, 990, PeerAddrState::Responded));
    book.insert_or_update(entry(2, 0, PeerAddrState::AttemptPending));
    assert_eq!(book.next_candidate(&now), None);
    assert!(book.reconnection_candidates(&now).is_empty());
}
