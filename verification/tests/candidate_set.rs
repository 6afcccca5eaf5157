use peer_candidates::address::{PeerIp, PeerSocketAddr};
use peer_candidates::address_book::AddressBook;
use peer_candidates::candidate_set::{CandidateSet, CrawlAction, CrawlEvent};
use peer_candidates::meta_addr::{MetaAddr, PeerAddrState};
use peer_candidates::services::PeerServices;
use peer_candidates::timestamp::Timestamp;

fn host(n: u32) -> PeerSocketAddr {
    PeerSocketAddr::new(PeerIp::V4(0xc000_0200 + n), 8233)
}

fn gossip(n: u32, secs: i64) -> MetaAddr {
    MetaAddr::new_gossiped(&host(n), &PeerServices::node_network(), &Timestamp::from_secs(secs))
}

#[test]
fn empty_book_gives_no_candidate() {
    let mut book = AddressBook::new(8);
    let mut set = CandidateSet::new(0);
    let handout = set.next_at(&mut book, &Timestamp::from_secs(1_000), 0);
    assert_eq!(handout.candidate, None);
    assert!(book.is_empty());
    assert_eq!(set.next(&mut book, 0).candidate, None);
}

#[test]
fn single_candidate_is_handed_out_once() {
    let mut book = AddressBook::new(8);
    book.insert_or_update(gossip(1, 500));
    let mut set = CandidateSet::new(0);
    let now = Timestamp::from_secs(1_000);
    let first = set.next_at(&mut book, &now, 0);
    let pending = MetaAddr::new(
        &host(1),
        &PeerServices::node_network(),
        &now,
        PeerAddrState::AttemptPending,
    );
    assert_eq!(first.candidate, Some(pending));
    assert_eq!(book.get(&host(1)), Some(pending));
    assert_eq!(book.len(), 1);
    let second = set.next_at(&mut book, &now, 0);
    assert_eq!(second.candidate, None);
    assert_eq!(book.get(&host(1)), Some(pending));
}

#[test]
fn next_marks_the_candidate_with_the_clock_time() {
    let mut book = AddressBook::new(8);
    book.insert_or_update(gossip(1, 500));
    let mut set = CandidateSet::new(0);
    let handout = set.next(&mut book, 0);
    let candidate = handout.candidate.unwrap();
    assert_eq!(candidate.addr, host(1));
    assert_eq!(candidate.last_connection_state, PeerAddrState::AttemptPending);
    assert!(candidate.get_last_seen().secs > 1_600_000_000);
    assert_eq!(book.get(&host(1)), Some(candidate));
}

#[test]
fn handouts_keep_the_minimum_interval() {
    let mut book = AddressBook::new(8);
    let mut incoming = Vec::new();
    for n in 0..5 {
        incoming.push(gossip(n, 500 + n as i64));
    }
    book.extend(&incoming);
    let mut set = CandidateSet::new(1_000);
    assert_eq!(set.next_peer_min_wait(), 1_000);
    let now = Timestamp::from_secs(1_000);
    let asked = [1_000u64, 1_001, 1_002, 1_500, 1_510];
    let expected = [1_000u64, 1_100, 1_200, 1_500, 1_600];
    let mut wakes = Vec::new();
    for (i, instant) in asked.iter().enumerate() {
        let handout = set.next_at(&mut book, &now, *instant);
        assert_eq!(handout.candidate.unwrap().addr, host(4 - i as u32));
        assert_eq!(handout.wake_at, expected[i]);
        assert_eq!(set.next_peer_min_wait(), expected[i] + 100);
        wakes.push(handout.wake_at);
    }
    for pair in wakes.windows(2) {
        assert!(pair[1] - pair[0] >= 100);
    }
}

#[test]
fn deadline_moves_on_without_a_candidate() {
    let mut book = AddressBook::new(8);
    let mut set = CandidateSet::new(50);
    let now = Timestamp::from_secs(1_000);
    let handout = set.next_at(&mut book, &now, 10);
    assert_eq!(handout.candidate, None);
    assert_eq!(handout.wake_at, 50);
    assert_eq!(set.next_peer_min_wait(), 150);
}

#[test]
fn report_failed_marks_the_peer_failed() {
    let mut book = AddressBook::new(8);
    let responded = MetaAddr::new(
        &host(1),
        &PeerServices::node_network(),
        &Timestamp::from_secs(10),
        PeerAddrState::Responded,
    );
    book.insert_or_update(responded);
    let mut set = CandidateSet::new(0);
    let now = Timestamp { secs: 2_000, nanos: 3 };
    set.report_failed_at(&mut book, &responded, &now);
    let failed = MetaAddr::new(&host(1), &PeerServices::node_network(), &now, PeerAddrState::Failed);
    assert_eq!(book.peers(), vec![failed]);
    set.report_failed_at(&mut book, &gossip(2, 5), &now);
    assert_eq!(book.get(&host(2)).unwrap().last_connection_state, PeerAddrState::Failed);
    assert_eq!(book.get(&host(2)).unwrap().get_last_seen(), now);
}

#[test]
fn report_failed_uses_the_clock_time() {
    let mut book = AddressBook::new(8);
    let mut set = CandidateSet::new(0);
    set.report_failed(&mut book, &gossip(1, 5));
    let held = book.get(&host(1)).unwrap();
    assert_eq!(held.last_connection_state, PeerAddrState::Failed);
    assert!(held.get_last_seen().secs > 1_600_000_000);
    assert_eq!(held.services, PeerServices::node_network());
}

#[test]
fn failed_peer_becomes_a_candidate_again() {
    let mut book = AddressBook::new(8);
    book.insert_or_update(gossip(1, 500));
    let mut set = CandidateSet::new(0);
    let now = Timestamp::from_secs(1_000);
    let candidate = set.next_at(&mut book, &now, 0).candidate.unwrap();
    assert_eq!(set.next_at(&mut book, &now, 0).candidate, None);
    set.report_failed_at(&mut book, &candidate, &now);
    let again = set.next_at(&mut book, &now, 0).candidate.unwrap();
    assert_eq!(again.addr, host(1));
    assert_eq!(again.last_connection_state, PeerAddrState::AttemptPending);
}

#[test]
fn filter_unknown_keeps_new_addresses_in_order() {
    let mut book = AddressBook::new(8);
    book.insert_or_update(gossip(1, 500));
    let incoming = vec![gossip(2, 1), gossip(1, 900), gossip(3, 2), gossip(2, 3)];
    assert_eq!(
        CandidateSet::filter_unknown(&book, &incoming),
        vec![gossip(2, 1), gossip(3, 2), gossip(2, 3)]
    );
    assert_eq!(CandidateSet::filter_unknown(&book, &vec![]), vec![]);
}

#[test]
fn crawl_sends_three_requests_then_collects() {
    let mut book = AddressBook::new(8);
    book.insert_or_update(gossip(1, 500));
    let mut set = CandidateSet::new(0);
    assert_eq!(set.update(&mut book, CrawlEvent::Start), CrawlAction::AwaitReady);
    assert_eq!(set.update(&mut book, CrawlEvent::ServiceReady), CrawlAction::SendThenAwaitReady);
    assert_eq!(set.update(&mut book, CrawlEvent::ServiceReady), CrawlAction::SendThenAwaitReady);
    assert_eq!(set.update(&mut book, CrawlEvent::ServiceReady), CrawlAction::SendThenAwaitResponse);
    let answer = vec![gossip(1, 900), gossip(2, 700)];
    assert_eq!(set.update(&mut book, CrawlEvent::Response(answer)), CrawlAction::AwaitResponse);
    assert_eq!(book.peers(), vec![gossip(1, 500), gossip(2, 700)]);
    assert_eq!(set.update(&mut book, CrawlEvent::RequestFailed), CrawlAction::AwaitResponse);
    let last = vec![gossip(3, 1), gossip(3, 2)];
    assert_eq!(set.update(&mut book, CrawlEvent::Response(last)), CrawlAction::ReturnOk);
    assert_eq!(book.peers(), vec![gossip(1, 500), gossip(2, 700), gossip(3, 2)]);
    assert_eq!(set.next_peer_min_wait(), 0);
}

#[test]
fn crawl_ends_quietly_when_the_service_is_not_ready() {
    let mut book = AddressBook::new(8);
    let mut set = CandidateSet::new(0);
    assert_eq!(set.update(&mut book, CrawlEvent::Start), CrawlAction::AwaitReady);
    assert_eq!(set.update(&mut book, CrawlEvent::ServiceReady), CrawlAction::SendThenAwaitReady);
    assert_eq!(set.update(&mut book, CrawlEvent::ServiceTimedOut), CrawlAction::ReturnOk);
    assert_eq!(set.update(&mut book, CrawlEvent::Start), CrawlAction::AwaitReady);
    assert!(book.is_empty());
}

#[test]
fn crawl_fails_when_the_service_fails() {
    let mut book = AddressBook::new(8);
    let mut set = CandidateSet::new(0);
    assert_eq!(set.update(&mut book, CrawlEvent::Start), CrawlAction::AwaitReady);
    assert_eq!(set.update(&mut book, CrawlEvent::ServiceFailed), CrawlAction::ReturnError);
}

#[test]
fn crawl_answers_out_of_turn_end_the_crawl() {
    let mut book = AddressBook::new(8);
    let mut set = CandidateSet::new(0);
    assert_eq!(set.update(&mut book, CrawlEvent::RequestFailed), CrawlAction::ReturnOk);
    assert_eq!(
        set.update(&mut book, CrawlEvent::Response(vec![gossip(1, 1)])),
        CrawlAction::ReturnOk
    );
    assert!(book.contains(&host(1)));
    for _ in 0..3 {
        set.update(&mut book, CrawlEvent::ServiceReady);
    }
    assert_eq!(set.update(&mut book, CrawlEvent::ServiceReady), CrawlAction::AwaitResponse);
}
