use std::cmp::Ordering;

use peer_candidates::address::{PeerIp, PeerSocketAddr};
use peer_candidates::meta_addr::{MetaAddr, PeerAddrState};
use peer_candidates::services::PeerServices;
use peer_candidates::timestamp::Timestamp;

fn v4(a: u8, b: u8, c: u8, d: u8, port: u16) -> PeerSocketAddr {
    PeerSocketAddr::new(PeerIp::V4(u32::from_be_bytes([a, b, c, d])), port)
}

fn record(addr: PeerSocketAddr, secs: i64, state: PeerAddrState) -> MetaAddr {
    MetaAddr::new(&addr, &PeerServices::node_network(), &Timestamp::from_secs(secs), state)
}

#[test]
fn state_default_is_never_attempted() {
    assert_eq!(PeerAddrState::default(), PeerAddrState::NeverAttempted);
}

#[test]
fn state_order_is_responded_never_failed_pending() {
    let order = [
        PeerAddrState::Responded,
        PeerAddrState::NeverAttempted,
        PeerAddrState::Failed,
        PeerAddrState::AttemptPending,
    ];
    for i in 0..4 {
        for j in 0..4 {
            assert_eq!(order[i].cmp(&order[j]), i.cmp(&j));
            assert_eq!(order[i].partial_cmp(&order[j]), Some(i.cmp(&j)));
            assert_eq!(order[i] < order[j], i < j);
        }
    }
}

#[test]
fn timestamp_compares_seconds_then_nanos() {
    let a = Timestamp { secs: 10, nanos: 5 };
    let b = Timestamp { secs: 10, nanos: 6 };
    let c = Timestamp { secs: 11, nanos: 0 };
    assert_eq!(a.cmp(&b), Ordering::Less);
    assert_eq!(b.cmp(&c), Ordering::Less);
    assert_eq!(c.cmp(&a), Ordering::Greater);
    assert_eq!(a.cmp(&a), Ordering::Equal);
    assert!(b.after(&a));
    assert!(!a.after(&a));
    assert!(!a.after(&c));
}

#[test]
fn timestamp_truncates_to_bucket_start() {
    let t = Timestamp { secs: 1_600_000_123, nanos: 999 }.truncate();
    assert_eq!(t, Timestamp { secs: 1_599_998_400, nanos: 0 });
    let exact = Timestamp::from_secs(3600).truncate();
    assert_eq!(exact, Timestamp::from_secs(3600));
    let negative = Timestamp::from_secs(-1).truncate();
    assert_eq!(negative, Timestamp::from_secs(-1800));
    let earliest = Timestamp::from_secs(-8_334_601_228_800).truncate();
    assert_eq!(earliest, Timestamp::from_secs(-8_334_601_228_800));
}

#[test]
fn timestamp_cutoff_is_two_minutes_earlier() {
    let now = Timestamp { secs: 1_000, nanos: 7 };
    assert_eq!(now.cutoff(), Timestamp { secs: 880, nanos: 7 });
    let floor = Timestamp { secs: i64::MIN + 5, nanos: 0 };
    assert_eq!(floor.cutoff(), Timestamp { secs: i64::MIN, nanos: 0 });
}

#[test]
fn services_truncate_unknown_bits() {
    assert_eq!(PeerServices::from_bits_truncate(0xffff_ffff_ffff_ffff).bits(), 1);
    assert_eq!(PeerServices::from_bits_truncate(6).bits(), 0);
    assert_eq!(PeerServices::from_bits_truncate(1), PeerServices::node_network());
    assert_eq!(PeerServices::from_bits_truncate(0), PeerServices::empty());
}

#[test]
fn constructors_set_the_state() {
    let addr = v4(192, 0, 2, 1, 8233);
    let services = PeerServices::node_network();
    let seen = Timestamp::from_secs(1_600_000_000);
    let gossiped = MetaAddr::new_gossiped(&addr, &services, &seen);
    assert_eq!(gossiped.last_connection_state, PeerAddrState::NeverAttempted);
    assert_eq!(gossiped.get_last_seen(), seen);
    assert_eq!(gossiped.addr, addr);
    assert_eq!(gossiped.services, services);
    assert_eq!(MetaAddr::new_responded(&addr, &services).last_connection_state, PeerAddrState::Responded);
    assert_eq!(MetaAddr::new_reconnect(&addr, &services).last_connection_state, PeerAddrState::AttemptPending);
    assert_eq!(MetaAddr::new_errored(&addr, &services).last_connection_state, PeerAddrState::Failed);
    assert_eq!(MetaAddr::new_shutdown(&addr, &services).last_connection_state, PeerAddrState::Failed);
}

#[test]
fn clock_gives_a_present_day_time() {
    let addr = v4(192, 0, 2, 1, 8233);
    let first = MetaAddr::new_responded(&addr, &PeerServices::empty()).get_last_seen();
    let second = MetaAddr::new_errored(&addr, &PeerServices::empty()).get_last_seen();
    assert!(first.secs > 1_600_000_000);
    assert!(first.secs <= 8_210_266_876_799);
    assert!(first.nanos < 2_000_000_000);
    assert!(!first.after(&second));
}

#[test]
fn sanitize_resets_state_and_truncates_time() {
    let addr = v4(192, 0, 2, 1, 8233);
    let states = [
        PeerAddrState::Responded,
        PeerAddrState::NeverAttempted,
        PeerAddrState::Failed,
        PeerAddrState::AttemptPending,
    ];
    for state in states {
        for secs in [0i64, 1, 1799, 1800, 1_600_000_123, -1, -1801, 4_294_967_295] {
            let meta = MetaAddr::new(
                &addr,
                &PeerServices::node_network(),
                &Timestamp { secs, nanos: 123_456 },
                state,
            );
            let clean = meta.sanitize();
            assert_eq!(clean.last_connection_state, PeerAddrState::NeverAttempted);
            assert_eq!(clean.get_last_seen().secs.rem_euclid(1800), 0);
            assert_eq!(clean.get_last_seen().nanos, 0);
            assert!(clean.get_last_seen().secs <= secs);
            assert!(secs - clean.get_last_seen().secs < 1800);
            assert_eq!(clean.addr, meta.addr);
            assert_eq!(clean.services, meta.services);
        }
    }
    let meta = record(addr, 1_600_000_123, PeerAddrState::Failed);
    assert_eq!(meta.sanitize(), record(addr, 1_599_998_400, PeerAddrState::NeverAttempted));
}

#[test]
fn records_order_by_state_first() {
    let addr = v4(192, 0, 2, 1, 8233);
    let responded = record(addr, 500, PeerAddrState::Responded);
    let never = record(addr, 100, PeerAddrState::NeverAttempted);
    let failed = record(addr, 50, PeerAddrState::Failed);
    let pending = record(addr, 10, PeerAddrState::AttemptPending);
    assert_eq!(responded.cmp(&never), Ordering::Less);
    assert_eq!(never.cmp(&failed), Ordering::Less);
    assert_eq!(failed.cmp(&pending), Ordering::Less);
    assert_eq!(pending.cmp(&responded), Ordering::Greater);
    assert!(responded < never && never < failed && failed < pending);
    assert!(responded.is_before(&pending));
    assert!(!pending.is_before(&responded));
}

#[test]
fn never_attempted_sorts_newest_first_others_oldest_first() {
    let addr = v4(192, 0, 2, 1, 8233);
    let old = record(addr, 100, PeerAddrState::NeverAttempted);
    let new = record(addr, 200, PeerAddrState::NeverAttempted);
    assert_eq!(new.cmp(&old), Ordering::Less);
    assert_eq!(old.cmp(&new), Ordering::Greater);
    for state in [PeerAddrState::Responded, PeerAddrState::Failed, PeerAddrState::AttemptPending] {
        let old = record(addr, 100, state);
        let new = record(addr, 200, state);
        assert_eq!(old.cmp(&new), Ordering::Less);
        assert_eq!(new.cmp(&old), Ordering::Greater);
    }
    let early = MetaAddr::new(&addr, &PeerServices::empty(), &Timestamp { secs: 5, nanos: 1 }, PeerAddrState::Failed);
    let late = MetaAddr::new(&addr, &PeerServices::empty(), &Timestamp { secs: 5, nanos: 2 }, PeerAddrState::Failed);
    assert_eq!(early.cmp(&late), Ordering::Less);
}

#[test]
fn ties_break_on_ip_then_port_then_services() {
    let state = PeerAddrState::Failed;
    let low = record(v4(10, 0, 0, 1, 9000), 100, state);
    let high = record(v4(10, 0, 0, 2, 1), 100, state);
    assert_eq!(low.cmp(&high), Ordering::Less);
    let v6 = record(PeerSocketAddr::new(PeerIp::V6(1), 1), 100, state);
    let top_v4 = record(v4(255, 255, 255, 255, 65535), 100, state);
    assert_eq!(top_v4.cmp(&v6), Ordering::Less);
    assert_eq!(v6.cmp(&top_v4), Ordering::Greater);
    let v6_high = record(PeerSocketAddr::new(PeerIp::V6(1u128 << 120), 1), 100, state);
    assert_eq!(v6.cmp(&v6_high), Ordering::Less);
    let port_low = record(v4(10, 0, 0, 1, 1), 100, state);
    assert_eq!(port_low.cmp(&low), Ordering::Less);
    let addr = v4(10, 0, 0, 1, 1);
    let none = MetaAddr::new(&addr, &PeerServices::empty(), &Timestamp::from_secs(100), state);
    assert_eq!(none.cmp(&port_low), Ordering::Less);
    assert_eq!(port_low.cmp(&port_low), Ordering::Equal);
    assert_eq!(port_low.partial_cmp(&port_low), Some(Ordering::Equal));
}

#[test]
fn order_is_total_on_sample_records() {
    let mut sample = Vec::new();
    for state in [
        PeerAddrState::Responded,
        PeerAddrState::NeverAttempted,
        PeerAddrState::Failed,
        PeerAddrState::AttemptPending,
    ] {
        for secs in [0i64, 7] {
            for addr in [v4(1, 2, 3, 4, 5), v4(1, 2, 3, 4, 6), PeerSocketAddr::new(PeerIp::V6(9), 5)] {
                for services in [PeerServices::empty(), PeerServices::node_network()] {
                    sample.push(MetaAddr::new(&addr, &services, &Timestamp::from_secs(secs), state));
                }
            }
        }
    }
    for a in &sample {
        for b in &sample {
            let ab = a.cmp(b);
            assert_eq!(b.cmp(a), ab.reverse());
            assert_eq!(ab == Ordering::Equal, a == b);
            for c in &sample {
                if ab == Ordering::Less && b.cmp(c) == Ordering::Less {
                    assert_eq!(a.cmp(c), Ordering::Less);
                }
            }
        }
    }
}
