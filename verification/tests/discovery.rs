use lan_transfer::app_state::AppState;
use lan_transfer::identity::{new_instance_id, new_transfer_id};
use lan_transfer::services::discovery::{
    beacon, device_is_stale, handle_datagram, remove_stale, stale_addresses,
    ANNOUNCE_INTERVAL_SECS, CLEAN_INTERVAL_SECS, DISCOVERY_PORT, MAX_DATAGRAM_BYTES,
    MULTICAST_GROUP, MULTICAST_TTL, STALE_AFTER_NANOS,
};
use std::path::PathBuf;

const SECOND: u64 = 1_000_000_000;

fn state(id: &str) -> AppState {
    let mut s = AppState::new(PathBuf::from("."));
    s.set_instance_id(id.to_string());
    s
}

fn peers(s: &AppState) -> Vec<(String, String, u16, u64)> {
    let mut v: Vec<_> = s
        .snapshot()
        .into_iter()
        .map(|d| (d.ip, d.hostname, d.tcp_port, d.last_seen))
        .collect();
    v.sort();
    v
}

#[test]
fn constants_of_discovery() {
    assert_eq!(DISCOVERY_PORT, 53029);
    assert_eq!(MULTICAST_GROUP, [239, 255, 77, 77]);
    assert_eq!(MULTICAST_TTL, 1);
    assert_eq!(ANNOUNCE_INTERVAL_SECS, 2);
    assert_eq!(CLEAN_INTERVAL_SECS, 2);
    assert_eq!(STALE_AFTER_NANOS, 6 * SECOND);
    assert_eq!(MAX_DATAGRAM_BYTES, 1024);
}

#[test]
fn identifiers_have_the_shape_of_a_uuid() {
    for id in [new_instance_id(), new_transfer_id()] {
        assert_eq!(id.len(), 36);
        for (i, c) in id.chars().enumerate() {
            if i == 8 || i == 13 || i == 18 || i == 23 {
                assert_eq!(c, '-');
            } else {
                assert!(c.is_ascii_digit() || ('a'..='f').contains(&c), "{:?}", id);
            }
        }
        assert!(!id.contains(':'));
        assert_eq!(id.as_bytes()[14], b'4');
        assert!(b"89ab".contains(&id.as_bytes()[19]));
    }
    assert_ne!(new_instance_id(), new_instance_id());
    assert_ne!(new_transfer_id(), new_transfer_id());
}

#[test]
fn beacon_says_who_and_where() {
    let mut s = state("5d1f6a3e-0000-4000-8000-000000000001");
    s.set_port(40001);
    assert_eq!(beacon(&s, "desk"), "HERE:5d1f6a3e-0000-4000-8000-000000000001:desk:40001");
    // the beacon follows the state
    s.set_port(40002);
    assert_eq!(beacon(&s, "desk"), "HERE:5d1f6a3e-0000-4000-8000-000000000001:desk:40002");
}

#[test]
fn beacon_of_another_instance_makes_its_sender_known() {
    let mut s = state("me");
    let known = handle_datagram(&mut s, b"HERE:other:laptop:40001", "192.168.1.7".to_string(), 123);
    assert!(known);
    assert_eq!(
        peers(&s),
        vec![("192.168.1.7".to_string(), "laptop".to_string(), 40001, 123)]
    );
}

#[test]
fn beacon_refreshes_what_is_known() {
    let mut s = state("me");
    assert!(handle_datagram(&mut s, b"HERE:other:laptop:40001", "192.168.1.7".to_string(), 100));
    assert!(handle_datagram(&mut s, b"HERE:other:renamed:40002", "192.168.1.7".to_string(), 200));
    assert!(handle_datagram(&mut s, b"HERE:third:desk:50000", "192.168.1.8".to_string(), 300));
    assert_eq!(
        peers(&s),
        vec![
            ("192.168.1.7".to_string(), "renamed".to_string(), 40002, 200),
            ("192.168.1.8".to_string(), "desk".to_string(), 50000, 300),
        ]
    );
}

#[test]
fn beacon_written_by_one_instance_is_taken_in_by_another() {
    let mut sender = state(&new_instance_id());
    sender.set_port(45678);
    let mut receiver = state(&new_instance_id());
    let datagram = beacon(&sender, "sender-host");
    assert!(handle_datagram(&mut receiver, datagram.as_bytes(), "10.1.2.3".to_string(), 9));
    assert_eq!(
        peers(&receiver),
        vec![("10.1.2.3".to_string(), "sender-host".to_string(), 45678, 9)]
    );
    // and is ignored by the instance that wrote it
    assert!(!handle_datagram(&mut sender, datagram.as_bytes(), "10.1.2.3".to_string(), 9));
    assert!(peers(&sender).is_empty());
}

#[test]
fn own_beacon_changes_nothing() {
    let mut s = state("me");
    assert!(handle_datagram(&mut s, b"HERE:other:laptop:40001", "192.168.1.7".to_string(), 100));
    let before = peers(&s);
    assert!(!handle_datagram(&mut s, b"HERE:me:myself:40001", "192.168.1.2".to_string(), 200));
    assert!(!handle_datagram(&mut s, b"HERE:me:myself:40001", "192.168.1.7".to_string(), 200));
    assert_eq!(peers(&s), before);
}

#[test]
fn malformed_datagram_changes_nothing() {
    let mut s = state("me");
    assert!(handle_datagram(&mut s, b"HERE:other:laptop:40001", "192.168.1.7".to_string(), 100));
    let before = peers(&s);
    let malformed: Vec<&[u8]> = vec![
        b"",
        b"HERE",
        b"HERE:other:laptop",
        b"HERE:other:laptop:40001:extra",
        b"HERE:other:lap:top:40001",
        b"HELLO:other:laptop:40001",
        b"here:other:laptop:40001",
        b"HERE:other:laptop:port",
        b"HERE:other:laptop:",
        b"HERE:other:laptop:65536",
        b"HERE:other:laptop:-1",
        b"HERE:other:laptop: 80",
        b"\xff\xfe\xfd",
        b"HERE:other:lap\xfftop:40001",
        b"<invalid>",
    ];
    for datagram in malformed {
        assert!(
            !handle_datagram(&mut s, datagram, "192.168.1.9".to_string(), 500),
            "{:?}",
            datagram
        );
        assert!(
            !handle_datagram(&mut s, datagram, "192.168.1.7".to_string(), 500),
            "{:?}",
            datagram
        );
        assert_eq!(peers(&s), before);
    }
}

#[test]
fn own_beacon_with_a_port_that_is_no_port_changes_nothing() {
    let mut s = state("me");
    assert!(!handle_datagram(&mut s, b"HERE:me:myself:nope", "192.168.1.2".to_string(), 1));
    assert!(peers(&s).is_empty());
}

#[test]
fn empty_identity_filters_beacons_without_identifier() {
    // before an identifier is set, only a beacon with an empty identifier is taken for one's own
    let mut s = AppState::new(PathBuf::from("."));
    assert!(!handle_datagram(&mut s, b"HERE::host:1", "a".to_string(), 1));
    assert!(handle_datagram(&mut s, b"HERE:x:host:1", "a".to_string(), 1));
}

#[test]
fn peer_is_forgotten_after_the_threshold_and_not_before() {
    let mut s = state("me");
    s.upsert_device("a".to_string(), "A".to_string(), 1, 10 * SECOND);
    // within the threshold, and exactly at it: it stays
    for now in [10 * SECOND, 12 * SECOND, 16 * SECOND - 1, 16 * SECOND] {
        assert!(stale_addresses(&s, now).is_empty());
        assert!(remove_stale(&mut s, now).is_empty());
        assert_eq!(peers(&s).len(), 1, "at {}", now);
    }
    // one nanosecond beyond it: it goes
    assert_eq!(stale_addresses(&s, 16 * SECOND + 1), vec!["a".to_string()]);
    assert_eq!(remove_stale(&mut s, 16 * SECOND + 1), vec!["a".to_string()]);
    assert!(peers(&s).is_empty());
    assert!(remove_stale(&mut s, 16 * SECOND + 2).is_empty());
}

#[test]
fn refreshed_peer_is_not_forgotten() {
    let mut s = state("me");
    assert!(handle_datagram(&mut s, b"HERE:o:h:1", "a".to_string(), 0));
    assert!(handle_datagram(&mut s, b"HERE:o:h:1", "a".to_string(), 5 * SECOND));
    assert!(remove_stale(&mut s, 7 * SECOND).is_empty());
    assert!(remove_stale(&mut s, 11 * SECOND).is_empty());
    assert_eq!(remove_stale(&mut s, 11 * SECOND + 1), vec!["a".to_string()]);
}

#[test]
fn cleaner_forgets_the_stale_and_keeps_the_rest() {
    let mut s = state("me");
    s.upsert_device("old-1".to_string(), "A".to_string(), 1, 0);
    s.upsert_device("fresh-1".to_string(), "B".to_string(), 2, 5 * SECOND);
    s.upsert_device("old-2".to_string(), "C".to_string(), 3, SECOND);
    s.upsert_device("edge".to_string(), "D".to_string(), 4, 2 * SECOND);
    s.upsert_device("fresh-2".to_string(), "E".to_string(), 5, 8 * SECOND);
    let mut removed = remove_stale(&mut s, 8 * SECOND);
    removed.sort();
    assert_eq!(removed, vec!["old-1".to_string(), "old-2".to_string()]);
    assert_eq!(
        peers(&s),
        vec![
            ("edge".to_string(), "D".to_string(), 4, 2 * SECOND),
            ("fresh-1".to_string(), "B".to_string(), 2, 5 * SECOND),
            ("fresh-2".to_string(), "E".to_string(), 5, 8 * SECOND),
        ]
    );
}

#[test]
fn clock_reading_before_the_last_beacon_counts_as_no_silence() {
    let mut s = state("me");
    s.upsert_device("a".to_string(), "A".to_string(), 1, 100 * SECOND);
    assert!(remove_stale(&mut s, 0).is_empty());
    assert!(remove_stale(&mut s, 99 * SECOND).is_empty());
    let d = s.find_device("a").unwrap();
    assert!(!device_is_stale(&d, 0));
    assert!(!device_is_stale(&d, 106 * SECOND));
    assert!(device_is_stale(&d, 106 * SECOND + 1));
    assert!(device_is_stale(&d, u64::MAX));
}

#[test]
fn cleaner_leaves_identity_and_pending_transfers_alone() {
    let mut s = state("me");
    s.set_port(7);
    let (tx, _rx) = tokio::sync::oneshot::channel::<bool>();
    s.register_pending("t".to_string(), tx);
    s.upsert_device("a".to_string(), "A".to_string(), 1, 0);
    assert_eq!(remove_stale(&mut s, 7 * SECOND), vec!["a".to_string()]);
    assert_eq!(s.instance_id(), "me");
    assert_eq!(s.port(), 7);
    assert!(s.is_pending("t"));
}
