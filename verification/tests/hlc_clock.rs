//! The clock state machine: local events, receive events, and the self-fence.

use krabka::hlc::{
    ClockState, Hlc, HlcClock, HlcError, ManualClock, PhysicalClock, WallMicros,
    DEFAULT_MAX_OFFSET,
};
use krabka::ids::NodeId;

const LOCAL: NodeId = NodeId(1);
const PEER: NodeId = NodeId(9);
// A wall time far from zero, so a field that defaults to zero is visible.
const BASE: i64 = 1_700_000_000_000_000;

type TestClock = HlcClock<ManualClock>;

// A clock whose logical time is `(wall, counter)` and whose physical clock
// reads `physical`. The counter is built by repeated local events at a
// stalled physical clock.
fn clock_at(wall: i64, counter: u32, physical: i64) -> TestClock {
    let mut clock = HlcClock::with_clock(LOCAL, ManualClock::new(WallMicros(wall)));
    for _ in 0..counter {
        clock.now().unwrap();
    }
    clock.physical_mut().set(WallMicros(physical));
    clock
}

#[test]
fn a_stalled_physical_clock_increments_the_counter() {
    let mut clock = HlcClock::with_clock(LOCAL, ManualClock::new(WallMicros(BASE)));
    assert_eq!(clock.now(), Ok(Hlc::new(WallMicros(BASE), 1, LOCAL)));
    assert_eq!(clock.now(), Ok(Hlc::new(WallMicros(BASE), 2, LOCAL)));
    assert_eq!(clock.now(), Ok(Hlc::new(WallMicros(BASE), 3, LOCAL)));
}

#[test]
fn a_physical_clock_that_advances_resets_the_counter() {
    let mut clock = HlcClock::with_clock(LOCAL, ManualClock::new(WallMicros(BASE)));
    assert_eq!(clock.now(), Ok(Hlc::new(WallMicros(BASE), 1, LOCAL)));
    clock.physical_mut().advance(1_000);
    assert_eq!(clock.now(), Ok(Hlc::new(WallMicros(BASE + 1_000), 0, LOCAL)));
    assert_eq!(clock.now(), Ok(Hlc::new(WallMicros(BASE + 1_000), 1, LOCAL)));
}

#[test]
fn a_physical_clock_that_jumps_backwards_never_moves_logical_time_back() {
    let mut clock = HlcClock::with_clock(LOCAL, ManualClock::new(WallMicros(BASE)));
    assert_eq!(clock.now(), Ok(Hlc::new(WallMicros(BASE), 1, LOCAL)));
    clock.physical_mut().set(WallMicros(BASE - 5_000_000));
    assert_eq!(clock.now(), Ok(Hlc::new(WallMicros(BASE), 2, LOCAL)));
    assert_eq!(clock.physical_mut().now_micros(), BASE - 5_000_000);
}

#[test]
fn the_receive_rule_picks_the_counter_from_the_side_that_supplied_the_wall_time() {
    let cases: [(&str, i64, u32, Hlc, i64, Hlc); 6] = [
        (
            "local and peer share the wall time, so the counters merge",
            100,
            3,
            Hlc::new(WallMicros(100), 7, PEER),
            50,
            Hlc::new(WallMicros(100), 8, LOCAL),
        ),
        (
            "the local clock leads, so its own counter advances",
            100,
            3,
            Hlc::new(WallMicros(80), 7, PEER),
            50,
            Hlc::new(WallMicros(100), 4, LOCAL),
        ),
        (
            "the peer leads, so the peer's counter advances",
            100,
            3,
            Hlc::new(WallMicros(120), 7, PEER),
            50,
            Hlc::new(WallMicros(120), 8, LOCAL),
        ),
        (
            "the physical clock overtakes both, so the counter resets",
            100,
            3,
            Hlc::new(WallMicros(110), 7, PEER),
            200,
            Hlc::new(WallMicros(200), 0, LOCAL),
        ),
        (
            "the physical clock overtakes an agreed wall time",
            100,
            3,
            Hlc::new(WallMicros(100), 7, PEER),
            300,
            Hlc::new(WallMicros(300), 0, LOCAL),
        ),
        (
            "a peer level with the physical clock but behind the local clock",
            100,
            3,
            Hlc::new(WallMicros(60), 99, PEER),
            60,
            Hlc::new(WallMicros(100), 4, LOCAL),
        ),
    ];
    for (name, wall, counter, peer, physical, expected) in cases {
        let mut clock = clock_at(wall, counter, physical);
        assert_eq!(clock.observe(peer), Ok(expected), "{name}");
    }
}

#[test]
fn a_received_stamp_always_sorts_below_the_stamp_the_receive_returns() {
    let cases: [(&str, i64, u32, Hlc, i64); 4] = [
        ("peer ahead", 100, 3, Hlc::new(WallMicros(120), 7, PEER), 50),
        ("peer behind", 100, 3, Hlc::new(WallMicros(20), 7, PEER), 50),
        ("peer level", 100, 3, Hlc::new(WallMicros(100), 7, PEER), 50),
        ("peer level with a higher counter", 100, 3, Hlc::new(WallMicros(100), 40, PEER), 50),
    ];
    for (name, wall, counter, peer, physical) in cases {
        let mut clock = clock_at(wall, counter, physical);
        let merged = clock.observe(peer).unwrap();
        assert!(peer < merged, "{name}");
        assert!(clock.now().unwrap() > merged, "{name}");
    }
}

#[test]
fn a_stamp_behind_the_local_clock_is_always_accepted() {
    let mut clock = clock_at(BASE, 0, BASE);
    let old = Hlc::new(WallMicros(BASE - 86_400_000_000), 0, PEER);
    assert_eq!(clock.observe(old), Ok(Hlc::new(WallMicros(BASE), 1, LOCAL)));
    assert_eq!(clock.observation().refusals, 0);
    assert_eq!(clock.observation().peer_advances, 0);
}

#[test]
fn the_self_fence_refuses_a_peer_too_far_ahead_and_does_not_move() {
    let mut clock = clock_at(BASE, 0, BASE);
    let far_future = Hlc::new(WallMicros(BASE + 600_000), 4, PEER);
    assert_eq!(
        clock.observe(far_future),
        Err(HlcError::PeerTooFarAhead { ahead_micros: 600_000, max_micros: 500_000 })
    );
    assert_eq!(clock.now(), Ok(Hlc::new(WallMicros(BASE), 1, LOCAL)));
    assert_eq!(clock.observation().drift, 0);
}

#[test]
fn the_fence_admits_a_peer_exactly_at_the_maximum_offset() {
    let cases: [(&str, i64, bool); 4] = [
        ("one microsecond inside the fence", 499_999, true),
        ("exactly at the fence", 500_000, true),
        ("one microsecond outside the fence", 500_001, false),
        ("a clock set to the wrong year", 86_400_000_000, false),
    ];
    for (name, ahead, accepted) in cases {
        let mut clock = clock_at(BASE, 0, BASE);
        let peer = Hlc::new(WallMicros(BASE + ahead), 0, PEER);
        let expected = if accepted {
            Ok(Hlc::new(WallMicros(BASE + ahead), 1, LOCAL))
        } else {
            Err(HlcError::PeerTooFarAhead { ahead_micros: ahead, max_micros: 500_000 })
        };
        assert_eq!(clock.observe(peer), expected, "{name}");
    }
}

#[test]
fn a_configured_maximum_offset_replaces_the_default() {
    let mut clock = HlcClock::with_max_offset(LOCAL, ManualClock::new(WallMicros(BASE)), 10_000);
    assert_eq!(clock.max_offset(), 10_000);
    assert_eq!(clock.node(), LOCAL);
    let inside = Hlc::new(WallMicros(BASE + 10_000), 0, PEER);
    let outside = Hlc::new(WallMicros(BASE + 10_001), 0, PEER);
    assert!(clock.observe(inside).is_ok());
    assert_eq!(
        clock.observe(outside),
        Err(HlcError::PeerTooFarAhead { ahead_micros: 10_001, max_micros: 10_000 })
    );
}

#[test]
fn a_negative_maximum_offset_refuses_every_peer_above_the_physical_clock() {
    let mut clock = HlcClock::with_max_offset(LOCAL, ManualClock::new(WallMicros(BASE)), -5_000);
    assert_eq!(clock.max_offset(), 0);
    let ahead = Hlc::new(WallMicros(BASE + 1), 0, PEER);
    assert_eq!(
        clock.observe(ahead),
        Err(HlcError::PeerTooFarAhead { ahead_micros: 1, max_micros: 0 })
    );
    assert!(clock.observe(Hlc::new(WallMicros(BASE), 0, PEER)).is_ok());
}

#[test]
fn the_default_maximum_offset_is_five_hundred_milliseconds() {
    assert_eq!(DEFAULT_MAX_OFFSET, 500_000);
    assert_eq!(HlcClock::new(LOCAL).max_offset(), DEFAULT_MAX_OFFSET);
}

#[test]
fn the_observation_reports_drift_advances_and_refusals() {
    let mut clock = HlcClock::with_clock(LOCAL, ManualClock::new(WallMicros(BASE)));
    clock.now().unwrap();

    let fresh = clock.observation();
    assert_eq!(fresh.drift, 0);
    assert_eq!(fresh.peer_advances, 0);
    assert_eq!(fresh.refusals, 0);
    assert_eq!(fresh.max_peer_ahead, 0);

    clock.observe(Hlc::new(WallMicros(BASE + 40_000), 0, PEER)).unwrap();
    let pulled = clock.observation();
    assert_eq!(pulled.drift, 40_000);
    assert_eq!(pulled.peer_advances, 1);
    assert_eq!(pulled.refusals, 0);
    assert_eq!(pulled.max_peer_ahead, 40_000);

    clock.observe(Hlc::new(WallMicros(BASE + 600_000), 0, PEER)).unwrap_err();
    let fenced = clock.observation();
    assert_eq!(fenced.drift, 40_000);
    assert_eq!(fenced.peer_advances, 1);
    assert_eq!(fenced.refusals, 1);
    assert_eq!(fenced.max_peer_ahead, 600_000);

    clock.physical_mut().advance(40_000);
    assert_eq!(clock.observation().drift, 0);
}

#[test]
fn a_peer_behind_the_physical_clock_does_not_count_as_an_advance() {
    let mut clock = clock_at(BASE, 0, BASE + 1_000);
    clock.observe(Hlc::new(WallMicros(BASE + 500), 0, PEER)).unwrap();
    let observation = clock.observation();
    assert_eq!(observation.peer_advances, 0);
    assert_eq!(observation.refusals, 0);
    assert_eq!(observation.max_peer_ahead, 0);
}

#[test]
fn two_nodes_that_agree_on_wall_and_counter_still_have_one_order() {
    let earlier = Hlc::new(WallMicros(4), 9, NodeId(9));
    let node_one = Hlc::new(WallMicros(5), 2, NodeId(1));
    let node_two = Hlc::new(WallMicros(5), 2, NodeId(2));
    let later_counter = Hlc::new(WallMicros(5), 3, NodeId(1));
    assert!(node_one < node_two);
    assert!(node_two < later_counter);
    let mut stamps = vec![node_two, later_counter, earlier, node_one];
    stamps.sort();
    assert_eq!(stamps, vec![earlier, node_one, node_two, later_counter]);
}

#[test]
fn a_counter_at_its_maximum_is_reported_and_never_wraps() {
    let mut clock = clock_at(BASE, 0, BASE);
    let saturated = Hlc::new(WallMicros(BASE), u32::MAX, PEER);
    assert_eq!(clock.observe(saturated), Err(HlcError::CounterOverflow));
    assert_eq!(clock.now(), Ok(Hlc::new(WallMicros(BASE), 1, LOCAL)));
}

#[test]
fn a_borrowed_and_a_shared_physical_clock_both_drive_the_state_machine() {
    let first = ManualClock::new(WallMicros(BASE));
    let later = ManualClock::new(WallMicros(BASE + 1));
    let mut borrowed = HlcClock::with_clock(LOCAL, &first);
    assert_eq!(borrowed.now(), Ok(Hlc::new(WallMicros(BASE), 1, LOCAL)));
    *borrowed.physical_mut() = &later;
    assert_eq!(borrowed.now(), Ok(Hlc::new(WallMicros(BASE + 1), 0, LOCAL)));

    let mut owned = HlcClock::with_clock(LOCAL, ManualClock::new(WallMicros(BASE)));
    assert_eq!(owned.now(), Ok(Hlc::new(WallMicros(BASE), 1, LOCAL)));
    owned.physical_mut().set(WallMicros(BASE + 2));
    assert_eq!(owned.now(), Ok(Hlc::new(WallMicros(BASE + 2), 0, LOCAL)));
}

#[test]
fn a_counter_at_its_maximum_refuses_a_local_event_too() {
    let mut clock = HlcClock::starting_at(LOCAL, ManualClock::new(WallMicros(7)), 0, 7);
    for expected in 1..=3u32 {
        assert_eq!(clock.now_at(7), Ok(Hlc::new(WallMicros(7), expected, LOCAL)));
    }
    let mut stuck = HlcClock::starting_at(LOCAL, ManualClock::new(WallMicros(7)), 0, 7);
    // Drive the counter to its maximum through receives of a peer at the same
    // wall time.
    assert_eq!(
        stuck.observe_at(Hlc::new(WallMicros(7), u32::MAX - 1, PEER), 7),
        Ok(Hlc::new(WallMicros(7), u32::MAX, LOCAL))
    );
    assert_eq!(stuck.now_at(7), Err(HlcError::CounterOverflow));
    assert_eq!(stuck.now_at(8), Ok(Hlc::new(WallMicros(8), 0, LOCAL)));
}

#[test]
fn the_saturated_peer_delta_is_refused_for_the_most_distant_peer() {
    let mut clock = HlcClock::starting_at(LOCAL, ManualClock::new(WallMicros(-10)), 0, -10);
    assert_eq!(
        clock.observe_at(Hlc::new(WallMicros(i64::MAX), 0, PEER), i64::MIN),
        Err(HlcError::PeerTooFarAhead { ahead_micros: i64::MAX, max_micros: 0 })
    );
    assert_eq!(clock.observation_at(i64::MIN).max_peer_ahead, i64::MAX);
    assert_eq!(clock.observation_at(i64::MIN).drift, i64::MAX - 9);
}

#[test]
fn a_clock_starts_with_no_counts() {
    let clock = HlcClock::starting_at(LOCAL, ManualClock::new(WallMicros(3)), 100, 3);
    let o = clock.observation_at(5);
    assert_eq!((o.drift, o.peer_advances, o.refusals, o.max_peer_ahead), (-2, 0, 0, 0));
    let _ = ClockState { wall: 0, counter: 0, peer_advances: 0, refusals: 0, max_peer_ahead_micros: 0 };
}
