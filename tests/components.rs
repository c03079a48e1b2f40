use fast_uuid_v7::{
    assemble_counted, assemble_random, format_uuid, millis_or_zero, tick_threshold, Sequencer, StalenessDetector,
    MAX_SEQUENCE, MAX_TIMESTAMP,
};

#[test]
fn format_known_values() {
    assert_eq!(format_uuid(0).as_str(), "00000000-0000-0000-0000-000000000000");
    assert_eq!(format_uuid(u128::MAX).as_str(), "ffffffff-ffff-ffff-ffff-ffffffffffff");
    assert_eq!(
        format_uuid(0x0123_4567_89ab_cdef_0123_4567_89ab_cdef).as_str(),
        "01234567-89ab-cdef-0123-456789abcdef"
    );
    assert_eq!(&*format_uuid(0xa), "00000000-0000-0000-0000-00000000000a");
}

#[test]
fn format_is_36_bytes_and_round_trips() {
    for id in [0u128, 1, 0xdead_beef, u128::MAX, 1 << 127, 0x0190_0000_0000_7000_8000_0000_0000_0000] {
        let text = format_uuid(id);
        assert_eq!(text.len(), 36);
        assert_eq!(uuid::Uuid::parse_str(&text).unwrap().as_u128(), id);
    }
}

#[test]
fn format_preserves_order() {
    let values = [0u128, 9, 10, 15, 16, 0xff, 0x100, 1 << 64, (1 << 64) + 1, u128::MAX - 1, u128::MAX];
    for a in values {
        for b in values {
            if a < b {
                assert!(format_uuid(a) < format_uuid(b));
                assert!(format_uuid(a).as_str() < format_uuid(b).as_str());
            }
        }
    }
}

#[test]
fn assemble_random_layout() {
    assert_eq!(assemble_random(0, 0, 0), (7u128 << 76) | (2u128 << 62));
    assert_eq!(
        assemble_random(1, u32::MAX, u64::MAX),
        (1u128 << 80) | (7u128 << 76) | (0xFFFu128 << 64) | (2u128 << 62) | 0x3FFF_FFFF_FFFF_FFFF
    );
    assert_eq!(
        assemble_random(0x0190_0000_0001, 0x1234_5abc, 0xC000_0000_0000_0005),
        0x0190_0000_0001_7abc_8000_0000_0000_0005
    );
}

#[test]
fn assemble_counted_layout() {
    assert_eq!(assemble_counted(0, 0, 0), (7u128 << 76) | (2u128 << 62));
    let id = assemble_counted(2, MAX_SEQUENCE, u64::MAX);
    assert_eq!(id, 0x0000_0000_0002_7fff_bfff_ffff_ffff_ffff);
    let id = assemble_counted(3, 0x41, 0xFF00_0000_0000_0001);
    assert_eq!(id >> 80, 3);
    assert_eq!((id >> 64) & 0xFFF, 1);
    assert_eq!((id >> 56) & 0x3F, 1);
    assert_eq!(id & 0x00FF_FFFF_FFFF_FFFF, 1);
}

#[test]
fn sequencer_counts_within_a_millisecond() {
    let mut s = Sequencer { last_ms: 100, counter: 5 };
    assert_eq!(s.next_pair(None), (100, 6));
    assert_eq!(s.next_pair(Some(100)), (100, 7));
    assert_eq!(s.next_pair(Some(99)), (100, 8));
    assert_eq!(s.next_pair(Some(101)), (101, 0));
    assert_eq!(s.next_pair(None), (101, 1));
}

#[test]
fn sequencer_overflow_moves_ahead_of_clock() {
    let mut s = Sequencer { last_ms: 100, counter: 0 };
    let mut last = (100u64, 0u32);
    for _ in 0..(MAX_SEQUENCE as usize + 10) {
        let pair = s.next_pair(Some(100));
        assert!(pair > last);
        last = pair;
    }
    assert_eq!(last, (101, 9));
    let mut s = Sequencer { last_ms: 7, counter: MAX_SEQUENCE };
    assert_eq!(s.next_pair(Some(7)), (8, 0));
}

#[test]
fn sequencer_at_end_of_range() {
    let mut s = Sequencer { last_ms: MAX_TIMESTAMP, counter: MAX_SEQUENCE };
    assert_eq!(s.next_pair(None), (MAX_TIMESTAMP, MAX_SEQUENCE));
    let mut s = Sequencer { last_ms: 0, counter: 3 };
    assert_eq!(s.next_pair(Some(u64::MAX)), (MAX_TIMESTAMP, 0));
}

#[test]
fn commit_time_keeps_latest() {
    let mut s = Sequencer { last_ms: 50, counter: 9 };
    assert_eq!(s.commit_time(None), 50);
    assert_eq!(s.commit_time(Some(40)), 50);
    assert_eq!(s.counter, 9);
    assert_eq!(s.commit_time(Some(60)), 60);
    assert_eq!(s.counter, 0);
}

#[test]
fn threshold_from_frequency() {
    assert_eq!(tick_threshold(Some(3_000_000_000)), 300_000);
    assert_eq!(tick_threshold(Some(24_000_000)), 2_400);
    assert_eq!(tick_threshold(None), 200_000);
    assert_eq!(tick_threshold(Some(0)), 200_000);
}

#[test]
fn detector_without_tick_counter_always_checks() {
    let mut d = StalenessDetector { last_tick: 0, tick_threshold: 100, calls: 0 };
    for _ in 0..100 {
        assert!(d.should_check_time(None));
    }
}

#[test]
fn detector_uses_threshold_and_period() {
    let mut d = StalenessDetector { last_tick: 0, tick_threshold: 100, calls: 0 };
    assert!(d.should_check_time(Some(10)));
    assert!(!d.should_check_time(Some(50)));
    assert!(!d.should_check_time(Some(150)));
    assert!(d.should_check_time(Some(251)));
    assert_eq!(d.last_tick, 251);
    assert!(!d.should_check_time(Some(300)));
    assert!(d.should_check_time(Some(5)));
}

#[test]
fn detector_checks_every_period() {
    let mut d = StalenessDetector { last_tick: 0, tick_threshold: 1_000, calls: 0 };
    let mut checks = Vec::new();
    for i in 0..70u64 {
        if d.should_check_time(Some(i)) {
            checks.push(i);
        }
    }
    assert_eq!(checks, vec![0, 32, 64]);
}

#[test]
fn millis_reading_or_zero() {
    assert_eq!(millis_or_zero(None), 0);
    assert_eq!(millis_or_zero(Some(0)), 0);
    assert_eq!(millis_or_zero(Some(1_760_000_000_123)), 1_760_000_000_123);
    assert_eq!(millis_or_zero(Some((1u128 << 64) + 7)), 7);
}

#[test]
fn burst_carries_into_timestamp() {
    let range = MAX_SEQUENCE as u64 + 1;
    let (t, c0) = (1_000u64, 17u32);
    let mut s = Sequencer { last_ms: t, counter: c0 };
    for k in 1..=(2 * range + 5) {
        let reading = if k % 3 == 0 { Some(t) } else { None };
        let (ts, counter) = s.next_pair(reading);
        assert_eq!(ts, t + (c0 as u64 + k) / range);
        assert_eq!(counter as u64, (c0 as u64 + k) % range);
    }
}
