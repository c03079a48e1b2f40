use fast_uuid_v7::{
    format_uuid, gen_id, gen_id_str, gen_id_string, gen_id_u128, gen_id_with_count,
    gen_id_with_count_str, ThreadState,
};
use std::collections::HashSet;
use std::time::{Duration, Instant};

/// Nanoseconds since `start`, standing in for a cycle counter that runs at 1 GHz.
fn tick_since(start: Instant) -> Option<u64> {
    Some(start.elapsed().as_nanos() as u64)
}

fn sequence_field(id: u128) -> u128 {
    let counter_high = (id >> 64) & 0xFFF;
    let counter_low = (id >> 56) & 0x3F;
    (counter_high << 6) | counter_low
}

#[test]
fn test_next_id_performance() {
    let mut state = ThreadState::new(Some(1_000_000_000));
    let ticks = Instant::now();
    let start = Instant::now();
    for _ in 0..10_000_000 {
        let _ = gen_id_u128(&mut state, tick_since(ticks));
    }
    println!("Generated 10,000,000 IDs in {:?}", start.elapsed());
}

#[test]
fn test_next_id_uniqueness() {
    let mut state = ThreadState::new(Some(1_000_000_000));
    let ticks = Instant::now();
    let mut set = HashSet::with_capacity(1_000_000);
    for _ in 0..1_000_000 {
        let id = gen_id_u128(&mut state, tick_since(ticks));
        assert!(set.insert(id), "Duplicate ID generated: {:032x}", id);
    }
}

#[test]
fn test_next_id_ordering() {
    let mut state = ThreadState::new(Some(1_000_000_000));
    let ticks = Instant::now();
    let mut last_id = 0;
    for _ in 0..1_000_000 {
        let id = gen_id_with_count(&mut state, tick_since(ticks));
        if last_id != 0 {
            assert!(id > last_id, "IDs are not ordered: {:032x} <= {:032x}", id, last_id);
        }
        last_id = id;
    }
}

#[test]
fn test_next_id_string() {
    let mut state = ThreadState::new(None);
    let id_str = gen_id_string(&mut state, None);
    assert_eq!(id_str.len(), 36);
    assert!(uuid::Uuid::parse_str(&id_str).is_ok());
}

#[test]
fn test_format_uuid_correctness() {
    let mut state = ThreadState::new(None);
    let id = gen_id_u128(&mut state, None);
    let formatted = format_uuid(id);
    let uuid_crate_str = uuid::Uuid::from_u128(id).to_string();
    assert_eq!(formatted.as_ref(), uuid_crate_str);
}

#[test]
fn test_gen_id_structure() {
    let mut state = ThreadState::new(None);
    let id = gen_id(&mut state, None);
    let uuid = uuid::Uuid::from_u128(id);
    assert_eq!(uuid.get_version(), Some(uuid::Version::SortRand));
    assert_eq!(uuid.get_variant(), uuid::Variant::RFC4122);
}

#[test]
fn test_gen_id_with_count_structure() {
    let mut state = ThreadState::new(None);
    let id = gen_id_with_count(&mut state, None);
    let uuid = uuid::Uuid::from_u128(id);
    assert_eq!(uuid.get_version(), Some(uuid::Version::SortRand));
    assert_eq!(uuid.get_variant(), uuid::Variant::RFC4122);
}

#[test]
fn test_timestamp_updates_continuously() {
    let mut state = ThreadState::new(Some(1_000_000_000));
    let start = Instant::now();
    let duration = Duration::from_millis(100);

    let mut last_ts = gen_id(&mut state, tick_since(start)) >> 80;
    let start_ts = last_ts;
    let mut distinct_timestamps = 0;

    while start.elapsed() < duration {
        let curr = gen_id(&mut state, tick_since(start));
        let curr_ts = curr >> 80;
        if curr_ts > last_ts {
            distinct_timestamps += 1;
            last_ts = curr_ts;
        }
    }

    let elapsed_ts = last_ts - start_ts;
    println!(
        "Timestamp advanced: {} ms, Distinct timestamps observed: {}",
        elapsed_ts, distinct_timestamps
    );
    assert!(elapsed_ts >= 99, "Timestamp should advance roughly 100ms, got {}ms", elapsed_ts);
    assert!(
        distinct_timestamps >= 90,
        "Should see frequent updates, got {} distinct timestamps",
        distinct_timestamps
    );
}

#[test]
fn test_counter_reset() {
    let mut state = ThreadState::new(None);
    let start_ts = gen_id_with_count(&mut state, None) >> 80;
    loop {
        let id = gen_id_with_count(&mut state, None);
        let ts = id >> 80;
        if ts > start_ts {
            assert_eq!(
                sequence_field(id),
                0,
                "Counter should reset to 0 when timestamp changes"
            );
            break;
        }
    }
}

#[test]
fn counter_resets_on_every_timestamp_change() {
    let mut state = ThreadState::new(None);
    let mut prev = gen_id_with_count(&mut state, None);
    for _ in 0..200_000 {
        let id = gen_id_with_count(&mut state, None);
        if id >> 80 != prev >> 80 {
            assert_eq!(sequence_field(id), 0);
        } else {
            assert_eq!(sequence_field(id), sequence_field(prev) + 1);
        }
        prev = id;
    }
}

#[test]
fn counted_ids_increase_with_tick_counter() {
    let mut state = ThreadState::new(Some(1_000_000_000));
    let start = Instant::now();
    let mut last = gen_id_with_count(&mut state, tick_since(start));
    for _ in 0..300_000 {
        let id = gen_id_with_count(&mut state, tick_since(start));
        assert!(id > last);
        last = id;
    }
}

#[test]
fn generated_ids_have_version_and_variant() {
    let mut state = ThreadState::new(None);
    for _ in 0..1000 {
        let a = gen_id_u128(&mut state, None);
        let b = gen_id_with_count(&mut state, None);
        for id in [a, b] {
            assert_eq!((id >> 76) & 0xF, 7);
            assert_eq!((id >> 62) & 0x3, 2);
        }
    }
}

#[test]
fn generated_timestamp_is_wall_clock() {
    let mut state = ThreadState::new(None);
    let before = std::time::SystemTime::UNIX_EPOCH.elapsed().unwrap().as_millis();
    let id = gen_id_u128(&mut state, None);
    let after = std::time::SystemTime::UNIX_EPOCH.elapsed().unwrap().as_millis();
    let ts = id >> 80;
    assert!(before <= ts && ts <= after);
}

#[test]
fn text_generators_parse_back() {
    let mut state = ThreadState::new(None);
    let a = gen_id_str(&mut state, None);
    let b = gen_id_with_count_str(&mut state, None);
    for text in [a, b] {
        let parsed = uuid::Uuid::parse_str(text.as_str()).unwrap();
        assert_eq!(parsed.get_version(), Some(uuid::Version::SortRand));
        assert_eq!(format_uuid(parsed.as_u128()), text);
    }
}

#[test]
fn counted_text_sorts_like_numbers() {
    let mut state = ThreadState::new(None);
    let mut last = gen_id_with_count_str(&mut state, None);
    for _ in 0..10_000 {
        let next = gen_id_with_count_str(&mut state, None);
        assert!(next.as_str() > last.as_str());
        assert!(next > last);
        last = next;
    }
}
