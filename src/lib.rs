//! Fast, time-sortable 128-bit identifiers in the UUID version 7 layout.
//!
//! Each thread owns a `ThreadState`: a cached wall-clock timestamp that a
//! staleness detector refreshes from a cheap tick counter, a sequencer of
//! (timestamp, sequence) pairs, and a fast random source. Identifiers come in
//! two modes: random (74 random bits) and counted (an 18-bit per-thread counter
//! and 56 random bits, strictly increasing per context), as `u128` values or as
//! their 36-byte hyphenated hex text.

pub mod format;
pub mod generate;
pub mod layout;
pub mod state;

pub use format::{format_uuid, UuidString};
pub use generate::{
    gen_id, gen_id_str, gen_id_string, gen_id_u128, gen_id_with_count, gen_id_with_count_str,
};
pub use layout::{assemble_counted, assemble_random, MAX_SEQUENCE, MAX_TIMESTAMP};
pub use state::{millis_or_zero, tick_threshold, Sequencer, StalenessDetector, ThreadState};
