//! Identifier generation in the two modes, as numbers and as text.
use crate::format::{ascii_chars, format_uuid, uuid_text, UuidString};
use crate::layout::{
    assemble_counted, assemble_random, counted_id, lemma_counted_fields, lemma_random_fields,
    lemma_counted_id_order, random_id, sequence_of, timestamp_of, variant_of, version_of,
};
use crate::state::{draw_u32, draw_u64, ThreadState};
use vstd::prelude::*;
use vstd::string::StringExecFns;

verus! {

/// `id` is a random-mode identifier carrying the timestamp that `state` has
/// committed.
pub open spec fn is_random_id_of(id: u128, state: ThreadState) -> bool {
    exists|r1: u32, r2: u64| id == random_id(state.sequencer.last_ms, r1, r2)
}

/// `id` is a counted-mode identifier carrying the (timestamp, sequence) pair
/// that `state` has committed.
pub open spec fn is_counted_id_of(id: u128, state: ThreadState) -> bool {
    exists|r: u64| id == counted_id(state.sequencer.last_ms, state.sequencer.counter, r)
}

/// Generates a random-mode identifier: 48-bit timestamp, version 7, 12
/// random bits, variant `10`, 62 random bits. `tick` is the current reading
/// of the cheap tick counter, none where the platform has none.
///
/// Not monotonic within one millisecond, and not random enough for
/// cryptography.
pub fn gen_id_u128(state: &mut ThreadState, tick: Option<u64>) -> (id: u128)
    ensures
        old(state).random_mode_step(*final(state), tick),
        old(state).sequencer.wf() ==> final(state).sequencer.wf(),
        is_random_id_of(id, *final(state)),
        version_of(id) == 7,
        variant_of(id) == 2,
{
    let ghost before = *state;
    let timestamp = state.get_time(tick);
    proof {
        if before.sequencer.wf() {
            lemma_random_step_keeps_order(before, *state, tick);
        }
    }
    let r1 = draw_u32(&mut state.rng);
    let r2 = draw_u64(&mut state.rng);
    proof {
        lemma_random_fields(timestamp, r1, r2);
    }
    assemble_random(timestamp, r1, r2)
}

/// Same as `gen_id_u128`.
pub fn gen_id(state: &mut ThreadState, tick: Option<u64>) -> (id: u128)
    ensures
        old(state).random_mode_step(*final(state), tick),
        old(state).sequencer.wf() ==> final(state).sequencer.wf(),
        is_random_id_of(id, *final(state)),
        version_of(id) == 7,
        variant_of(id) == 2,
{
    gen_id_u128(state, tick)
}

/// Generates a random-mode identifier as text, without a heap allocation.
pub fn gen_id_str(state: &mut ThreadState, tick: Option<u64>) -> (s: UuidString)
    ensures
        old(state).random_mode_step(*final(state), tick),
        old(state).sequencer.wf() ==> final(state).sequencer.wf(),
        exists|id: u128|
            s@ == uuid_text(id) && is_random_id_of(id, *final(state)) && version_of(id) == 7
                && variant_of(id) == 2,
{
    let id = gen_id_u128(state, tick);
    format_uuid(id)
}

/// Generates a random-mode identifier as a `String`.
pub fn gen_id_string(state: &mut ThreadState, tick: Option<u64>) -> (s: String)
    ensures
        old(state).random_mode_step(*final(state), tick),
        old(state).sequencer.wf() ==> final(state).sequencer.wf(),
        exists|id: u128|
            s@ == ascii_chars(uuid_text(id)) && is_random_id_of(id, *final(state)) && version_of(
                id,
            ) == 7 && variant_of(id) == 2,
{
    let text = gen_id_str(state, tick);
    String::from_str(text.as_str())
}

/// Generates a counted-mode identifier: 48-bit timestamp, version 7, the 18-bit
/// sequence counter split over field A (high 12 bits) and the top of field B
/// (low 6 bits), variant `10`, 56 random bits. Identifiers from one context
/// increase strictly, up to about 262 thousand per millisecond; beyond that the
/// timestamp runs ahead of the wall clock.
pub fn gen_id_with_count(state: &mut ThreadState, tick: Option<u64>) -> (id: u128)
    ensures
        old(state).counted_mode_step(*final(state), tick),
        old(state).sequencer.wf() ==> final(state).sequencer.wf(),
        is_counted_id_of(id, *final(state)),
        version_of(id) == 7,
        variant_of(id) == 2,
{
    let ghost before = *state;
    let (timestamp, counter) = state.get_time_and_counter(tick);
    proof {
        if before.sequencer.wf() {
            lemma_counted_step_keeps_range(before, *state, tick);
        }
    }
    let r = draw_u64(&mut state.rng);
    proof {
        lemma_counted_fields(timestamp, counter, r);
    }
    let id = assemble_counted(timestamp, counter, r);
    assert(id == counted_id(state.sequencer.last_ms, state.sequencer.counter, r));
    id
}

/// Generates a counted-mode identifier as text, without a heap allocation.
pub fn gen_id_with_count_str(state: &mut ThreadState, tick: Option<u64>) -> (s: UuidString)
    ensures
        old(state).counted_mode_step(*final(state), tick),
        old(state).sequencer.wf() ==> final(state).sequencer.wf(),
        exists|id: u128|
            s@ == uuid_text(id) && is_counted_id_of(id, *final(state)) && version_of(id) == 7
                && variant_of(id) == 2,
{
    let id = gen_id_with_count(state, tick);
    format_uuid(id)
}

/// A random-mode step keeps the sequencer in range and never moves its
/// (timestamp, sequence) pair back.
pub proof fn lemma_random_step_keeps_order(s: ThreadState, next: ThreadState, tick: Option<u64>)
    requires
        s.sequencer.wf(),
        s.random_mode_step(next, tick),
    ensures
        next.sequencer.wf(),
        next.sequencer == s.sequencer || s.sequencer.before(next.sequencer),
{
    if s.detector.due(tick) {
        let t = choose|t: u64| next.sequencer == s.sequencer.committed(Some(t));
        s.sequencer.lemma_commit_keeps_order(Some(t));
    }
}

/// A counted-mode step keeps the sequencer in range, and moves its
/// (timestamp, sequence) pair strictly forward until both ranges are used up.
pub proof fn lemma_counted_step_keeps_range(s: ThreadState, next: ThreadState, tick: Option<u64>)
    requires
        s.sequencer.wf(),
        s.counted_mode_step(next, tick),
    ensures
        next.sequencer.wf(),
        !s.sequencer.exhausted() ==> s.sequencer.before(next.sequencer),
        next.sequencer.last_ms != s.sequencer.last_ms ==> next.sequencer.counter == 0,
{
    let reading = if s.detector.due(tick) {
        Some(choose|t: u64| next.sequencer == s.sequencer.advanced(Some(t)))
    } else {
        None
    };
    assert(next.sequencer == s.sequencer.advanced(reading));
    if !s.sequencer.exhausted() {
        s.sequencer.lemma_advance_increases(reading);
    }
}

/// Counted-mode identifiers follow the order of the contexts' (timestamp,
/// sequence) pairs: an identifier generated from a context whose pair is
/// later is the larger, whatever calls of either mode came in between.
pub proof fn lemma_counted_ids_follow_pairs(
    earlier: ThreadState,
    later: ThreadState,
    a: u128,
    b: u128,
)
    requires
        earlier.sequencer.wf(),
        later.sequencer.wf(),
        earlier.sequencer.before(later.sequencer),
        is_counted_id_of(a, earlier),
        is_counted_id_of(b, later),
    ensures
        a < b,
{
    let ra = choose|r: u64|
        a == counted_id(earlier.sequencer.last_ms, earlier.sequencer.counter, r);
    let rb = choose|r: u64| b == counted_id(later.sequencer.last_ms, later.sequencer.counter, r);
    lemma_counted_id_order(
        earlier.sequencer.last_ms,
        earlier.sequencer.counter,
        ra,
        later.sequencer.last_ms,
        later.sequencer.counter,
        rb,
    );
}

/// Of two counted-mode identifiers generated one after the other from one
/// context, the second is the larger.
pub proof fn lemma_consecutive_counted_ids_increase(
    first: ThreadState,
    second: ThreadState,
    tick: Option<u64>,
    a: u128,
    b: u128,
)
    requires
        first.sequencer.wf(),
        !first.sequencer.exhausted(),
        first.counted_mode_step(second, tick),
        is_counted_id_of(a, first),
        is_counted_id_of(b, second),
    ensures
        a < b,
{
    lemma_counted_step_keeps_range(first, second, tick);
    lemma_counted_ids_follow_pairs(first, second, a, b);
}

/// Where two counted-mode identifiers generated one after the other carry
/// different timestamps, the second carries sequence value 0.
pub proof fn lemma_counter_reset(
    first: ThreadState,
    second: ThreadState,
    tick: Option<u64>,
    a: u128,
    b: u128,
)
    requires
        first.sequencer.wf(),
        first.counted_mode_step(second, tick),
        is_counted_id_of(a, first),
        is_counted_id_of(b, second),
    ensures
        timestamp_of(a) != timestamp_of(b) ==> sequence_of(b) == 0,
{
    let ra = choose|r: u64| a == counted_id(first.sequencer.last_ms, first.sequencer.counter, r);
    let rb = choose|r: u64| b == counted_id(second.sequencer.last_ms, second.sequencer.counter, r);
    lemma_counted_step_keeps_range(first, second, tick);
    lemma_counted_fields(first.sequencer.last_ms, first.sequencer.counter, ra);
    lemma_counted_fields(second.sequencer.last_ms, second.sequencer.counter, rb);
}

} // verus!
