//! The per-thread generation context: the staleness detector that decides
//! when the wall clock must be read again, the sequencer of (timestamp,
//! sequence) pairs, and the random source.
use crate::layout::{MAX_SEQUENCE, MAX_TIMESTAMP};
use vstd::arithmetic::div_mod::{
    lemma_div_is_ordered, lemma_fundamental_div_mod, lemma_fundamental_div_mod_converse,
};
use rand::rngs::SmallRng;
use rand::{RngCore, SeedableRng};
use std::time::Duration;
use vstd::prelude::*;

verus! {

/// Every this many calls the detector asks for a clock read, whatever the
/// tick counter says.
pub const CHECK_PERIOD: u32 = 32;

/// Tick frequency assumed where none could be measured: 2 GHz.
pub const DEFAULT_TICK_HZ: u64 = 2_000_000_000;

/// Ticks per tenth of a millisecond at a given frequency.
pub const TICK_DIVISOR: u64 = 10_000;

#[verifier::external_type_specification]
#[verifier::external_body]
pub struct ExSmallRng(SmallRng);

/// Relies on SeedableRng::from_os_rng for SmallRng: a generator seeded from
/// the operating system's entropy source.
#[verifier::external_body]
fn seeded_rng() -> SmallRng {
    SmallRng::from_os_rng()
}

/// Relies on RngCore::next_u32 for SmallRng: the next 32 random bits.
#[verifier::external_body]
pub(crate) fn draw_u32(rng: &mut SmallRng) -> u32 {
    rng.next_u32()
}

/// Relies on RngCore::next_u64 for SmallRng: the next 64 random bits.
#[verifier::external_body]
pub(crate) fn draw_u64(rng: &mut SmallRng) -> u64 {
    rng.next_u64()
}

/// Relies on SystemTime::elapsed, taken from the Unix epoch: the time since
/// then, or none where the clock reads a time before it.
#[verifier::external_body]
fn elapsed_since_epoch() -> Option<Duration> {
    match std::time::SystemTime::UNIX_EPOCH.elapsed() {
        Ok(d) => Some(d),
        Err(_) => None,
    }
}

/// Relies on Duration::as_millis: the whole milliseconds of a duration.
#[verifier::external_body]
fn whole_millis(d: &Duration) -> u128 {
    d.as_millis()
}

/// The wall-clock timestamp for a reading of whole milliseconds since the
/// Unix epoch: the reading truncated to 64 bits, or 0 where there is none.
pub open spec fn millis_value(elapsed_ms: Option<u128>) -> u64 {
    match elapsed_ms {
        Some(m) => m as u64,
        None => 0,
    }
}

/// Turns whole milliseconds since the Unix epoch (none where the clock reads a
/// time before the epoch) into a timestamp: truncated to 64 bits, or 0.
pub fn millis_or_zero(elapsed_ms: Option<u128>) -> (ms: u64)
    ensures
        ms == millis_value(elapsed_ms),
{
    match elapsed_ms {
        Some(m) => m as u64,
        None => 0,
    }
}

/// Milliseconds since the Unix epoch, truncated to 64 bits; 0 where the clock
/// reads a time before the epoch.
fn system_time_ms() -> u64 {
    let elapsed_ms = match elapsed_since_epoch() {
        Some(d) => Some(whole_millis(&d)),
        None => None,
    };
    millis_or_zero(elapsed_ms)
}

/// Ticks that make a tenth of a millisecond at `frequency_hz`, or at
/// `DEFAULT_TICK_HZ` where no frequency (or zero) is given.
pub open spec fn threshold_for(frequency_hz: Option<u64>) -> u64 {
    match frequency_hz {
        Some(hz) if hz > 0 => hz / TICK_DIVISOR,
        _ => DEFAULT_TICK_HZ / TICK_DIVISOR,
    }
}

/// Computes the staleness threshold from a measured tick frequency.
pub fn tick_threshold(frequency_hz: Option<u64>) -> (t: u64)
    ensures
        t == threshold_for(frequency_hz),
{
    match frequency_hz {
        Some(hz) if hz > 0 => hz / TICK_DIVISOR,
        _ => DEFAULT_TICK_HZ / TICK_DIVISOR,
    }
}

/// Decides whether the cached wall-clock timestamp may be out of date.
///
/// The clock is read again when no tick counter is available, on every
/// `CHECK_PERIOD`-th call, and when more than `tick_threshold` ticks (about
/// 0.1 ms) went by since the previous call. So the cache is never older than
/// `CHECK_PERIOD - 1` calls, each within `tick_threshold` ticks of the last.
pub struct StalenessDetector {
    pub last_tick: u64,
    pub tick_threshold: u64,
    pub calls: u32,
}

impl StalenessDetector {
    /// Whether a call with this tick reading must read the wall clock.
    pub open spec fn due(self, tick: Option<u64>) -> bool {
        match tick {
            None => true,
            Some(t) => self.calls % CHECK_PERIOD == 0 || t.wrapping_sub(self.last_tick)
                > self.tick_threshold,
        }
    }

    /// The detector after a call with this tick reading.
    pub open spec fn after(self, tick: Option<u64>) -> StalenessDetector {
        StalenessDetector {
            last_tick: match tick {
                Some(t) => t,
                None => self.last_tick,
            },
            tick_threshold: self.tick_threshold,
            calls: (self.calls % CHECK_PERIOD + 1) as u32,
        }
    }

    /// Records the current tick reading (none where the platform has no cheap
    /// tick counter) and says whether the wall clock must be read.
    pub fn should_check_time(&mut self, tick: Option<u64>) -> (check: bool)
        ensures
            check == old(self).due(tick),
            *final(self) == old(self).after(tick),
    {
        let periodic = self.calls % CHECK_PERIOD == 0;
        self.calls = self.calls % CHECK_PERIOD + 1;
        match tick {
            None => true,
            Some(t) => {
                let elapsed = t.wrapping_sub(self.last_tick);
                self.last_tick = t;
                periodic || elapsed > self.tick_threshold
            },
        }
    }
}

/// A wall-clock reading brought into the 48-bit timestamp range.
pub open spec fn clamp_reading(t: u64) -> u64 {
    if t > MAX_TIMESTAMP {
        MAX_TIMESTAMP
    } else {
        t
    }
}

/// The highest committed timestamp and the sequence counter within it.
pub struct Sequencer {
    pub last_ms: u64,
    pub counter: u32,
}

impl Sequencer {
    /// Timestamp and counter lie in their fields' ranges.
    pub open spec fn wf(self) -> bool {
        self.last_ms <= MAX_TIMESTAMP && self.counter <= MAX_SEQUENCE
    }

    /// The last pair that 48 bits of timestamp and 18 of counter can hold.
    pub open spec fn exhausted(self) -> bool {
        self.last_ms == MAX_TIMESTAMP && self.counter >= MAX_SEQUENCE
    }

    /// The pair `(last_ms, counter)` comes before that of `other`.
    pub open spec fn before(self, other: Sequencer) -> bool {
        self.last_ms < other.last_ms || (self.last_ms == other.last_ms && self.counter
            < other.counter)
    }

    /// The sequencer after random mode saw a clock reading (none where the
    /// clock was not read): a later reading is committed and resets the
    /// counter.
    pub open spec fn committed(self, reading: Option<u64>) -> Sequencer {
        match reading {
            Some(t) if clamp_reading(t) > self.last_ms => Sequencer {
                last_ms: clamp_reading(t),
                counter: 0,
            },
            _ => self,
        }
    }

    /// The sequencer after counted mode saw a clock reading (none where the
    /// clock was not read). A later reading is committed with counter 0;
    /// otherwise the counter goes up by one, and once it has reached
    /// `MAX_SEQUENCE` the timestamp goes up by one millisecond instead, with
    /// counter 0. At the end of both ranges nothing changes.
    pub open spec fn advanced(self, reading: Option<u64>) -> Sequencer {
        match reading {
            Some(t) if clamp_reading(t) > self.last_ms => Sequencer {
                last_ms: clamp_reading(t),
                counter: 0,
            },
            _ => if self.counter >= MAX_SEQUENCE {
                if self.last_ms < MAX_TIMESTAMP {
                    Sequencer { last_ms: (self.last_ms + 1) as u64, counter: 0 }
                } else {
                    self
                }
            } else {
                Sequencer { last_ms: self.last_ms, counter: (self.counter + 1) as u32 }
            },
        }
    }

    /// Counted mode stays in range, and each step gives a strictly later
    /// (timestamp, sequence) pair until both ranges are used up; a step that
    /// changes the timestamp starts the counter again at 0.
    pub proof fn lemma_advance_increases(self, reading: Option<u64>)
        requires
            self.wf(),
            !self.exhausted(),
        ensures
            self.advanced(reading).wf(),
            self.before(self.advanced(reading)),
            self.advanced(reading).last_ms != self.last_ms ==> self.advanced(reading).counter == 0,
    {
    }

    /// Once the counter is used up and the clock gives no later millisecond,
    /// the timestamp moves one millisecond ahead and the counter starts again
    /// at 0.
    pub proof fn lemma_overflow_advances(self, reading: Option<u64>)
        requires
            self.wf(),
            self.counter == MAX_SEQUENCE,
            self.last_ms < MAX_TIMESTAMP,
            match reading {
                Some(t) => clamp_reading(t) <= self.last_ms,
                None => true,
            },
        ensures
            self.advanced(reading) == (Sequencer { last_ms: (self.last_ms + 1) as u64, counter: 0 }),
    {
    }

    /// Random mode stays in range and never moves the timestamp back.
    pub proof fn lemma_commit_keeps_order(self, reading: Option<u64>)
        requires
            self.wf(),
        ensures
            self.committed(reading).wf(),
            self.committed(reading).last_ms >= self.last_ms,
            self.committed(reading) == self || self.before(self.committed(reading)),
    {
    }

    /// The sequencer after `n` counted-mode steps on which the clock gave no
    /// later millisecond.
    pub open spec fn advanced_times(self, n: nat) -> Sequencer
        decreases n,
    {
        if n == 0 {
            self
        } else {
            self.advanced_times((n - 1) as nat).advanced(None)
        }
    }

    /// A burst of `n` counted-mode steps within one wall-clock millisecond
    /// counts on through the sequence range and carries into the timestamp,
    /// which runs ahead of the clock by one millisecond per full range.
    pub proof fn lemma_burst(self, n: nat)
        requires
            self.wf(),
            self.last_ms + (self.counter + n) / (MAX_SEQUENCE + 1) <= MAX_TIMESTAMP,
        ensures
            self.advanced_times(n).wf(),
            self.advanced_times(n).last_ms == self.last_ms + (self.counter + n) / (MAX_SEQUENCE
                + 1),
            self.advanced_times(n).counter == (self.counter + n) % (MAX_SEQUENCE + 1),
        decreases n,
    {
        let m: int = MAX_SEQUENCE + 1;
        if n == 0 {
            lemma_fundamental_div_mod_converse(self.counter as int, m, 0, self.counter as int);
        } else {
            let x: int = self.counter + n - 1;
            lemma_fundamental_div_mod(x, m);
            lemma_div_is_ordered(x, x + 1, m);
            self.lemma_burst((n - 1) as nat);
            let (q, r) = (x / m, x % m);
            assert(0 <= r < m);
            if r == m - 1 {
                assert(x + 1 == (q + 1) * m + 0) by (nonlinear_arith)
                    requires
                        x == m * q + r,
                        r == m - 1,
                ;
                lemma_fundamental_div_mod_converse(x + 1, m, x / m + 1, 0);
            } else {
                assert(x + 1 == q * m + (r + 1)) by (nonlinear_arith)
                    requires
                        x == m * q + r,
                ;
                lemma_fundamental_div_mod_converse(x + 1, m, x / m, x % m + 1);
            }
        }
    }

    /// A reading no later than the committed timestamp counts as no reading.
    pub proof fn lemma_stale_reading(self, t: u64)
        requires
            clamp_reading(t) <= self.last_ms,
        ensures
            self.advanced(Some(t)) == self.advanced(None),
            self.committed(Some(t)) == self,
    {
    }

    /// Random mode: commits a later clock reading and returns the timestamp.
    pub fn commit_time(&mut self, reading: Option<u64>) -> (ts: u64)
        ensures
            *final(self) == old(self).committed(reading),
            ts == final(self).last_ms,
    {
        if let Some(t) = reading {
            let now = if t > MAX_TIMESTAMP {
                MAX_TIMESTAMP
            } else {
                t
            };
            if now > self.last_ms {
                self.last_ms = now;
                self.counter = 0;
            }
        }
        self.last_ms
    }

    /// Counted mode: steps to the next (timestamp, sequence) pair and
    /// returns it.
    pub fn next_pair(&mut self, reading: Option<u64>) -> (pair: (u64, u32))
        ensures
            *final(self) == old(self).advanced(reading),
            pair == (final(self).last_ms, final(self).counter),
    {
        let now = match reading {
            Some(t) => if t > MAX_TIMESTAMP {
                MAX_TIMESTAMP
            } else {
                t
            },
            None => self.last_ms,
        };
        if now > self.last_ms {
            self.last_ms = now;
            self.counter = 0;
        } else if self.counter >= MAX_SEQUENCE {
            if self.last_ms < MAX_TIMESTAMP {
                self.last_ms = self.last_ms + 1;
                self.counter = 0;
            }
        } else {
            self.counter = self.counter + 1;
        }
        (self.last_ms, self.counter)
    }
}

/// Everything one thread needs to generate identifiers.
pub struct ThreadState {
    pub rng: SmallRng,
    pub detector: StalenessDetector,
    pub sequencer: Sequencer,
}

impl ThreadState {
    /// A fresh context: random source seeded from the operating system,
    /// threshold from the measured tick frequency, timestamp and counter 0.
    ///
    /// Panics where the operating system's entropy source fails: a working
    /// entropy source is a precondition of deployment.
    pub fn new(frequency_hz: Option<u64>) -> (s: Self)
        ensures
            s.detector == (StalenessDetector {
                last_tick: 0,
                tick_threshold: threshold_for(frequency_hz),
                calls: 0,
            }),
            s.sequencer == (Sequencer { last_ms: 0, counter: 0 }),
            s.sequencer.wf(),
    {
        ThreadState {
            rng: seeded_rng(),
            detector: StalenessDetector {
                last_tick: 0,
                tick_threshold: tick_threshold(frequency_hz),
                calls: 0,
            },
            sequencer: Sequencer { last_ms: 0, counter: 0 },
        }
    }

    /// `next` is this context after one random-mode clock step with this
    /// tick reading: the detector moves on, and the sequencer commits the
    /// wall clock's reading where the detector asked for one.
    pub open spec fn random_mode_step(self, next: ThreadState, tick: Option<u64>) -> bool {
        &&& next.detector == self.detector.after(tick)
        &&& if self.detector.due(tick) {
            exists|t: u64| next.sequencer == self.sequencer.committed(Some(t))
        } else {
            next.sequencer == self.sequencer
        }
    }

    /// `next` is this context after one counted-mode clock step with this
    /// tick reading: the detector moves on, and the sequencer advances on the
    /// wall clock's reading where the detector asked for one, else on none.
    pub open spec fn counted_mode_step(self, next: ThreadState, tick: Option<u64>) -> bool {
        &&& next.detector == self.detector.after(tick)
        &&& if self.detector.due(tick) {
            exists|t: u64| next.sequencer == self.sequencer.advanced(Some(t))
        } else {
            next.sequencer == self.sequencer.advanced(None)
        }
    }

    /// The timestamp for random mode: the wall clock is read where the
    /// detector asks for it, and a later reading is committed.
    pub fn get_time(&mut self, tick: Option<u64>) -> (ts: u64)
        ensures
            old(self).random_mode_step(*final(self), tick),
            final(self).rng == old(self).rng,
            ts == final(self).sequencer.last_ms,
    {
        let reading = if self.detector.should_check_time(tick) {
            Some(system_time_ms())
        } else {
            None
        };
        self.sequencer.commit_time(reading)
    }

    /// The (timestamp, sequence) pair for counted mode: the wall clock is
    /// read where the detector asks for it, and the sequencer steps on.
    pub fn get_time_and_counter(&mut self, tick: Option<u64>) -> (pair: (u64, u32))
        ensures
            old(self).counted_mode_step(*final(self), tick),
            final(self).rng == old(self).rng,
            pair == (final(self).sequencer.last_ms, final(self).sequencer.counter),
    {
        let reading = if self.detector.should_check_time(tick) {
            Some(system_time_ms())
        } else {
            None
        };
        self.sequencer.next_pair(reading)
    }
}

} // verus!
