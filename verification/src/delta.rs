//! Per-interval deltas of cumulative counters, and the rate they stand for.
//!
//! Counters are expected to grow from one reading to the next. Where one has
//! gone backwards (an interface was reset, a counter wrapped), its delta is
//! zero: the subtraction saturates and never fails.

use vstd::prelude::*;
use crate::sample::{Sample, saturate_i64, MICROS_PER_UNIT};

verus! {

/// Bits in one byte.
pub const BITS_PER_BYTE: u64 = 8;

/// Bits in one megabit.
pub const BITS_PER_MEGABIT: u64 = 1_000_000;

/// Cumulative bytes received and transmitted, as read at one tick.
#[derive(Clone, Copy, Debug, PartialEq, Eq, Structural)]
pub struct CounterPair {
    pub rx: u64,
    pub tx: u64,
}

/// Growth of one counter from `previous` to `current`; zero where it shrank.
pub open spec fn spec_counter_delta(previous: u64, current: u64) -> u64 {
    if current >= previous {
        (current - previous) as u64
    } else {
        0
    }
}

/// Growth of both counters of a pair, each taken by itself.
pub open spec fn spec_delta(previous: CounterPair, current: CounterPair) -> (u64, u64) {
    (spec_counter_delta(previous.rx, current.rx), spec_counter_delta(previous.tx, current.tx))
}

/// Millionths of a megabit per second that `delta_bytes` bytes in one
/// one-second tick amount to, limited to the largest sample.
pub open spec fn spec_rate_micros(delta_bytes: u64) -> int {
    saturate_i64(
        (delta_bytes as int * BITS_PER_BYTE as int * MICROS_PER_UNIT as int)
            / BITS_PER_MEGABIT as int,
    )
}

/// Bytes received and transmitted between two readings.
pub fn delta(previous: CounterPair, current: CounterPair) -> (d: (u64, u64))
    ensures
        d == spec_delta(previous, current),
{
    let rx: u64 = if current.rx >= previous.rx {
        current.rx - previous.rx
    } else {
        0
    };
    let tx: u64 = if current.tx >= previous.tx {
        current.tx - previous.tx
    } else {
        0
    };
    (rx, tx)
}

/// The rate in megabits per second of `delta_bytes` bytes moved in one tick:
/// eight bits to the byte, a million bits to the megabit.
pub fn megabits_per_second(delta_bytes: u64) -> (rate: Sample)
    ensures
        rate.micros == spec_rate_micros(delta_bytes),
        0 <= rate.micros,
{
    let bits: u128 = (delta_bytes as u128) * 8;
    let scaled: u128 = bits * 1_000_000;
    let micros: u128 = scaled / 1_000_000;
    if micros > i64::MAX as u128 {
        Sample { micros: i64::MAX }
    } else {
        Sample { micros: micros as i64 }
    }
}

/// Remembers the counters of the previous tick.
pub struct DeltaTracker {
    previous: CounterPair,
}

impl DeltaTracker {
    /// The counters of the last reading that was taken in.
    pub closed spec fn spec_previous(&self) -> CounterPair {
        self.previous
    }

    /// A tracker whose first delta will be counted from `baseline`.
    pub fn new(baseline: CounterPair) -> (t: Self)
        ensures
            t.spec_previous() == baseline,
    {
        DeltaTracker { previous: baseline }
    }

    /// The counters of the last reading that was taken in.
    pub fn previous(&self) -> (p: CounterPair)
        ensures
            p == self.spec_previous(),
    {
        self.previous
    }

    /// Takes in the reading of this tick: returns its delta against the
    /// remembered one and remembers `current` in its place.
    pub fn advance(&mut self, current: CounterPair) -> (d: (u64, u64))
        ensures
            d == spec_delta(old(self).spec_previous(), current),
            final(self).spec_previous() == current,
    {
        let d = delta(self.previous, current);
        self.previous = current;
        d
    }
}

/// Where neither counter went backwards, the delta is the exact difference.
pub proof fn lemma_delta_exact(previous: CounterPair, current: CounterPair)
    requires
        previous.rx <= current.rx,
        previous.tx <= current.tx,
    ensures
        previous.rx + spec_delta(previous, current).0 == current.rx,
        previous.tx + spec_delta(previous, current).1 == current.tx,
{
}

/// Over two consecutive intervals of growing counters the deltas add up to
/// the delta of the whole span.
pub proof fn lemma_delta_telescopes(first: CounterPair, second: CounterPair, third: CounterPair)
    requires
        first.rx <= second.rx <= third.rx,
        first.tx <= second.tx <= third.tx,
    ensures
        spec_delta(first, second).0 + spec_delta(second, third).0 == spec_delta(first, third).0,
        spec_delta(first, second).1 + spec_delta(second, third).1 == spec_delta(first, third).1,
{
}

/// A counter that went backwards contributes a delta of zero.
pub proof fn lemma_delta_of_reset(previous: CounterPair, current: CounterPair)
    ensures
        current.rx < previous.rx ==> spec_delta(previous, current).0 == 0,
        current.tx < previous.tx ==> spec_delta(previous, current).1 == 0,
{
}

/// The rate counts eight millionths of a megabit per second for every byte,
/// until it reaches the largest sample.
pub proof fn lemma_rate_is_eight_per_byte(delta_bytes: u64)
    ensures
        spec_rate_micros(delta_bytes) == saturate_i64(delta_bytes as int * 8),
{
    assert((delta_bytes as int * 8 * 1_000_000) / 1_000_000 == delta_bytes as int * 8);
}

} // verus!
