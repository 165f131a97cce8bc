//! Fixed-point samples and the guarded percentage.

use vstd::prelude::*;

verus! {

/// Number of stored steps that make one whole unit of a [`Sample`].
pub const MICROS_PER_UNIT: i64 = 1_000_000;

/// Stored steps in a full percentage of one hundred.
pub const HUNDRED_PERCENT_MICROS: u64 = 100_000_000;

/// One plotted value: a percentage, a rate in megabits per second or a size in
/// gibibytes, held as a signed count of millionths of its unit.
#[derive(Clone, Copy, Debug, PartialEq, Eq, Structural)]
pub struct Sample {
    pub micros: i64,
}

/// `value` limited to what an `i64` holds.
pub open spec fn saturate_i64(value: int) -> int {
    if value > i64::MAX {
        i64::MAX as int
    } else if value < i64::MIN {
        i64::MIN as int
    } else {
        value
    }
}

/// `value` limited to what a `u64` holds.
pub open spec fn saturate_u64(value: int) -> int {
    if value > u64::MAX {
        u64::MAX as int
    } else if value < 0 {
        0
    } else {
        value
    }
}

/// The share of `part` in `whole` as millionths of a percent, rounded down;
/// zero where `whole` is zero; limited to the largest sample.
pub open spec fn spec_percentage(part: u64, whole: u64) -> int {
    if whole == 0 {
        0
    } else {
        saturate_i64((part as int * HUNDRED_PERCENT_MICROS as int) / (whole as int))
    }
}

impl Sample {
    /// The sample of value zero.
    pub fn zero() -> (s: Sample)
        ensures
            s.micros == 0,
    {
        Sample { micros: 0 }
    }

    /// The sample that holds `micros` millionths of a unit.
    pub fn from_micros(micros: i64) -> (s: Sample)
        ensures
            s.micros == micros,
    {
        Sample { micros }
    }

    /// The sample that holds `units` whole units.
    pub fn from_units(units: u32) -> (s: Sample)
        ensures
            s.micros == units as int * MICROS_PER_UNIT as int,
    {
        let wide: i64 = units as i64;
        Sample { micros: wide * MICROS_PER_UNIT }
    }

    /// The stored count of millionths.
    pub fn micros(&self) -> (m: i64)
        ensures
            m == self.micros,
    {
        self.micros
    }
}

/// `part / whole * 100` as a sample. A `whole` of zero is an ordinary boundary
/// and gives zero percent.
pub fn percentage(part: u64, whole: u64) -> (p: Sample)
    ensures
        p.micros == spec_percentage(part, whole),
        whole == 0 ==> p.micros == 0,
        whole != 0 && part <= whole ==> 0 <= p.micros <= HUNDRED_PERCENT_MICROS,
{
    if whole == 0 {
        return Sample { micros: 0 };
    }
    assert(part as int * HUNDRED_PERCENT_MICROS as int <= u64::MAX as int * 100_000_000)
        by (nonlinear_arith)
        requires
            part as int <= u64::MAX as int,
            HUNDRED_PERCENT_MICROS as int == 100_000_000,
    ;
    let scaled: u128 = (part as u128) * (HUNDRED_PERCENT_MICROS as u128);
    let quotient: u128 = scaled / (whole as u128);
    proof {
        lemma_share_bounded(part as int, whole as int, HUNDRED_PERCENT_MICROS as int);
    }
    if quotient > i64::MAX as u128 {
        Sample { micros: i64::MAX }
    } else {
        Sample { micros: quotient as i64 }
    }
}

/// A share of a whole, scaled, does not exceed the scale.
pub proof fn lemma_share_bounded(part: int, whole: int, scale: int)
    requires
        0 <= part,
        0 < whole,
        0 <= scale,
    ensures
        0 <= (part * scale) / whole,
        part <= whole ==> (part * scale) / whole <= scale,
{
    assert(0 <= part * scale) by (nonlinear_arith)
        requires
            0 <= part,
            0 <= scale,
    ;
    assert(0 <= (part * scale) / whole) by (nonlinear_arith)
        requires
            0 <= part * scale,
            0 < whole,
    ;
    if part <= whole {
        assert(part * scale <= whole * scale) by (nonlinear_arith)
            requires
                part <= whole,
                0 <= scale,
        ;
        assert((part * scale) / whole <= scale) by (nonlinear_arith)
            requires
                part * scale <= whole * scale,
                0 < whole,
        ;
    }
}

} // verus!
