//! The timing table: tick-duration ranges used to classify received pulses
//! and the nominal tick durations used when pulses are synthesized.

use vstd::prelude::*;

verus! {

/// An inclusive range of tick durations.
#[derive(Clone, Copy, Debug, PartialEq, Eq, Structural)]
pub struct TickRange {
    pub lo: u16,
    pub hi: u16,
}

impl TickRange {
    /// Whether `t` lies inside this inclusive range.
    pub open spec fn spec_contains(self, t: u16) -> bool {
        self.lo <= t && t <= self.hi
    }
}

/// Tells whether `num` lies in the inclusive range `[min, max]`.
pub fn in_range(num: u16, min: u16, max: u16) -> (r: bool)
    ensures
        r == (min <= num && num <= max),
{
    if num >= min && num <= max {
        return true;
    }
    false
}

/// The timing table for one protocol calibration.
///
/// The `*_range` fields are the inclusive windows the classifier accepts for
/// each construct; the `tx_*` fields are the nominal durations the frame
/// builder emits.  Keeping both in one value lets a single table be swapped
/// in for a hardware revision with different empirical thresholds.
#[derive(Clone, Copy, Debug, PartialEq, Eq, Structural)]
pub struct TimingConfig {
    /// Mark-duration window of the header (sync) pair.
    pub header_mark: TickRange,
    /// Space-duration window of the header (sync) pair.
    pub header_space: TickRange,
    /// Space-duration window of a logical 0.
    pub bit0_space: TickRange,
    /// Space-duration window of a logical 1 (may overlap the 0 window;
    /// classification is first-match, so the 0 window wins on the overlap).
    pub bit1_space: TickRange,
    /// Space-duration window of the stop marker.
    pub stop_space: TickRange,
    /// Nominal mark ticks of an emitted header pair.
    pub tx_header_mark: u16,
    /// Nominal space ticks of an emitted header pair.
    pub tx_header_space: u16,
    /// Nominal mark ticks of an emitted bit or stop pair.
    pub tx_bit_mark: u16,
    /// Nominal space ticks of an emitted logical 0.
    pub tx_bit0_space: u16,
    /// Nominal space ticks of an emitted logical 1.
    pub tx_bit1_space: u16,
    /// Nominal space ticks of an emitted stop marker.
    pub tx_stop_space: u16,
}

impl TimingConfig {
    /// A calibration is well formed when every duration the builder emits is
    /// read back by the classifier as the construct it was emitted as: the
    /// nominal durations land in their own windows, a data or stop mark
    /// never looks like a header mark, an emitted 1 or stop space never
    /// falls in an earlier-matching bit window.
    pub open spec fn wf(self) -> bool {
        &&& self.header_mark.spec_contains(self.tx_header_mark)
        &&& self.header_space.spec_contains(self.tx_header_space)
        &&& self.bit0_space.spec_contains(self.tx_bit0_space)
        &&& self.bit1_space.spec_contains(self.tx_bit1_space)
        &&& self.stop_space.spec_contains(self.tx_stop_space)
        &&& !self.header_mark.spec_contains(self.tx_bit_mark)
        &&& !self.bit0_space.spec_contains(self.tx_bit1_space)
        &&& !self.bit0_space.spec_contains(self.tx_stop_space)
        &&& !self.bit1_space.spec_contains(self.tx_stop_space)
    }
}

/// The calibration observed on the reference remote: header around 4400
/// ticks on both durations, a 0 space up to 700 ticks, a 1 space up to 1850
/// ticks, a stop space around 5220 ticks, bit marks emitted at 520 ticks.
pub open spec fn spec_standard_config() -> TimingConfig {
    TimingConfig {
        header_mark: TickRange { lo: 4200, hi: 4600 },
        header_space: TickRange { lo: 4200, hi: 4600 },
        bit0_space: TickRange { lo: 350, hi: 700 },
        bit1_space: TickRange { lo: 350, hi: 1850 },
        stop_space: TickRange { lo: 5000, hi: 5400 },
        tx_header_mark: 4400,
        tx_header_space: 4400,
        tx_bit_mark: 520,
        tx_bit0_space: 540,
        tx_bit1_space: 1600,
        tx_stop_space: 5220,
    }
}

/// Builds the standard calibration table.
pub fn standard_config() -> (c: TimingConfig)
    ensures
        c == spec_standard_config(),
        c.wf(),
{
    TimingConfig {
        header_mark: TickRange { lo: 4200, hi: 4600 },
        header_space: TickRange { lo: 4200, hi: 4600 },
        bit0_space: TickRange { lo: 350, hi: 700 },
        bit1_space: TickRange { lo: 350, hi: 1850 },
        stop_space: TickRange { lo: 5000, hi: 5400 },
        tx_header_mark: 4400,
        tx_header_space: 4400,
        tx_bit_mark: 520,
        tx_bit0_space: 540,
        tx_bit1_space: 1600,
        tx_stop_space: 5220,
    }
}

} // verus!
