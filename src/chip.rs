//! The clock sources of the SAM4L on the imix board.
use vstd::prelude::*;
use crate::hil::{ClockConfigs, IntermediateList, lemma_full_range, range_mask};
use crate::mask::{all_clocks, is_source, lemma_shift_is_source};

verus! {

pub const RCSYS: u32 = 0x001;
pub const RC1M: u32 = 0x002;
pub const RCFAST4M: u32 = 0x004;
pub const RCFAST8M: u32 = 0x008;
pub const RCFAST12M: u32 = 0x010;
pub const EXTOSC: u32 = 0x020;
pub const RC80M: u32 = 0x040;
pub const PLL: u32 = 0x080;
pub const DFLL: u32 = 0x100;
pub const ALL_CLOCKS: u32 = 0x1ff;

/// Frequency of the internal RC oscillator's three settings.
#[derive(Clone, Copy, Debug, PartialEq, Eq, Structural)]
pub enum RcfastFrequency {
    Frequency4MHz,
    Frequency8MHz,
    Frequency12MHz,
}

/// Frequency of the external crystal.
#[derive(Clone, Copy, Debug, PartialEq, Eq, Structural)]
pub enum OscillatorFrequency {
    Frequency16MHz,
}

/// Start-up time of the external crystal.
#[derive(Clone, Copy, Debug, PartialEq, Eq, Structural)]
pub enum OscillatorStartup {
    FastStart,
    SlowStart,
}

/// The configurations that the power manager can run the system clock from.
#[allow(inconsistent_fields)]
#[derive(Clone, Copy, Debug, PartialEq, Eq, Structural)]
pub enum SystemClockSource {
    RcsysAt115kHz,
    DfllRc32kAt48MHz,
    ExternalOscillator { frequency: OscillatorFrequency, startup_mode: OscillatorStartup },
    PllExternalOscillatorAt48MHz {
        frequency: OscillatorFrequency,
        startup_mode: OscillatorStartup,
    },
    RC80M,
    RCFAST { frequency: RcfastFrequency },
    RC1M,
}

impl SystemClockSource {
    /// Frequency in Hz at which the system clock runs from this source.
    pub open spec fn spec_frequency(self) -> u32 {
        match self {
            SystemClockSource::RcsysAt115kHz => 115200,
            SystemClockSource::DfllRc32kAt48MHz => 48_000_000,
            SystemClockSource::ExternalOscillator { .. } => 16_000_000,
            SystemClockSource::PllExternalOscillatorAt48MHz { .. } => 48_000_000,
            SystemClockSource::RC80M => 40_000_000,
            SystemClockSource::RCFAST { frequency } => match frequency {
                RcfastFrequency::Frequency4MHz => 4_300_000,
                RcfastFrequency::Frequency8MHz => 8_200_000,
                RcfastFrequency::Frequency12MHz => 12_000_000,
            },
            SystemClockSource::RC1M => 1_000_000,
        }
    }

    pub fn get_clock_frequency(&self) -> (r: u32)
        ensures
            r == self.spec_frequency(),
    {
        match self {
            SystemClockSource::RcsysAt115kHz => 115200,
            SystemClockSource::DfllRc32kAt48MHz => 48_000_000,
            SystemClockSource::ExternalOscillator { .. } => 16_000_000,
            SystemClockSource::PllExternalOscillatorAt48MHz { .. } => 48_000_000,
            SystemClockSource::RC80M => 40_000_000,
            SystemClockSource::RCFAST { frequency } => match frequency {
                RcfastFrequency::Frequency4MHz => 4_300_000,
                RcfastFrequency::Frequency8MHz => 8_200_000,
                RcfastFrequency::Frequency12MHz => 12_000_000,
            },
            SystemClockSource::RC1M => 1_000_000,
        }
    }
}

/// The configuration behind each one-bit clock mask; every mask that names
/// no other source stands for the PLL.
pub open spec fn spec_convert_to_clock(clock: u32) -> SystemClockSource {
    if clock == RCSYS {
        SystemClockSource::RcsysAt115kHz
    } else if clock == RC1M {
        SystemClockSource::RC1M
    } else if clock == RCFAST4M {
        SystemClockSource::RCFAST { frequency: RcfastFrequency::Frequency4MHz }
    } else if clock == RCFAST8M {
        SystemClockSource::RCFAST { frequency: RcfastFrequency::Frequency8MHz }
    } else if clock == RCFAST12M {
        SystemClockSource::RCFAST { frequency: RcfastFrequency::Frequency12MHz }
    } else if clock == EXTOSC {
        SystemClockSource::ExternalOscillator {
            frequency: OscillatorFrequency::Frequency16MHz,
            startup_mode: OscillatorStartup::FastStart,
        }
    } else if clock == RC80M {
        SystemClockSource::RC80M
    } else if clock == DFLL {
        SystemClockSource::DfllRc32kAt48MHz
    } else {
        SystemClockSource::PllExternalOscillatorAt48MHz {
            frequency: OscillatorFrequency::Frequency16MHz,
            startup_mode: OscillatorStartup::FastStart,
        }
    }
}

pub open spec fn imix_frequency(clock: u32) -> u32 {
    spec_convert_to_clock(clock).spec_frequency()
}

/// The clock sources of the imix board, roughly from least to most power.
pub struct ImixClockManager {}

impl ImixClockManager {
    pub fn new() -> (r: ImixClockManager) {
        ImixClockManager {  }
    }

    pub fn convert_to_clock(&self, clock: u32) -> (r: SystemClockSource)
        ensures
            r == spec_convert_to_clock(clock),
    {
        match clock {
            RCSYS => SystemClockSource::RcsysAt115kHz,
            RC1M => SystemClockSource::RC1M,
            RCFAST4M => SystemClockSource::RCFAST { frequency: RcfastFrequency::Frequency4MHz },
            RCFAST8M => SystemClockSource::RCFAST { frequency: RcfastFrequency::Frequency8MHz },
            RCFAST12M => SystemClockSource::RCFAST { frequency: RcfastFrequency::Frequency12MHz },
            EXTOSC => SystemClockSource::ExternalOscillator {
                frequency: OscillatorFrequency::Frequency16MHz,
                startup_mode: OscillatorStartup::FastStart,
            },
            RC80M => SystemClockSource::RC80M,
            DFLL => SystemClockSource::DfllRc32kAt48MHz,
            _ => SystemClockSource::PllExternalOscillatorAt48MHz {
                frequency: OscillatorFrequency::Frequency16MHz,
                startup_mode: OscillatorStartup::FastStart,
            },
        }
    }
}

impl ClockConfigs for ImixClockManager {
    open spec fn spec_num_sources(&self) -> u32 {
        9
    }

    open spec fn spec_clock_frequency(&self, clock: u32) -> u32 {
        imix_frequency(clock)
    }

    open spec fn spec_max_freq(&self) -> u32 {
        48_000_000
    }

    open spec fn spec_default(&self) -> u32 {
        EXTOSC
    }

    open spec fn spec_compute(&self) -> u32 {
        PLL
    }

    open spec fn spec_noncompute(&self) -> u32 {
        RCSYS
    }

    open spec fn spec_intermediates(&self, clock: u32) -> IntermediateList {
        let rcfast = RCFAST4M | RCFAST8M | RCFAST12M;
        if clock == RCFAST4M || clock == RCFAST8M || clock == RCFAST12M {
            IntermediateList { intermediates: ALL_CLOCKS & !rcfast, ends: rcfast & !clock }
        } else {
            IntermediateList { intermediates: 0, ends: 0 }
        }
    }

    open spec fn spec_clockmask(&self, min_freq: u32, max_freq: u32) -> u32 {
        range_mask(|c: u32| imix_frequency(c), min_freq, max_freq, 9)
    }

    proof fn lemma_consistent(&self) {
        lemma_shift_is_source(7, 9);
        lemma_shift_is_source(0, 9);
        lemma_shift_is_source(5, 9);
        assert(1u32 << 7u32 == PLL && 1u32 << 0u32 == RCSYS && 1u32 << 5u32 == EXTOSC) by (bit_vector);
        assert(all_clocks(9) == ALL_CLOCKS) by (bit_vector);
        let f = |c: u32| self.spec_clock_frequency(c);
        assert(f =~= |c: u32| imix_frequency(c));
        assert forall|c: u32| #[trigger] f(c) <= 48_000_000 by {
            assert(imix_frequency(c) <= 48_000_000);
        }
        lemma_full_range(f, 48_000_000, 9);
    }

    fn get_num_clock_sources(&self) -> (r: u32) {
        9
    }

    fn get_max_freq(&self) -> (r: u32) {
        48_000_000
    }

    fn get_all_clocks(&self) -> (r: u32) {
        assert(all_clocks(9) == ALL_CLOCKS) by (bit_vector);
        ALL_CLOCKS
    }

    fn get_default(&self) -> (r: u32) {
        EXTOSC
    }

    fn get_compute(&self) -> (r: u32) {
        PLL
    }

    fn get_noncompute(&self) -> (r: u32) {
        RCSYS
    }

    /// Used to calculate the acceptable clocks from a frequency range.
    fn get_clockmask(&self, min_freq: u32, max_freq: u32) -> (r: u32) {
        let mut clockmask: u32 = 0;
        let mut i: u32 = 0;
        while i < 9
            invariant
                i <= 9,
                clockmask == range_mask(|c: u32| imix_frequency(c), min_freq, max_freq, i),
            decreases 9 - i,
        {
            let f = self.convert_to_clock(1u32 << i).get_clock_frequency();
            if min_freq <= f && f <= max_freq {
                clockmask = clockmask | (1u32 << i);
            } else {
                clockmask = clockmask | 0u32;
            }
            i = i + 1;
        }
        clockmask
    }

    fn get_clock_frequency(&self, clock: u32) -> (r: u32) {
        self.convert_to_clock(clock).get_clock_frequency()
    }

    fn get_intermediates_list(&self, clock: u32) -> (r: IntermediateList) {
        let rcfast = RCFAST4M | RCFAST8M | RCFAST12M;
        match clock {
            RCFAST4M | RCFAST8M | RCFAST12M => IntermediateList::new(
                ALL_CLOCKS & !rcfast,
                rcfast & !clock,
            ),
            _ => IntermediateList::new(0, 0),
        }
    }
}

} // verus!
