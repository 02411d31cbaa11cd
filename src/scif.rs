//! Values for the system control interface (SCIF) of the SAM4L, which
//! configures its oscillators and generic clocks.
use vstd::prelude::*;
use crate::chip::RcfastFrequency;

verus! {

/// SCIF registers that must be unlocked before a write.
#[derive(Clone, Copy, Debug, PartialEq, Eq, Structural)]
pub enum Register {
    IER,
    IDR,
    IMR,
    ISR,
    ICR,
    PCLKSR,
    UNLOCK,
    CSCR,
    OSCCTRL0,
}

impl Register {
    /// Offset of the register from the SCIF base address.
    pub open spec fn spec_offset(self) -> u32 {
        match self {
            Register::IER => 0x00,
            Register::IDR => 0x04,
            Register::IMR => 0x08,
            Register::ISR => 0x0C,
            Register::ICR => 0x10,
            Register::PCLKSR => 0x14,
            Register::UNLOCK => 0x18,
            Register::CSCR => 0x1C,
            Register::OSCCTRL0 => 0x20,
        }
    }

    pub fn offset(&self) -> (r: u32)
        ensures
            r == self.spec_offset(),
    {
        match self {
            Register::IER => 0x00,
            Register::IDR => 0x04,
            Register::IMR => 0x08,
            Register::ISR => 0x0C,
            Register::ICR => 0x10,
            Register::PCLKSR => 0x14,
            Register::UNLOCK => 0x18,
            Register::CSCR => 0x1C,
            Register::OSCCTRL0 => 0x20,
        }
    }
}

/// Sources that a generic clock can be fed from.
#[allow(non_camel_case_types)]
#[derive(Clone, Copy, Debug, PartialEq, Eq, Structural)]
pub enum ClockSource {
    RCSYS,
    OSC32K,
    DFLL0,
    OSC0,
    RC80M,
    RCFAST,
    RC1M,
    CLK_CPU,
    CLK_HSB,
    CLK_PBA,
    CLK_PBB,
    CLK_PBC,
    CLK_PBD,
    RC32K,
    RESERVED1,
    CLK_1K,
    PLL0,
    HRP,
    FP,
    GCLK_IN0,
    GCLK_IN1,
    GCLK11,
}

impl ClockSource {
    /// The number that selects this source in a generic clock's control
    /// register.
    pub open spec fn spec_id(self) -> u32 {
        match self {
            ClockSource::RCSYS => 0,
            ClockSource::OSC32K => 1,
            ClockSource::DFLL0 => 2,
            ClockSource::OSC0 => 3,
            ClockSource::RC80M => 4,
            ClockSource::RCFAST => 5,
            ClockSource::RC1M => 6,
            ClockSource::CLK_CPU => 7,
            ClockSource::CLK_HSB => 8,
            ClockSource::CLK_PBA => 9,
            ClockSource::CLK_PBB => 10,
            ClockSource::CLK_PBC => 11,
            ClockSource::CLK_PBD => 12,
            ClockSource::RC32K => 13,
            ClockSource::RESERVED1 => 14,
            ClockSource::CLK_1K => 15,
            ClockSource::PLL0 => 16,
            ClockSource::HRP => 17,
            ClockSource::FP => 18,
            ClockSource::GCLK_IN0 => 19,
            ClockSource::GCLK_IN1 => 20,
            ClockSource::GCLK11 => 21,
        }
    }

    pub fn id(&self) -> (r: u32)
        ensures
            r == self.spec_id(),
    {
        match self {
            ClockSource::RCSYS => 0,
            ClockSource::OSC32K => 1,
            ClockSource::DFLL0 => 2,
            ClockSource::OSC0 => 3,
            ClockSource::RC80M => 4,
            ClockSource::RCFAST => 5,
            ClockSource::RC1M => 6,
            ClockSource::CLK_CPU => 7,
            ClockSource::CLK_HSB => 8,
            ClockSource::CLK_PBA => 9,
            ClockSource::CLK_PBB => 10,
            ClockSource::CLK_PBC => 11,
            ClockSource::CLK_PBD => 12,
            ClockSource::RC32K => 13,
            ClockSource::RESERVED1 => 14,
            ClockSource::CLK_1K => 15,
            ClockSource::PLL0 => 16,
            ClockSource::HRP => 17,
            ClockSource::FP => 18,
            ClockSource::GCLK_IN0 => 19,
            ClockSource::GCLK_IN1 => 20,
            ClockSource::GCLK11 => 21,
        }
    }
}

/// The generic clocks.
#[derive(Clone, Copy, Debug, PartialEq, Eq, Structural)]
pub enum GenericClock {
    GCLK0,
    GCLK1,
    GCLK2,
    GCLK3,
    GCLK4,
    GCLK5,
    GCLK6,
    GCLK7,
    GCLK8,
    GCLK9,
    GCLK10,
    GCLK11,
}

/// Clocks that can drive the backup domain.
#[derive(Clone, Copy, Debug, PartialEq, Eq, Structural)]
pub enum Clock {
    ClockRCSys,
    ClockOsc32,
    ClockAPB,
    ClockGclk2,
    Clock1K,
}

/// The word written to the unlock register before a write to `register`.
pub fn unlock_value(register: Register) -> (r: u32)
    ensures
        r == 0xAA00_0000u32 | register.spec_offset(),
{
    0xAA00_0000u32 | register.offset()
}

/// The oscillator control word that enables the main oscillator, with an
/// external crystal or (`internal`) the internal one.
pub fn oscillator_enable_value(internal: bool) -> (r: u32)
    ensures
        r == 0x1_0000u32 | (if internal {
            1u32
        } else {
            0u32
        }),
{
    let bit: u32 = if internal {
        1
    } else {
        0
    };
    assert(1u32 << 16u32 == 0x1_0000u32) by (bit_vector);
    (1u32 << 16) | bit
}

/// Frequency range field of the RC oscillator's configuration.
pub open spec fn spec_rcfast_range(frequency: RcfastFrequency) -> u32 {
    match frequency {
        RcfastFrequency::Frequency4MHz => 0,
        RcfastFrequency::Frequency8MHz => 1,
        RcfastFrequency::Frequency12MHz => 2,
    }
}

/// The RC oscillator configuration `rcfastcfg` turned into one that enables
/// it at `frequency` in open loop: the frequency range (bits 9:8) replaced,
/// the tuner (bit 1) off, and the enable bit (bit 0) set; the other bits
/// are kept.
pub fn rcfast_enable_value(rcfastcfg: u32, frequency: RcfastFrequency) -> (r: u32)
    ensures
        r == (rcfastcfg & !0x302u32) | (spec_rcfast_range(frequency) << 8u32) | 1u32,
{
    let range: u32 = match frequency {
        RcfastFrequency::Frequency4MHz => 0,
        RcfastFrequency::Frequency8MHz => 1,
        RcfastFrequency::Frequency12MHz => 2,
    };
    let cleared = rcfastcfg & !((0x3u32 << 8) | (1u32 << 1));
    assert(!((0x3u32 << 8u32) | (1u32 << 1u32)) == !0x302u32) by (bit_vector);
    cleared | (range << 8) | 1
}

/// The control word of a generic clock fed, undivided, from `source`: the
/// source number in bits 12:8, and bit 0 to enable it.
pub fn generic_clock_enable_value(source: ClockSource) -> (r: u32)
    ensures
        r == (source.spec_id() << 8u32) | 1u32,
{
    (source.id() << 8) | 1
}

/// The control word of a generic clock fed from `source` and divided by
/// `divider`: the divider in bits 31:16, the source in bits 12:8, bit 1 to
/// divide and bit 0 to enable.
pub fn generic_clock_enable_divided_value(source: ClockSource, divider: u16) -> (r: u32)
    ensures
        r == ((divider as u32) << 16u32) | (source.spec_id() << 8u32) | 3u32,
{
    let id = source.id();
    let d = divider as u32;
    assert((d << 16u32) | (id << 8u32) | 2u32 | 1u32 == (d << 16u32) | (id << 8u32) | 3u32)
        by (bit_vector);
    (d << 16) | (id << 8) | 2 | 1
}

} // verus!
