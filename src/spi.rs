//! Values for the SPI controller of the SAM4L.
use vstd::prelude::*;

verus! {

/// Mask of the peripheral chip-select field of the mode register.
pub const PCS_MASK: u32 = 0xF_0000;

pub const PCS0: u32 = 0xE_0000;

pub const PCS1: u32 = 0xD_0000;

pub const PCS2: u32 = 0xB_0000;

pub const PCS3: u32 = 0x7_0000;

/// Slowest baud rate the controller supports.
pub const MIN_BAUD_RATE: u32 = 188235;

/// The four peripherals that the controller can select.
#[derive(Clone, Copy, Debug, PartialEq, Eq, Structural)]
pub enum Peripheral {
    Peripheral0,
    Peripheral1,
    Peripheral2,
    Peripheral3,
}

#[derive(Clone, Copy, Debug, PartialEq, Eq, Structural)]
pub enum SpiRole {
    SpiMaster,
    SpiSlave,
}

pub open spec fn spec_peripheral_select(peripheral: Peripheral) -> u32 {
    match peripheral {
        Peripheral::Peripheral0 => PCS0,
        Peripheral::Peripheral1 => PCS1,
        Peripheral::Peripheral2 => PCS2,
        Peripheral::Peripheral3 => PCS3,
    }
}

/// The mode register `mr` with `peripheral` selected.
pub fn select_peripheral(mr: u32, peripheral: Peripheral) -> (r: u32)
    ensures
        r == (mr & !PCS_MASK) | spec_peripheral_select(peripheral),
{
    let peripheral_number: u32 = match peripheral {
        Peripheral::Peripheral0 => PCS0,
        Peripheral::Peripheral1 => PCS1,
        Peripheral::Peripheral2 => PCS2,
        Peripheral::Peripheral3 => PCS3,
    };
    (mr & !PCS_MASK) | peripheral_number
}

/// The peripheral that the mode register `mr` selects; a slave always
/// answers as peripheral 0, and so does a field that selects none.
pub fn active_peripheral(role: SpiRole, mr: u32) -> (r: Peripheral)
    ensures
        role == SpiRole::SpiSlave ==> r == Peripheral::Peripheral0,
        role == SpiRole::SpiMaster ==> (forall|p: Peripheral|
            mr & PCS_MASK == #[trigger] spec_peripheral_select(p) ==> r == p),
        role == SpiRole::SpiMaster && (forall|p: Peripheral|
            mr & PCS_MASK != #[trigger] spec_peripheral_select(p)) ==> r == Peripheral::Peripheral0,
{
    if role == SpiRole::SpiMaster {
        let peripheral_number = mr & PCS_MASK;
        assert(spec_peripheral_select(Peripheral::Peripheral1) == PCS1);
        assert(spec_peripheral_select(Peripheral::Peripheral2) == PCS2);
        assert(spec_peripheral_select(Peripheral::Peripheral3) == PCS3);
        if peripheral_number == PCS0 {
            Peripheral::Peripheral0
        } else if peripheral_number == PCS1 {
            Peripheral::Peripheral1
        } else if peripheral_number == PCS2 {
            Peripheral::Peripheral2
        } else if peripheral_number == PCS3 {
            Peripheral::Peripheral3
        } else {
            Peripheral::Peripheral0
        }
    } else {
        Peripheral::Peripheral0
    }
}

/// `rate` held between the slowest supported rate and `clock`.
pub open spec fn held_rate(clock: u32, rate: u32) -> int {
    let r = if rate < MIN_BAUD_RATE {
        MIN_BAUD_RATE as int
    } else {
        rate as int
    };
    if r > clock {
        clock as int
    } else {
        r
    }
}

/// For a system clock of `clock` Hz and a requested `rate`, the serial clock
/// divider and the baud rate it gives. The rate is first held between the
/// slowest supported rate and the system clock; the divider rounds up, so
/// the rate given is the nearest one at or below the request.
pub fn baud_rate_divider(clock: u32, rate: u32) -> (r: (u32, u32))
    requires
        clock > 0,
    ensures
        r.0 as int == (clock + held_rate(clock, rate) - 1) / held_rate(clock, rate),
        r.1 as int == clock as int / r.0 as int,
{
    let mut real_rate = rate;
    if real_rate < MIN_BAUD_RATE {
        real_rate = MIN_BAUD_RATE;
    }
    if real_rate > clock {
        real_rate = clock;
    }
    let scbr64: u64 = (clock as u64 + real_rate as u64 - 1) / real_rate as u64;
    let ghost num: int = clock + real_rate - 1;
    assert(1 <= num / (real_rate as int) <= clock) by (nonlinear_arith)
        requires
            num == clock + real_rate - 1,
            real_rate >= 1,
            real_rate <= clock,
    ;
    let scbr = scbr64 as u32;
    (scbr, clock / scbr)
}

} // verus!
