//! Clock power management: a manager that arbitrates one shared system
//! clock source among peripherals with differing clock requirements.
use vstd::prelude::*;

pub mod mask;
pub mod returncode;
pub mod hil;
pub mod chip;
pub mod client;
pub mod arbitration;
pub mod manager;
pub mod power;
pub mod scif;
pub mod spi;

verus! {

} // verus!
