use clock_pm::chip::RcfastFrequency;
use clock_pm::power::{ImixPowerManager, PowerManager};
use clock_pm::scif::{
    generic_clock_enable_divided_value, generic_clock_enable_value, oscillator_enable_value,
    rcfast_enable_value, unlock_value, ClockSource, Register,
};
use clock_pm::spi::{
    active_peripheral, baud_rate_divider, select_peripheral, Peripheral, SpiRole, PCS_MASK,
};

#[test]
fn power_manager_without_client_reports_nothing() {
    let mut pm = ImixPowerManager::new();
    assert_eq!(pm.update_clock(), None);
    assert_eq!(pm.report_acceptable_clocks(0x0f), None);
}

#[test]
fn power_manager_narrows_acceptable_clocks() {
    let mut pm = ImixPowerManager::new();
    pm.register_client();
    assert_eq!(pm.update_clock(), Some(0xffff_ffff));
    assert_eq!(pm.report_acceptable_clocks(0x0f), Some(0x0f));
    assert_eq!(pm.report_acceptable_clocks(0x3c), Some(0x0c));
    assert_eq!(pm.update_clock(), Some(0x0c));
}

#[test]
fn scif_unlock_words() {
    assert_eq!(unlock_value(Register::OSCCTRL0), 0xAA00_0020);
    assert_eq!(unlock_value(Register::IER), 0xAA00_0000);
    assert_eq!(Register::CSCR.offset(), 0x1C);
}

#[test]
fn scif_control_words() {
    assert_eq!(oscillator_enable_value(true), 0x1_0001);
    assert_eq!(oscillator_enable_value(false), 0x1_0000);
    assert_eq!(ClockSource::RC32K.id(), 13);
    assert_eq!(generic_clock_enable_value(ClockSource::RC32K), (13 << 8) | 1);
    assert_eq!(generic_clock_enable_divided_value(ClockSource::OSC0, 4), (4 << 16) | (3 << 8) | 3);
}

#[test]
fn spi_peripheral_select_round_trip() {
    for p in [
        Peripheral::Peripheral0,
        Peripheral::Peripheral1,
        Peripheral::Peripheral2,
        Peripheral::Peripheral3,
    ] {
        let mr = select_peripheral(0x1234_5678, p);
        assert_eq!(mr & !PCS_MASK, 0x1234_5678 & !PCS_MASK);
        assert_eq!(active_peripheral(SpiRole::SpiMaster, mr), p);
        assert_eq!(active_peripheral(SpiRole::SpiSlave, mr), Peripheral::Peripheral0);
    }
    assert_eq!(active_peripheral(SpiRole::SpiMaster, 0), Peripheral::Peripheral0);
}

#[test]
fn spi_baud_rate_divider() {
    assert_eq!(baud_rate_divider(48_000_000, 1_000_000), (48, 1_000_000));
    assert_eq!(baud_rate_divider(48_000_000, 7_000_000), (7, 6_857_142));
    assert_eq!(baud_rate_divider(48_000_000, 1), (256, 187_500));
    assert_eq!(baud_rate_divider(16_000_000, 100_000_000), (1, 16_000_000));
}

#[test]
fn scif_rcfast_configuration() {
    assert_eq!(rcfast_enable_value(0, RcfastFrequency::Frequency4MHz), 0x001);
    assert_eq!(rcfast_enable_value(0, RcfastFrequency::Frequency8MHz), 0x101);
    assert_eq!(rcfast_enable_value(0x0000_0302, RcfastFrequency::Frequency12MHz), 0x201);
    assert_eq!(rcfast_enable_value(0xffff_ffff, RcfastFrequency::Frequency4MHz), 0xffff_fcfd);
}
