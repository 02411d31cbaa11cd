use clock_pm::chip::{
    ImixClockManager, SystemClockSource, ALL_CLOCKS, DFLL, EXTOSC, PLL, RC1M, RC80M, RCFAST12M,
    RCFAST4M, RCFAST8M, RCSYS,
};
use clock_pm::hil::{ChangeClock, ClientIndex, ClockConfigs, ClockManager, Notice};
use clock_pm::client::NUM_CLOCK_CLIENTS;
use clock_pm::manager::ClockManagement;
use clock_pm::returncode::ReturnCode;

fn manager() -> ClockManagement<ImixClockManager> {
    ClockManagement::new(ImixClockManager::new())
}

/// Registers a client that accepts `mask` and says whether it needs a lock.
fn client(m: &mut ClockManagement<ImixClockManager>, mask: u32, need_lock: bool) -> ClientIndex {
    let idx = m.register().unwrap();
    assert_eq!(m.set_clocklist(idx, mask), ReturnCode::SUCCESS);
    assert_eq!(m.set_need_lock(idx, need_lock), ReturnCode::SUCCESS);
    idx
}

#[test]
fn scenario_a_first_enable_picks_lowest_power_source() {
    let mut m = manager();
    let x = client(&mut m, RCFAST4M | PLL, true);
    assert_eq!(m.get_current_clock(), 0);
    let r = m.enable_clock(x);
    assert_eq!(m.get_current_clock(), RCFAST4M);
    // the imix board's 4 MHz RC oscillator runs at 4.3 MHz
    assert_eq!(r, Ok(4_300_000));
    assert_eq!(m.get_lock_count(), 1);
    assert!(!m.is_change_pending());
    let notices = m.take_notices();
    assert_eq!(
        notices,
        vec![
            Notice::ChangeSystemClock { clock: RCFAST4M },
            Notice::ConfigureClock { client: 0, frequency: 4_300_000 },
            Notice::ClockEnabled { client: 0 },
        ]
    );
    assert!(m.take_notices().is_empty());
}

#[test]
fn scenario_b_incompatible_client_waits_while_lock_held() {
    let mut m = manager();
    let x = client(&mut m, RCFAST4M | PLL, true);
    m.enable_clock(x).unwrap();
    m.take_notices();
    let y = client(&mut m, PLL, false);
    let r = m.enable_clock(y);
    assert_eq!(r, Ok(4_300_000));
    assert!(m.is_change_pending());
    assert_eq!(m.get_change_clockmask(), PLL);
    assert_eq!(m.get_lock_count(), 1);
    assert_eq!(m.get_current_clock(), RCFAST4M);
    assert!(m.take_notices().is_empty());
    let yd = m.get_client(y).unwrap();
    assert!(yd.enabled);
    assert!(!yd.running);
}

#[test]
fn scenario_c_disable_releases_lock_and_switches() {
    let mut m = manager();
    let x = client(&mut m, RCFAST4M | PLL, true);
    m.enable_clock(x).unwrap();
    let y = client(&mut m, PLL, false);
    m.enable_clock(y).unwrap();
    m.take_notices();
    assert_eq!(m.disable_clock(x), ReturnCode::SUCCESS);
    assert_eq!(m.get_current_clock(), PLL);
    assert_eq!(m.get_lock_count(), 0);
    assert!(!m.is_change_pending());
    assert_eq!(m.get_system_frequency(), 48_000_000);
    let yd = m.get_client(y).unwrap();
    assert!(yd.running);
    let xd = m.get_client(x).unwrap();
    assert!(!xd.enabled);
    let notices = m.take_notices();
    assert!(notices.contains(&Notice::ChangeSystemClock { clock: PLL }));
    assert!(notices.contains(&Notice::ClockEnabled { client: 1 }));
    assert!(!notices.contains(&Notice::ClockEnabled { client: 0 }));
}

#[test]
fn scenario_d_unknown_handle_is_rejected() {
    let mut m = manager();
    let x = client(&mut m, RCFAST4M | PLL, true);
    let bogus = ClientIndex::new(5);
    assert_eq!(m.enable_clock(bogus), Err(ReturnCode::EINVAL));
    assert_eq!(m.disable_clock(bogus), ReturnCode::EINVAL);
    assert_eq!(m.set_need_lock(bogus, false), ReturnCode::EINVAL);
    assert_eq!(m.set_clocklist(bogus, PLL), ReturnCode::EINVAL);
    assert_eq!(m.set_min_frequency(bogus, 1), ReturnCode::EINVAL);
    assert_eq!(m.set_max_frequency(bogus, 1), ReturnCode::EINVAL);
    assert_eq!(m.get_need_lock(bogus), Err(ReturnCode::EINVAL));
    assert_eq!(m.get_clocklist(bogus), Err(ReturnCode::EINVAL));
    assert_eq!(m.get_min_frequency(bogus), Err(ReturnCode::EINVAL));
    assert_eq!(m.get_max_frequency(bogus), Err(ReturnCode::EINVAL));
    assert_eq!(m.get_current_clock(), 0);
    assert_eq!(m.get_lock_count(), 0);
    assert!(m.take_notices().is_empty());
    assert_eq!(m.get_clocklist(x), Ok(RCFAST4M | PLL));
}

#[test]
fn enable_twice_is_idempotent() {
    let mut m = manager();
    let x = client(&mut m, RCFAST8M | RCFAST12M, true);
    let r1 = m.enable_clock(x);
    let clock1 = m.get_current_clock();
    let lock1 = m.get_lock_count();
    m.take_notices();
    let r2 = m.enable_clock(x);
    assert_eq!(r1, r2);
    assert_eq!(r1, Ok(8_200_000));
    assert_eq!(m.get_current_clock(), clock1);
    assert_eq!(m.get_lock_count(), lock1);
    assert_eq!(m.take_notices(), vec![Notice::ClockEnabled { client: 0 }]);
}

#[test]
fn disable_twice_is_a_no_op() {
    let mut m = manager();
    let x = client(&mut m, RC1M, false);
    m.enable_clock(x).unwrap();
    assert_eq!(m.disable_clock(x), ReturnCode::SUCCESS);
    // with nothing to constrain it, the pass falls back to the lowest-power source
    assert_eq!(m.get_current_clock(), RCSYS);
    let clock = m.get_current_clock();
    m.take_notices();
    assert_eq!(m.disable_clock(x), ReturnCode::SUCCESS);
    assert_eq!(m.get_current_clock(), clock);
    assert!(m.take_notices().is_empty());
}

#[test]
fn register_fails_when_table_is_full() {
    let mut m = manager();
    for i in 0..NUM_CLOCK_CLIENTS {
        let idx = m.register().unwrap();
        assert_eq!(idx.get_index(), i);
    }
    assert_eq!(m.register(), Err(ReturnCode::ENOMEM));
    assert_eq!(m.get_num_clients(), NUM_CLOCK_CLIENTS);
}

#[test]
fn new_client_accepts_every_source() {
    let mut m = manager();
    let x = m.register().unwrap();
    assert_eq!(m.get_clocklist(x), Ok(ALL_CLOCKS));
    assert_eq!(m.get_need_lock(x), Ok(true));
    assert_eq!(m.get_min_frequency(x), Ok(0));
    assert_eq!(m.get_max_frequency(x), Ok(48_000_000));
    assert_eq!(m.get_client(x).unwrap().clockmask, ALL_CLOCKS);
}

#[test]
fn frequency_range_narrows_the_mask() {
    let mut m = manager();
    let x = m.register().unwrap();
    assert_eq!(m.set_min_frequency(x, 10_000_000), ReturnCode::SUCCESS);
    assert_eq!(m.get_min_frequency(x), Ok(10_000_000));
    assert_eq!(m.get_client(x).unwrap().clockmask, RCFAST12M | EXTOSC | RC80M | PLL | DFLL);
    assert_eq!(m.set_max_frequency(x, 20_000_000), ReturnCode::SUCCESS);
    assert_eq!(m.get_max_frequency(x), Ok(20_000_000));
    assert_eq!(m.get_client(x).unwrap().clockmask, RCFAST12M | EXTOSC);
    assert_eq!(m.set_clocklist(x, EXTOSC | PLL), ReturnCode::SUCCESS);
    assert_eq!(m.get_client(x).unwrap().clockmask, EXTOSC);
    assert_eq!(m.set_min_frequency(x, 30_000_000), ReturnCode::SUCCESS);
    assert_eq!(m.get_client(x).unwrap().clockmask, 0);
}

#[test]
fn lock_free_client_joins_running_clock() {
    let mut m = manager();
    let x = client(&mut m, RC1M | RCFAST4M, false);
    m.enable_clock(x).unwrap();
    assert_eq!(m.get_current_clock(), RC1M);
    assert_eq!(m.get_lock_count(), 0);
    m.take_notices();
    let y = client(&mut m, RC1M | PLL, false);
    assert_eq!(m.enable_clock(y), Ok(1_000_000));
    assert!(m.get_client(y).unwrap().running);
    assert_eq!(m.get_lock_count(), 0);
    assert_eq!(m.take_notices(), vec![Notice::ClockEnabled { client: 1 }]);
}

#[test]
fn lock_client_on_compatible_clock_takes_lock() {
    let mut m = manager();
    let x = client(&mut m, EXTOSC | PLL, true);
    m.enable_clock(x).unwrap();
    assert_eq!(m.get_current_clock(), EXTOSC);
    m.take_notices();
    let y = client(&mut m, EXTOSC, true);
    assert_eq!(m.enable_clock(y), Ok(16_000_000));
    assert_eq!(m.get_lock_count(), 2);
    assert!(m.get_client(y).unwrap().lock_held);
    assert_eq!(m.disable_clock(y), ReturnCode::SUCCESS);
    assert_eq!(m.get_lock_count(), 1);
    assert_eq!(m.disable_clock(x), ReturnCode::SUCCESS);
    assert_eq!(m.get_lock_count(), 0);
}

#[test]
fn disjoint_clients_take_turns() {
    let mut m = manager();
    let x = client(&mut m, RC1M, true);
    let y = client(&mut m, PLL, true);
    m.enable_clock(x).unwrap();
    assert_eq!(m.get_current_clock(), RC1M);
    m.enable_clock(y).unwrap();
    assert!(m.is_change_pending());
    assert_eq!(m.get_current_clock(), RC1M);
    m.disable_clock(x);
    // the pass that follows serves the waiting client
    assert_eq!(m.get_current_clock(), PLL);
    assert!(m.get_client(y).unwrap().lock_held);
    assert_eq!(m.get_lock_count(), 1);
}

#[test]
fn round_robin_cursor_moves_to_blocked_client() {
    let mut m = manager();
    let x = client(&mut m, RC1M, false);
    let y = client(&mut m, PLL, false);
    m.enable_clock(x).unwrap();
    assert_eq!(m.get_current_clock(), RC1M);
    m.enable_clock(y).unwrap();
    // the pass kept the running client and blocked the other one
    assert!(m.is_change_pending());
    assert_eq!(m.get_current_clock(), RC1M);
    assert_eq!(m.get_next_client(), 1);
    assert_eq!(m.get_change_clockmask(), PLL);
    assert_eq!(m.disable_clock(x), ReturnCode::SUCCESS);
    assert_eq!(m.get_current_clock(), PLL);
    assert!(!m.is_change_pending());
    assert_eq!(m.get_next_client(), 1);
}

#[test]
fn change_clock_runs_pending_pass() {
    let mut m = manager();
    let x = client(&mut m, RC1M, true);
    let y = client(&mut m, RC80M, false);
    m.enable_clock(x).unwrap();
    m.enable_clock(y).unwrap();
    assert!(m.is_change_pending());
    m.change_clock();
    // the lock is still held: nothing changes
    assert_eq!(m.get_current_clock(), RC1M);
    assert_eq!(m.disable_clock(x), ReturnCode::SUCCESS);
    assert_eq!(m.get_current_clock(), RC80M);
    m.change_clock();
    assert_eq!(m.get_current_clock(), RC80M);
    assert_eq!(m.get_system_frequency(), 40_000_000);
}

#[test]
fn compute_mode_prefers_pll() {
    let mut m = manager();
    let x = client(&mut m, RCSYS | PLL, false);
    m.set_compute_mode(true);
    m.enable_clock(x).unwrap();
    assert_eq!(m.get_current_clock(), PLL);
    m.set_compute_mode(false);
    assert!(m.is_change_pending());
}

#[test]
fn imix_clockmask_by_frequency() {
    let c = ImixClockManager::new();
    assert_eq!(c.get_clockmask(0, 48_000_000), ALL_CLOCKS);
    assert_eq!(c.get_clockmask(1_000_000, 1_000_000), RC1M);
    assert_eq!(c.get_clockmask(48_000_000, 48_000_000), PLL | DFLL);
    assert_eq!(c.get_clockmask(40_000_000, 47_999_999), RC80M);
    assert_eq!(c.get_clockmask(0, 115_199), 0);
    assert_eq!(c.get_clockmask(20_000_000, 10_000_000), 0);
    assert_eq!(c.get_clockmask(4_000_000, 8_200_000), RCFAST4M | RCFAST8M);
}

#[test]
fn imix_clock_table() {
    let c = ImixClockManager::new();
    assert_eq!(c.get_num_clock_sources(), 9);
    assert_eq!(c.get_all_clocks(), 0x1ff);
    assert_eq!(c.get_max_freq(), 48_000_000);
    assert_eq!(c.get_compute(), PLL);
    assert_eq!(c.get_noncompute(), RCSYS);
    assert_eq!(c.get_default(), EXTOSC);
    assert_eq!(c.get_clock_frequency(RCSYS), 115_200);
    assert_eq!(c.get_clock_frequency(RC80M), 40_000_000);
    assert_eq!(c.get_clock_frequency(DFLL), 48_000_000);
    assert_eq!(c.convert_to_clock(RC1M), SystemClockSource::RC1M);
    assert_eq!(c.convert_to_clock(DFLL), SystemClockSource::DfllRc32kAt48MHz);
    let il = c.get_intermediates_list(RCFAST8M);
    assert_eq!(il.get_intermediates(), ALL_CLOCKS & !(RCFAST4M | RCFAST8M | RCFAST12M));
    assert_eq!(il.get_ends(), RCFAST4M | RCFAST12M);
    let il = c.get_intermediates_list(PLL);
    assert_eq!(il.get_intermediates(), 0);
    assert_eq!(il.get_ends(), 0);
}

#[test]
fn rcfast_is_not_retuned_under_a_running_client() {
    let mut m = manager();
    let x = client(&mut m, RCFAST4M | RCFAST8M, false);
    m.enable_clock(x).unwrap();
    assert_eq!(m.get_current_clock(), RCFAST4M);
    let y = client(&mut m, RCFAST8M, false);
    m.enable_clock(y).unwrap();
    // retuning the RC oscillator would pass through a source the running client refuses
    assert_eq!(m.get_current_clock(), RCFAST4M);
    assert!(m.is_change_pending());
    assert!(!m.get_client(y).unwrap().running);
    assert_eq!(m.disable_clock(x), ReturnCode::SUCCESS);
    assert_eq!(m.get_current_clock(), RCFAST8M);
    assert!(m.get_client(y).unwrap().running);
}

#[test]
fn pass_with_no_reachable_source_stays_pending() {
    let mut m = manager();
    let x = client(&mut m, RCFAST4M, false);
    m.enable_clock(x).unwrap();
    assert_eq!(m.get_current_clock(), RCFAST4M);
    assert_eq!(m.set_clocklist(x, RCFAST8M), ReturnCode::SUCCESS);
    assert!(m.is_change_pending());
    m.take_notices();
    m.change_clock();
    assert_eq!(m.get_current_clock(), RCFAST4M);
    assert!(m.is_change_pending());
    assert!(m.take_notices().is_empty());
}

#[test]
fn client_index_round_trip() {
    let idx = ClientIndex::new(7);
    assert_eq!(idx.get_index(), 7);
}

#[test]
fn shared_source_settles_all_clients() {
    let mut m = manager();
    let w = client(&mut m, RC80M, true);
    m.enable_clock(w).unwrap();
    assert_eq!(m.get_current_clock(), RC80M);
    let x = client(&mut m, RC1M | PLL, true);
    let y = client(&mut m, PLL | DFLL, false);
    let z = client(&mut m, PLL, false);
    m.enable_clock(x).unwrap();
    m.enable_clock(y).unwrap();
    m.enable_clock(z).unwrap();
    assert!(m.is_change_pending());
    assert_eq!(m.disable_clock(w), ReturnCode::SUCCESS);
    assert_eq!(m.get_current_clock(), PLL);
    assert!(!m.is_change_pending());
    assert!(m.get_client(x).unwrap().lock_held);
    assert!(m.get_client(y).unwrap().running);
    assert!(m.get_client(z).unwrap().running);
    assert_eq!(m.get_lock_count(), 1);
}

#[test]
fn compute_mode_forces_compute_source_when_acceptable() {
    let mut m = manager();
    let x = client(&mut m, RCSYS, false);
    m.enable_clock(x).unwrap();
    assert_eq!(m.get_current_clock(), RCSYS);
    assert_eq!(m.set_clocklist(x, RC1M | PLL), ReturnCode::SUCCESS);
    assert!(m.is_change_pending());
    m.set_compute_mode(true);
    assert_eq!(m.get_current_clock(), PLL);
    assert_eq!(m.get_system_frequency(), 48_000_000);
    m.set_compute_mode(false);
    assert!(m.is_change_pending());
    m.change_clock();
    // without compute requests the running client keeps the lowest-power source it accepts
    assert_eq!(m.get_current_clock(), RC1M);
}
