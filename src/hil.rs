//! Interfaces between the clock manager, the chip that supplies the clocks
//! and the peripherals that use them.
use vstd::prelude::*;
use crate::mask::{all_clocks, is_source};
use crate::returncode::ReturnCode;

verus! {

/// Handle that the clock manager gives each registered client: the position
/// of the client's record in the manager's table.
#[derive(Clone, Copy, Debug, PartialEq, Eq, Structural)]
pub struct ClientIndex {
    client_index: usize,
}

impl ClientIndex {
    pub closed spec fn index(&self) -> usize {
        self.client_index
    }

    pub fn new(client_index: usize) -> (r: ClientIndex)
        ensures
            r.index() == client_index,
    {
        ClientIndex { client_index }
    }

    pub fn get_index(&self) -> (r: usize)
        ensures
            r == self.index(),
    {
        self.client_index
    }
}

/// The sources that cannot be reached from a given clock without passing
/// through one of `intermediates`.
#[derive(Clone, Copy, Debug, PartialEq, Eq, Structural)]
pub struct IntermediateList {
    pub intermediates: u32,
    pub ends: u32,
}

impl IntermediateList {
    pub fn new(intermediates: u32, ends: u32) -> (r: IntermediateList)
        ensures
            r.intermediates == intermediates,
            r.ends == ends,
    {
        IntermediateList { intermediates, ends }
    }

    pub fn get_intermediates(&self) -> (r: u32)
        ensures
            r == self.intermediates,
    {
        self.intermediates
    }

    pub fn get_ends(&self) -> (r: u32)
        ensures
            r == self.ends,
    {
        self.ends
    }
}

/// The mask of those of the first `k` sources whose frequency, as `freq` gives
/// it for each one-bit mask, lies in `[min_freq, max_freq]`.
pub open spec fn range_mask(freq: spec_fn(u32) -> u32, min_freq: u32, max_freq: u32, k: u32) -> u32
    decreases k,
{
    if k == 0 {
        0
    } else {
        let i = (k - 1) as u32;
        let f = freq(1u32 << i);
        range_mask(freq, min_freq, max_freq, i) | (if min_freq <= f && f <= max_freq {
            1u32 << i
        } else {
            0u32
        })
    }
}

/// When no source runs faster than `max_freq`, the range `[0, max_freq]`
/// holds all of them.
pub proof fn lemma_full_range(freq: spec_fn(u32) -> u32, max_freq: u32, k: u32)
    requires
        k <= 31,
        forall|c: u32| #[trigger] freq(c) <= max_freq,
    ensures
        range_mask(freq, 0, max_freq, k) == all_clocks(k),
    decreases k,
{
    if k == 0 {
        assert(all_clocks(0) == 0) by (bit_vector);
    } else {
        let i = (k - 1) as u32;
        lemma_full_range(freq, max_freq, i);
        assert(freq(1u32 << i) <= max_freq);
        assert(all_clocks(i) | (1u32 << i) == all_clocks(k)) by (bit_vector)
            requires
                i < 31,
                k == i + 1,
        ;
    }
}

/// A range mask holds none but the first `k` sources.
pub proof fn lemma_range_within(freq: spec_fn(u32) -> u32, min_freq: u32, max_freq: u32, k: u32)
    requires
        k <= 31,
    ensures
        range_mask(freq, min_freq, max_freq, k) & !all_clocks(k) == 0,
    decreases k,
{
    if k == 0 {
        assert(0u32 & !all_clocks(0) == 0) by (bit_vector);
    } else {
        let i = (k - 1) as u32;
        lemma_range_within(freq, min_freq, max_freq, i);
        let a = range_mask(freq, min_freq, max_freq, i);
        assert(a & !all_clocks(i) == 0 ==> (a | (1u32 << i)) & !all_clocks(k) == 0 && (a | 0u32)
            & !all_clocks(k) == 0) by (bit_vector)
            requires
                i < 31,
                k == i + 1,
        ;
    }
}

/// Chip specific description of the clock sources.
pub trait ClockConfigs {
    /// Number of sources; source `i` is bit `i` of a clock mask.
    spec fn spec_num_sources(&self) -> u32;

    /// Frequency in Hz of the source named by the one-bit mask `clock`.
    spec fn spec_clock_frequency(&self, clock: u32) -> u32;

    /// A frequency at least as high as that of every source.
    spec fn spec_max_freq(&self) -> u32;

    /// The source that the chip runs on before the manager picks one.
    spec fn spec_default(&self) -> u32;

    /// The source preferred by clients that ask for compute speed.
    spec fn spec_compute(&self) -> u32;

    /// The slowest, least efficient source for computation.
    spec fn spec_noncompute(&self) -> u32;

    /// What must be avoided when leaving the source `clock`.
    spec fn spec_intermediates(&self, clock: u32) -> IntermediateList;

    /// The mask of the sources whose frequency lies in `[min_freq, max_freq]`.
    spec fn spec_clockmask(&self, min_freq: u32, max_freq: u32) -> u32;

    /// The facts about the description that the manager relies on.
    proof fn lemma_consistent(&self)
        ensures
            1 <= self.spec_num_sources() <= 31,
            is_source(self.spec_compute(), self.spec_num_sources()),
            is_source(self.spec_noncompute(), self.spec_num_sources()),
            is_source(self.spec_default(), self.spec_num_sources()),
            forall|min_freq: u32, max_freq: u32|
                #[trigger] self.spec_clockmask(min_freq, max_freq) == range_mask(
                    |c: u32| self.spec_clock_frequency(c),
                    min_freq,
                    max_freq,
                    self.spec_num_sources(),
                ),
            self.spec_clockmask(0, self.spec_max_freq()) == all_clocks(self.spec_num_sources()),
    ;

    fn get_num_clock_sources(&self) -> (r: u32)
        ensures
            r == self.spec_num_sources(),
    ;

    fn get_max_freq(&self) -> (r: u32)
        ensures
            r == self.spec_max_freq(),
    ;

    fn get_all_clocks(&self) -> (r: u32)
        ensures
            r == all_clocks(self.spec_num_sources()),
    ;

    fn get_default(&self) -> (r: u32)
        ensures
            r == self.spec_default(),
    ;

    fn get_compute(&self) -> (r: u32)
        ensures
            r == self.spec_compute(),
    ;

    fn get_noncompute(&self) -> (r: u32)
        ensures
            r == self.spec_noncompute(),
    ;

    /// The sources whose frequency lies in `[min_freq, max_freq]`.
    fn get_clockmask(&self, min_freq: u32, max_freq: u32) -> (r: u32)
        ensures
            r == self.spec_clockmask(min_freq, max_freq),
    ;

    fn get_clock_frequency(&self, clock: u32) -> (r: u32)
        requires
            is_source(clock, self.spec_num_sources()),
        ensures
            r == self.spec_clock_frequency(clock),
    ;

    fn get_intermediates_list(&self, clock: u32) -> (r: IntermediateList)
        ensures
            r == self.spec_intermediates(clock),
    ;
}

/// Implemented by each peripheral that runs on the system clock. The manager
/// does not call these itself: it queues a `Notice` for each call, and the
/// code that owns the peripherals delivers them.
pub trait ClockClient {
    /// Hands the client the handle under which it was registered.
    fn setup_client(&self, client_index: ClientIndex);

    /// The system clock now runs at `frequency` Hz.
    fn configure_clock(&self, frequency: u32);

    /// The clock is running and compatible: the client may go ahead.
    fn clock_enabled(&self);

    fn clock_disabled(&self);
}

/// The clock manager as its clients see it.
pub trait ClockManager {
    /// The manager's invariant.
    spec fn well_formed(&self) -> bool;

    /// Adds a client to the table and returns its handle.
    fn register(&mut self) -> (r: Result<ClientIndex, ReturnCode>)
        requires
            old(self).well_formed(),
        ensures
            final(self).well_formed(),
    ;

    /// The client needs a running, compatible clock; returns the system
    /// frequency in Hz.
    fn enable_clock(&mut self, client_index: ClientIndex) -> (r: Result<u32, ReturnCode>)
        requires
            old(self).well_formed(),
        ensures
            final(self).well_formed(),
    ;

    /// The client no longer needs the clock.
    fn disable_clock(&mut self, client_index: ClientIndex) -> (r: ReturnCode)
        requires
            old(self).well_formed(),
        ensures
            final(self).well_formed(),
    ;

    fn set_need_lock(&mut self, client_index: ClientIndex, need_lock: bool) -> (r: ReturnCode)
        requires
            old(self).well_formed(),
        ensures
            final(self).well_formed(),
    ;

    fn set_clocklist(&mut self, client_index: ClientIndex, clocklist: u32) -> (r: ReturnCode)
        requires
            old(self).well_formed(),
        ensures
            final(self).well_formed(),
    ;

    fn set_min_frequency(&mut self, client_index: ClientIndex, min_freq: u32) -> (r: ReturnCode)
        requires
            old(self).well_formed(),
        ensures
            final(self).well_formed(),
    ;

    fn set_max_frequency(&mut self, client_index: ClientIndex, max_freq: u32) -> (r: ReturnCode)
        requires
            old(self).well_formed(),
        ensures
            final(self).well_formed(),
    ;

    fn get_need_lock(&self, client_index: ClientIndex) -> (r: Result<bool, ReturnCode>)
        requires
            self.well_formed(),
    ;

    fn get_clocklist(&self, client_index: ClientIndex) -> (r: Result<u32, ReturnCode>)
        requires
            self.well_formed(),
    ;

    fn get_min_frequency(&self, client_index: ClientIndex) -> (r: Result<u32, ReturnCode>)
        requires
            self.well_formed(),
    ;

    fn get_max_frequency(&self, client_index: ClientIndex) -> (r: Result<u32, ReturnCode>)
        requires
            self.well_formed(),
    ;
}

/// Triggers of the manager's arbitration from outside its own calls.
pub trait ChangeClock: ClockManager {
    /// Runs the pending arbitration pass, if one is due and none is running.
    fn change_clock(&mut self)
        requires
            old(self).well_formed(),
        ensures
            final(self).well_formed(),
    ;

    /// One more (`true`) or one fewer (`false`) client asks for compute speed.
    fn set_compute_mode(&mut self, compute_mode: bool)
        requires
            old(self).well_formed(),
        ensures
            final(self).well_formed(),
    ;
}

/// A call that the manager asks to be made on its behalf.
#[derive(Clone, Copy, Debug, PartialEq, Eq, Structural)]
pub enum Notice {
    /// Reprogram the chip to run on the source `clock` (a one-bit mask).
    ChangeSystemClock { clock: u32 },
    /// Call `configure_clock(frequency)` on client `client`.
    ConfigureClock { client: usize, frequency: u32 },
    /// Call `clock_enabled()` on client `client`.
    ClockEnabled { client: usize },
}

/// Something that can be configured with a value of its own kind.
pub trait Controller {
    type Config;

    fn configure(&self, config: Self::Config);
}

} // verus!
