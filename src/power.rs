//! A minimal power manager: clients report the clocks they tolerate, and the
//! manager reports back the clocks that every report so far allows.
use vstd::prelude::*;

verus! {

/// Implemented by the client of a `PowerManager`.
pub trait PowerClient {
    /// The manager reports the clocks (a clock mask) it settled on.
    fn clock_updated(&self, clock: u32);
}

/// The manager calls nothing itself: each method returns the mask to report
/// to the registered client with `PowerClient::clock_updated`, if there is
/// a client.
pub trait PowerManager {
    fn register_client(&mut self);

    /// Clients call this to say which clocks they can tolerate.
    fn report_acceptable_clocks(&mut self, clockmask: u32) -> Option<u32>;
}

pub struct ImixPowerManager {
    has_client: bool,
    acceptable_clocks: u32,
}

impl ImixPowerManager {
    pub closed spec fn spec_has_client(&self) -> bool {
        self.has_client
    }

    pub closed spec fn spec_acceptable_clocks(&self) -> u32 {
        self.acceptable_clocks
    }

    /// What `update_clock` reports.
    pub open spec fn spec_update(&self) -> Option<u32> {
        if self.spec_has_client() {
            Some(self.spec_acceptable_clocks())
        } else {
            None
        }
    }

    pub fn new() -> (r: Self)
        ensures
            !r.spec_has_client(),
            r.spec_acceptable_clocks() == 0xffff_ffffu32,
    {
        ImixPowerManager { has_client: false, acceptable_clocks: 0xffff_ffff }
    }

    fn choose_clock(&self) -> (r: u32)
        ensures
            r == self.acceptable_clocks,
    {
        self.acceptable_clocks
    }

    /// The clocks to report to the client, if one is registered.
    pub fn update_clock(&self) -> (r: Option<u32>)
        ensures
            r == self.spec_update(),
    {
        let clock = self.choose_clock();
        if self.has_client {
            Some(clock)
        } else {
            None
        }
    }
}

impl PowerManager for ImixPowerManager {
    fn register_client(&mut self)
        ensures
            final(self).spec_has_client(),
            final(self).spec_acceptable_clocks() == old(self).spec_acceptable_clocks(),
    {
        self.has_client = true;
    }

    fn report_acceptable_clocks(&mut self, clockmask: u32) -> (r: Option<u32>)
        ensures
            final(self).spec_acceptable_clocks() == old(self).spec_acceptable_clocks() & clockmask,
            final(self).spec_has_client() == old(self).spec_has_client(),
            r == final(self).spec_update(),
    {
        let mask = self.acceptable_clocks & clockmask;
        self.acceptable_clocks = mask;
        self.update_clock()
    }
}

} // verus!
