//! The manager's record of each client, and what the table of records
//! adds up to: the locks held and the mask of the running lock-free clients.
use vstd::prelude::*;
use crate::hil::{ClientIndex, ClockConfigs, Notice};
use crate::mask::all_clocks;

verus! {

/// Room in the manager's table of clients.
pub const NUM_CLOCK_CLIENTS: usize = 10;

/// A clock mask with every bit set: no constraint at all.
pub const NO_CONSTRAINT: u32 = 0xffff_ffff;

/// What the manager keeps for each client.
#[derive(Clone, Copy, Debug)]
pub struct ClockData {
    pub client_index: ClientIndex,
    pub enabled: bool,
    pub need_lock: bool,
    /// For a client that needs no lock: `clock_enabled` was delivered for the
    /// current selection.
    pub running: bool,
    /// The client holds one unit of the manager's lock count.
    pub lock_held: bool,
    /// The sources acceptable to the client: `clocklist` narrowed to the
    /// frequency range.
    pub clockmask: u32,
    pub clocklist: u32,
    pub min_freq: u32,
    pub max_freq: u32,
}

impl ClockData {
    /// A record for a client not yet registered: disabled, needing a lock,
    /// and accepting every source up to `max_freq`.
    pub fn new(client_index: ClientIndex, all_clocks: u32, max_freq: u32) -> (r: ClockData)
        ensures
            r.client_index.index() == client_index.index(),
            !r.enabled,
            r.need_lock,
            !r.running,
            !r.lock_held,
            r.clockmask == all_clocks,
            r.clocklist == all_clocks,
            r.min_freq == 0,
            r.max_freq == max_freq,
    {
        ClockData {
            client_index,
            enabled: false,
            need_lock: true,
            running: false,
            lock_held: false,
            clockmask: all_clocks,
            clocklist: all_clocks,
            min_freq: 0,
            max_freq,
        }
    }
}

pub open spec fn lock_term(c: ClockData) -> nat {
    if c.lock_held {
        1
    } else {
        0
    }
}

/// Number of locks held among the first `k` clients.
pub open spec fn count_locked(s: Seq<ClockData>, k: int) -> nat
    decreases k,
{
    if k <= 0 {
        0
    } else {
        count_locked(s, k - 1) + lock_term(s[k - 1])
    }
}

pub open spec fn nolock_term(c: ClockData) -> u32 {
    if c.running && !c.need_lock {
        c.clockmask
    } else {
        NO_CONSTRAINT
    }
}

/// Intersection of the masks of the running lock-free clients among the
/// first `k`.
pub open spec fn nolock_mask(s: Seq<ClockData>, k: int) -> u32
    decreases k,
{
    if k <= 0 {
        NO_CONSTRAINT
    } else {
        nolock_mask(s, k - 1) & nolock_term(s[k - 1])
    }
}

pub proof fn lemma_count_update(s: Seq<ClockData>, j: int, c: ClockData, k: int)
    requires
        0 <= j < s.len(),
        k <= s.len(),
    ensures
        j < k ==> count_locked(s.update(j, c), k) + lock_term(s[j]) == count_locked(s, k)
            + lock_term(c),
        j >= k ==> count_locked(s.update(j, c), k) == count_locked(s, k),
    decreases k,
{
    if k > 0 {
        lemma_count_update(s, j, c, k - 1);
    }
}

pub proof fn lemma_count_zero(s: Seq<ClockData>, k: int, i: int)
    requires
        count_locked(s, k) == 0,
        0 <= i < k,
    ensures
        !s[i].lock_held,
    decreases k,
{
    if i < k - 1 {
        lemma_count_zero(s, k - 1, i);
    }
}

pub proof fn lemma_count_bound(s: Seq<ClockData>, k: int)
    requires
        k >= 0,
    ensures
        count_locked(s, k) <= k,
    decreases k,
{
    if k > 0 {
        lemma_count_bound(s, k - 1);
    }
}

pub proof fn lemma_nolock_update(s: Seq<ClockData>, j: int, c: ClockData, k: int)
    requires
        0 <= j < s.len(),
        k <= s.len(),
    ensures
        nolock_term(c) == nolock_term(s[j]) ==> nolock_mask(s.update(j, c), k) == nolock_mask(
            s,
            k,
        ),
        j >= k ==> nolock_mask(s.update(j, c), k) == nolock_mask(s, k),
        (nolock_term(s[j]) == NO_CONSTRAINT && j < k) ==> nolock_mask(s.update(j, c), k)
            == nolock_mask(s, k) & nolock_term(c),
    decreases k,
{
    if k > 0 {
        lemma_nolock_update(s, j, c, k - 1);
        let a = nolock_mask(s, k - 1);
        let t = nolock_term(s[k - 1]);
        let tc = nolock_term(c);
        assert(a & 0xffff_ffffu32 == a) by (bit_vector);
        assert((a & tc) & t == (a & t) & tc) by (bit_vector);
    }
}

/// The record of a client obeys the chip's description: its acceptable mask
/// is its declared list narrowed to its frequency range.
pub open spec fn client_consistent<C: ClockConfigs>(configs: C, d: ClockData) -> bool {
    &&& d.clockmask == d.clocklist & configs.spec_clockmask(d.min_freq, d.max_freq)
    &&& d.clockmask & !all_clocks(configs.spec_num_sources()) == 0
}

/// The record that the table starts with at position `i`.
pub open spec fn fresh_client<C: ClockConfigs>(configs: C, d: ClockData, i: int) -> bool {
    let all = all_clocks(configs.spec_num_sources());
    &&& d.client_index.index() == i
    &&& !d.enabled && d.need_lock && !d.running && !d.lock_held
    &&& d.clockmask == all && d.clocklist == all
    &&& d.min_freq == 0 && d.max_freq == configs.spec_max_freq()
}

pub open spec fn unregistered(d: ClockData) -> bool {
    !d.enabled && !d.running && !d.lock_held
}

/// `ConfigureClock` notices at `frequency` for the running clients among
/// the first `k`, in table order.
pub open spec fn configure_notices(s: Seq<ClockData>, k: int, frequency: u32) -> Seq<Notice>
    decreases k,
{
    if k <= 0 {
        Seq::empty()
    } else {
        let prev = configure_notices(s, k - 1, frequency);
        if s[k - 1].running {
            prev.push(Notice::ConfigureClock { client: (k - 1) as usize, frequency })
        } else {
            prev
        }
    }
}

pub(crate) fn notify_running(clients: &Vec<ClockData>, n: usize, frequency: u32, notices: &mut Vec<Notice>)
    requires
        n <= clients@.len(),
    ensures
        final(notices)@ == old(notices)@ + configure_notices(clients@, n as int, frequency),
{
    let mut i: usize = 0;
    while i < n
        invariant
            i <= n,
            n <= clients@.len(),
            notices@ == old(notices)@ + configure_notices(clients@, i as int, frequency),
        decreases n - i,
    {
        if clients[i].running {
            notices.push(Notice::ConfigureClock { client: i, frequency });
        }
        proof {
            assert(configure_notices(clients@, i + 1, frequency) == (if clients@[i as int].running {
                configure_notices(clients@, i as int, frequency).push(
                    Notice::ConfigureClock { client: i, frequency },
                )
            } else {
                configure_notices(clients@, i as int, frequency)
            }));
        }
        i = i + 1;
    }
}

/// The notices with which a pass that picked `clock` hands the clock to the
/// first `k` clients: a `ConfigureClock` and a `ClockEnabled` for each one
/// that takes a lock or starts running.
pub open spec fn grant_notices(s: Seq<ClockData>, k: int, clock: u32, frequency: u32) -> Seq<Notice>
    decreases k,
{
    if k <= 0 {
        Seq::empty()
    } else {
        let prev = grant_notices(s, k - 1, clock, frequency);
        let c = s[k - 1];
        if c.enabled && clock & c.clockmask != 0 && (c.need_lock || !c.running) {
            prev.push(Notice::ConfigureClock { client: (k - 1) as usize, frequency }).push(
                Notice::ClockEnabled { client: (k - 1) as usize },
            )
        } else {
            prev
        }
    }
}

/// What an arbitration pass that picked `clock` makes of a client's record:
/// an enabled client that can run on `clock` takes a lock if it needs one,
/// and is marked running if it does not.
pub open spec fn granted(c: ClockData, clock: u32) -> ClockData {
    if c.enabled && clock & c.clockmask != 0 {
        if c.need_lock {
            ClockData { lock_held: true, ..c }
        } else {
            ClockData { running: true, ..c }
        }
    } else {
        c
    }
}

} // verus!
