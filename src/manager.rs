//! The clock manager: arbitrates one system clock among its clients.
use vstd::prelude::*;
use crate::arbitration::{
    any_blocked, blocked_mask, lemma_common_source_in_sweep, lemma_sweep_narrows,
    lemma_unblocked_keeps_final, sweep_blocked, sweep_mask, sweep_pos,
};
use crate::client::{
    ClockData, NO_CONSTRAINT, NUM_CLOCK_CLIENTS, client_consistent, configure_notices, nolock_term,
    count_locked, fresh_client, grant_notices, granted, lemma_count_bound, lemma_count_update,
    lemma_count_zero, lemma_nolock_update, nolock_mask, notify_running, unregistered,
};
use crate::hil::{ChangeClock, ClientIndex, ClockConfigs, ClockManager, Notice, range_mask};
use crate::mask::{all_clocks, is_source, is_submask};
use crate::returncode::ReturnCode;

verus! {

/// The manager's state, as the contracts speak of it.
pub struct ManagerView {
    pub clients: Seq<ClockData>,
    pub num_clients: usize,
    pub next_client: usize,
    pub current_clock: u32,
    pub change_clock: bool,
    pub lock_count: u32,
    pub change_clockmask: u32,
    pub nolock_clockmask: u32,
    pub compute_counter: u32,
    pub compute_mode: bool,
    pub system_freq: u32,
    pub notices: Seq<Notice>,
}

/// The arbiter of the system clock.
pub struct ClockManagement<C: ClockConfigs> {
    configs: C,
    clients: Vec<ClockData>,
    num_clients: usize,
    /// Where the next arbitration sweep starts.
    next_client: usize,
    current_clock: u32,
    /// A new arbitration pass is due.
    change_clock: bool,
    lock_count: u32,
    /// Sources that the next change should be restricted to.
    change_clockmask: u32,
    /// Intersection of the masks of running clients that need no lock.
    nolock_clockmask: u32,
    /// Number of clients asking for compute speed.
    compute_counter: u32,
    compute_mode: bool,
    system_freq: u32,
    notices: Vec<Notice>,
}

/// Replacing record `i` by one with the same handle that obeys the chip's
/// description keeps the whole table in order.
proof fn lemma_record_replaced<C: ClockConfigs>(
    configs: C,
    before: Seq<ClockData>,
    after: Seq<ClockData>,
    i: int,
)
    requires
        before.len() == NUM_CLOCK_CLIENTS,
        0 <= i < NUM_CLOCK_CLIENTS,
        after == before.update(i, after[i]),
        after[i].client_index == before[i].client_index,
        client_consistent(configs, after[i]),
        forall|j: int|
            0 <= j < NUM_CLOCK_CLIENTS ==> (#[trigger] before[j]).client_index.index() == j
                && client_consistent(configs, before[j]),
    ensures
        forall|j: int|
            0 <= j < NUM_CLOCK_CLIENTS ==> (#[trigger] after[j]).client_index.index() == j
                && client_consistent(configs, after[j]),
{
    assert forall|j: int| 0 <= j < NUM_CLOCK_CLIENTS implies (#[trigger] after[j]).client_index.index()
        == j && client_consistent(configs, after[j]) by {
        assert(before[j].client_index.index() == j && client_consistent(configs, before[j]));
    }
}

/// A client that the sweep does not block can run on a source picked from
/// what the sweep leaves.
proof fn lemma_unblocked_runs_on_pick(
    s: Seq<ClockData>,
    n: int,
    start: int,
    init: u32,
    all: u32,
    clock: u32,
    k: int,
)
    requires
        0 <= k < n,
        s[sweep_pos(n, start, k)].enabled,
        !sweep_blocked(s, n, start, init, k),
        s[sweep_pos(n, start, k)].clockmask & !all == 0,
        clock != 0,
        sweep_mask(s, n, start, init, n) & all != 0 ==> is_submask(
            clock,
            sweep_mask(s, n, start, init, n),
        ),
    ensures
        s[sweep_pos(n, start, k)].clockmask & clock != 0,
        sweep_mask(s, n, start, init, n) & all != 0,
{
    let m = s[sweep_pos(n, start, k)].clockmask;
    let fin = sweep_mask(s, n, start, init, n);
    lemma_unblocked_keeps_final(s, n, start, init, k);
    assert(fin & m == fin && fin != 0 && m & !all == 0 ==> fin & all != 0) by (bit_vector);
    assert(clock & fin == clock && fin & m == fin && clock != 0 ==> m & clock != 0) by (bit_vector);
}

impl<C: ClockConfigs> View for ClockManagement<C> {
    type V = ManagerView;

    closed spec fn view(&self) -> ManagerView {
        ManagerView {
            clients: self.clients@,
            num_clients: self.num_clients,
            next_client: self.next_client,
            current_clock: self.current_clock,
            change_clock: self.change_clock,
            lock_count: self.lock_count,
            change_clockmask: self.change_clockmask,
            nolock_clockmask: self.nolock_clockmask,
            compute_counter: self.compute_counter,
            compute_mode: self.compute_mode,
            system_freq: self.system_freq,
            notices: self.notices@,
        }
    }
}

impl<C: ClockConfigs> ClockManagement<C> {
    pub closed spec fn spec_configs(&self) -> C {
        self.configs
    }

    /// Frequency at which the system runs on `clock`, or on the chip's
    /// default source while no source was picked.
    pub open spec fn frequency_on(configs: C, clock: u32) -> u32 {
        if clock == 0 {
            configs.spec_clock_frequency(configs.spec_default())
        } else {
            configs.spec_clock_frequency(clock)
        }
    }

    /// The manager's invariant, as its view shows it: the table is full
    /// size, each record obeys the chip's description, only enabled clients
    /// run or hold a lock, the lock count counts the holders, the lock-free
    /// mask intersects the running lock-free clients' masks, the clock is
    /// unpicked or one source, the frequency is the clock's, and every
    /// enabled client can run on the clock unless a change is pending.
    pub open spec fn view_invariant(configs: C, v: ManagerView) -> bool {
        let num = v.num_clients as int;
        &&& v.clients.len() == NUM_CLOCK_CLIENTS
        &&& v.num_clients <= NUM_CLOCK_CLIENTS
        &&& (v.next_client < v.num_clients || v.next_client == 0)
        &&& forall|i: int|
            0 <= i < NUM_CLOCK_CLIENTS ==> (#[trigger] v.clients[i]).client_index.index() == i
                && client_consistent(configs, v.clients[i])
        &&& forall|i: int| num <= i < NUM_CLOCK_CLIENTS ==> unregistered(#[trigger] v.clients[i])
        &&& forall|i: int|
            0 <= i < num ==> ((#[trigger] v.clients[i]).running ==> v.clients[i].enabled) && (
            v.clients[i].lock_held ==> v.clients[i].enabled)
        &&& v.lock_count == count_locked(v.clients, num)
        &&& v.nolock_clockmask == nolock_mask(v.clients, num)
        &&& (v.current_clock == 0 || is_source(v.current_clock, configs.spec_num_sources()))
        &&& forall|i: int|
            0 <= i < num ==> (#[trigger] v.clients[i]).enabled ==> (v.clients[i].clockmask
                & v.current_clock != 0 || v.change_clock)
        &&& v.system_freq == Self::frequency_on(configs, v.current_clock)
    }

    /// The manager's invariant.
    pub closed spec fn inv(&self) -> bool {
        let n = self.configs.spec_num_sources();
        let num = self.num_clients as int;
        &&& self.clients@.len() == NUM_CLOCK_CLIENTS
        &&& self.num_clients <= NUM_CLOCK_CLIENTS
        &&& (self.next_client < self.num_clients || self.next_client == 0)
        &&& forall|i: int|
            0 <= i < NUM_CLOCK_CLIENTS ==> (#[trigger] self.clients@[i]).client_index.index() == i
        &&& forall|i: int|
            0 <= i < NUM_CLOCK_CLIENTS ==> client_consistent(self.configs, #[trigger] self.clients@[i])
        &&& forall|i: int|
            num <= i < NUM_CLOCK_CLIENTS ==> unregistered(#[trigger] self.clients@[i])
        &&& forall|i: int|
            0 <= i < num ==> ((#[trigger] self.clients@[i]).running ==> self.clients@[i].enabled) && (
            self.clients@[i].lock_held ==> self.clients@[i].enabled)
        &&& self.lock_count == count_locked(self.clients@, num)
        &&& self.nolock_clockmask == nolock_mask(self.clients@, num)
        &&& (self.current_clock == 0 || is_source(self.current_clock, n))
        &&& forall|i: int|
            0 <= i < num ==> (#[trigger] self.clients@[i]).enabled ==> (self.clients@[i].clockmask
                & self.current_clock != 0 || self.change_clock)
        &&& self.system_freq == Self::frequency_on(self.configs, self.current_clock)
    }

    /// A manager for the chip that `configs` describes, with an empty table
    /// of clients, no source picked yet, and no lock held.
    pub fn new(configs: C) -> (r: Self)
        ensures
            r.inv(),
            r.well_formed(),
            r.spec_configs() == configs,
            forall|i: int| 0 <= i < NUM_CLOCK_CLIENTS ==> fresh_client(configs, #[trigger] r@.clients[i], i),
            r@.num_clients == 0,
            r@.next_client == 0,
            r@.current_clock == 0,
            !r@.compute_mode,
            r@.system_freq == Self::frequency_on(configs, 0),
            !r@.change_clock,
            r@.lock_count == 0,
            r@.change_clockmask == NO_CONSTRAINT,
            r@.nolock_clockmask == NO_CONSTRAINT,
            r@.compute_counter == 0,
            r@.notices == Seq::<Notice>::empty(),
    {
        proof {
            configs.lemma_consistent();
        }
        let all = configs.get_all_clocks();
        let max_freq = configs.get_max_freq();
        let default = configs.get_default();
        let system_freq = configs.get_clock_frequency(default);
        let mut clients: Vec<ClockData> = Vec::new();
        let mut i: usize = 0;
        while i < NUM_CLOCK_CLIENTS
            invariant
                i <= NUM_CLOCK_CLIENTS,
                clients@.len() == i,
                all == all_clocks(configs.spec_num_sources()),
                max_freq == configs.spec_max_freq(),
                configs.spec_clockmask(0, max_freq) == all,
                1 <= configs.spec_num_sources() <= 31,
                forall|j: int|
                    0 <= j < i ==> (#[trigger] clients@[j]).client_index.index() == j
                        && client_consistent(configs, clients@[j]) && unregistered(clients@[j])
                        && fresh_client(configs, clients@[j], j),
            decreases NUM_CLOCK_CLIENTS - i,
        {
            let d = ClockData::new(ClientIndex::new(i), all, max_freq);
            proof {
                let n = configs.spec_num_sources();
                assert(all & all == all) by (bit_vector);
                assert(all == all_clocks(n) ==> all & !all_clocks(n) == 0) by (bit_vector);
            }
            clients.push(d);
            i = i + 1;
        }
        ClockManagement {
            configs,
            clients,
            num_clients: 0,
            next_client: 0,
            current_clock: 0,
            change_clock: false,
            lock_count: 0,
            change_clockmask: NO_CONSTRAINT,
            nolock_clockmask: NO_CONSTRAINT,
            compute_counter: 0,
            compute_mode: false,
            system_freq,
            notices: Vec::new(),
        }
    }

    /// One sweep over the registered clients, from `next_client` round to
    /// the client before it, narrowing `init` by each enabled client's mask.
    /// Returns the narrowed mask, the intersection of `all` with the masks
    /// of the blocked clients, whether any was blocked, and the position of
    /// the first blocked one (else `next_client`).
    fn sweep(&self, init: u32, all: u32) -> (r: (u32, u32, bool, usize))
        requires
            self.inv(),
        ensures
            ({
                let (s, n, start) = (self.clients@, self.num_clients as int, self.next_client as int);
                &&& r.0 == sweep_mask(s, n, start, init, n)
                &&& r.1 == blocked_mask(s, n, start, init, all, n)
                &&& r.2 == any_blocked(s, n, start, init, n)
                &&& r.2 ==> exists|j: int|
                    0 <= j < n && r.3 == sweep_pos(n, start, j) && sweep_blocked(s, n, start, init, j)
                        && forall|i: int| 0 <= i < j ==> !#[trigger] sweep_blocked(s, n, start, init, i)
                &&& !r.2 ==> r.3 == self.next_client
            }),
    {
        let ghost s = self.clients@;
        let ghost start = self.next_client as int;
        let n = self.num_clients;
        let mut clockmask = init;
        let mut change_clockmask = all;
        let mut set_next_client = false;
        let mut first = self.next_client;
        let mut next = self.next_client;
        let ghost mut first_k: int = 0;
        let mut k: usize = 0;
        while k < n
            invariant
                self.inv(),
                s == self.clients@,
                n == self.num_clients,
                start == self.next_client,
                k <= n,
                k < n ==> next == sweep_pos(n as int, start, k as int),
                clockmask == sweep_mask(s, n as int, start, init, k as int),
                change_clockmask == blocked_mask(s, n as int, start, init, all, k as int),
                set_next_client == any_blocked(s, n as int, start, init, k as int),
                set_next_client ==> 0 <= first_k < k && first == sweep_pos(n as int, start, first_k)
                    && sweep_blocked(s, n as int, start, init, first_k) && forall|i: int|
                    0 <= i < first_k ==> !#[trigger] sweep_blocked(s, n as int, start, init, i),
                !set_next_client ==> first == start,
            decreases n - k,
        {
            let c = self.clients[next];
            assert(c == s[sweep_pos(n as int, start, k as int)]);
            if c.enabled {
                let next_clockmask = clockmask & c.clockmask;
                if next_clockmask == 0 {
                    if !set_next_client {
                        set_next_client = true;
                        first = next;
                        proof {
                            first_k = k as int;
                        }
                    }
                    change_clockmask = change_clockmask & c.clockmask;
                } else {
                    clockmask = next_clockmask;
                }
            }
            proof {
                if any_blocked(s, n as int, start, init, k + 1) && !any_blocked(s, n as int, start, init, k as int) {
                    let j = choose|j: int| 0 <= j < k + 1 && #[trigger] sweep_blocked(s, n as int, start, init, j);
                    assert(j == k);
                }
                if sweep_blocked(s, n as int, start, init, k as int) {
                    assert(any_blocked(s, n as int, start, init, k + 1));
                }
            }
            next = next + 1;
            if next >= n {
                next = 0;
            }
            k = k + 1;
        }
        (clockmask, change_clockmask, set_next_client, first)
    }

    /// Picks one source from `clockmask`: the compute source when compute
    /// speed is asked for and that source is acceptable; else the
    /// lowest-power source of the mask (the first set bit among the chip's
    /// sources). A mask that holds none of the chip's sources leaves the
    /// compute source. The second result says whether compute mode forced
    /// the choice.
    fn select_clock(&self, clockmask: u32) -> (r: (u32, bool))
        requires
            self.inv(),
        ensures
            ({
                let n = self.configs.spec_num_sources();
                let all = all_clocks(n);
                let compute = self.configs.spec_compute();
                &&& is_source(r.0, n)
                &&& r.1 == (self.compute_counter > 0 && clockmask & compute != 0)
                &&& r.1 ==> r.0 == compute
                &&& clockmask & all != 0 ==> is_submask(r.0, clockmask)
                &&& (!r.1 && clockmask & all != 0) ==> clockmask & ((r.0 - 1) as u32) == 0
                &&& clockmask & all == 0 ==> r.0 == compute
            }),
    {
        proof {
            self.configs.lemma_consistent();
        }
        let compute = self.configs.get_compute();
        let num_sources = self.configs.get_num_clock_sources();
        let ghost n = num_sources;
        let ghost all = all_clocks(n);
        proof {
            assert(is_source(compute, n) && clockmask & compute != 0 ==> compute & clockmask
                == compute) by (bit_vector);
            assert(is_source(compute, n) && clockmask & all == 0 ==> clockmask & compute == 0)
                by (bit_vector)
                requires
                    all == all_clocks(n),
            ;
        }
        if self.compute_counter > 0 && clockmask & compute != 0 {
            return (compute, true);
        }
        let mut clock = compute;
        let mut found = false;
        assert(clockmask & all_clocks(0) == 0) by (bit_vector);
        let mut i: u32 = 0;
        while i < num_sources && !found
            invariant
                n == num_sources,
                1 <= n <= 31,
                i <= n,
                is_source(clock, n),
                !found ==> clock == compute && clockmask & all_clocks(i) == 0,
                found ==> is_submask(clock, clockmask) && clockmask & ((clock - 1) as u32) == 0,
            decreases n - i + (if found { 0int } else { 1int }),
        {
            if (clockmask >> i) & 1 == 1 {
                clock = 1u32 << i;
                found = true;
                proof {
                    crate::mask::lemma_shift_is_source(i, n);
                    assert((clockmask >> i) & 1 == 1 && i < 31 ==> (1u32 << i) & clockmask == (1u32
                        << i)) by (bit_vector);
                    assert(clockmask & all_clocks(i) == 0 ==> clockmask & (((1u32 << i) - 1) as u32)
                        == 0) by (bit_vector);
                }
            } else {
                proof {
                    assert(clockmask & all_clocks(i) == 0 && (clockmask >> i) & 1 != 1 && i < 31
                        ==> clockmask & all_clocks((i + 1) as u32) == 0) by (bit_vector);
                }
                i = i + 1;
            }
        }
        proof {
            if found {
                assert(is_source(clock, n) && clock & clockmask == clock ==> clockmask & all != 0)
                    by (bit_vector)
                    requires
                        all == all_clocks(n),
                ;
            }
        }
        (clock, false)
    }

    /// The mask an arbitration pass starts from: the running lock-free
    /// clients' mask, less the sources that cannot be reached from the current
    /// one without passing through a source that those clients refuse.
    pub open spec fn pass_init(configs: C, v: ManagerView) -> u32 {
        let il = configs.spec_intermediates(v.current_clock);
        if il.intermediates != 0 && v.nolock_clockmask & il.intermediates == 0 {
            v.nolock_clockmask & !il.ends
        } else {
            v.nolock_clockmask
        }
    }

    /// No source at all can be reached without disturbing a running client.
    pub open spec fn pass_stuck(configs: C, v: ManagerView) -> bool {
        let il = configs.spec_intermediates(v.current_clock);
        il.intermediates != 0 && v.nolock_clockmask & il.intermediates == 0 && Self::pass_init(
            configs,
            v,
        ) == 0
    }

    /// The notices of a switch from the current clock to `clock`: running
    /// clients hear of a higher frequency before the switch, and of a lower
    /// one after it.
    pub open spec fn switch_notices(configs: C, old: ManagerView, clock: u32) -> Seq<Notice> {
        if clock != old.current_clock {
            let f = configs.spec_clock_frequency(clock);
            let n = old.num_clients as int;
            let before = if old.system_freq < f {
                configure_notices(old.clients, n, f)
            } else {
                Seq::empty()
            };
            let after = if old.system_freq > f {
                configure_notices(old.clients, n, f)
            } else {
                Seq::empty()
            };
            before.push(Notice::ChangeSystemClock { clock }) + after
        } else {
            Seq::empty()
        }
    }

    /// `states` is a run of arbitration passes, each from one state to the
    /// next, each begun with no lock held, and each after the first with a
    /// change pending.
    pub open spec fn pass_chain(configs: C, states: Seq<ManagerView>) -> bool {
        &&& states.len() >= 2
        &&& forall|j: int|
            0 <= j < states.len() - 1 ==> (#[trigger] states[j]).lock_count == 0 && (j == 0
                || states[j].change_clock) && Self::pass_result(configs, states[j], states[j + 1])
    }

    /// `new` is where arbitration from `old` stops: after at least one pass,
    /// once a lock is held, no change is pending, or every registered client
    /// had a pass.
    pub open spec fn settled(configs: C, old: ManagerView, new: ManagerView) -> bool {
        exists|states: Seq<ManagerView>|
            #[trigger] Self::pass_chain(configs, states) && states[0] == old && states.last() == new
                && (states.len() - 1 >= old.num_clients || new.lock_count != 0 || !new.change_clock)
    }

    /// Arbitration changes no client's `enabled` flag.
    pub proof fn lemma_settled_keeps_enabled(configs: C, old: ManagerView, new: ManagerView, i: int)
        requires
            Self::settled(configs, old, new),
            old.clients.len() == NUM_CLOCK_CLIENTS,
            0 <= i < NUM_CLOCK_CLIENTS,
        ensures
            new.clients.len() == NUM_CLOCK_CLIENTS,
            new.clients[i].enabled == old.clients[i].enabled,
    {
        let states = choose|states: Seq<ManagerView>|
            #[trigger] Self::pass_chain(configs, states) && states[0] == old && states.last() == new
                && (states.len() - 1 >= old.num_clients || new.lock_count != 0 || !new.change_clock);
        Self::lemma_chain_keeps_enabled(configs, states, states.len() - 1, i);
    }

    /// Arbitration leaves the clock as it was or on exactly one of the
    /// chip's sources.
    pub proof fn lemma_settled_single_source(configs: C, old: ManagerView, new: ManagerView)
        requires
            Self::settled(configs, old, new),
        ensures
            new.current_clock == old.current_clock || is_source(
                new.current_clock,
                configs.spec_num_sources(),
            ),
    {
        let states = choose|states: Seq<ManagerView>|
            #[trigger] Self::pass_chain(configs, states) && states[0] == old && states.last() == new
                && (states.len() - 1 >= old.num_clients || new.lock_count != 0 || !new.change_clock);
        Self::lemma_chain_single_source(configs, states, states.len() - 1);
    }

    proof fn lemma_chain_single_source(configs: C, states: Seq<ManagerView>, j: int)
        requires
            Self::pass_chain(configs, states),
            0 <= j < states.len(),
        ensures
            states[j].current_clock == states[0].current_clock || is_source(
                states[j].current_clock,
                configs.spec_num_sources(),
            ),
        decreases j,
    {
        if j > 0 {
            Self::lemma_chain_single_source(configs, states, j - 1);
            assert(Self::pass_result(configs, states[j - 1], states[j]));
        }
    }

    proof fn lemma_chain_keeps_enabled(configs: C, states: Seq<ManagerView>, j: int, i: int)
        requires
            Self::pass_chain(configs, states),
            0 <= j < states.len(),
            states[0].clients.len() == NUM_CLOCK_CLIENTS,
            0 <= i < NUM_CLOCK_CLIENTS,
        ensures
            states[j].clients.len() == NUM_CLOCK_CLIENTS,
            states[j].clients[i].enabled == states[0].clients[i].enabled,
        decreases j,
    {
        if j > 0 {
            Self::lemma_chain_keeps_enabled(configs, states, j - 1, i);
            assert(Self::pass_result(configs, states[j - 1], states[j]));
        }
    }

    /// `new` is the state after an arbitration pass from `old`.
    pub open spec fn pass_result(configs: C, old: ManagerView, new: ManagerView) -> bool {
        let s = old.clients;
        let n = old.num_clients as int;
        let start = old.next_client as int;
        let init = Self::pass_init(configs, old);
        let all = all_clocks(configs.spec_num_sources());
        let fin = sweep_mask(s, n, start, init, n);
        if Self::pass_stuck(configs, old) {
            new == ManagerView { change_clock: true, ..old }
        } else {
            &&& is_source(new.current_clock, configs.spec_num_sources())
            &&& new.clients.len() == old.clients.len()
            &&& forall|i: int|
                0 <= i < NUM_CLOCK_CLIENTS ==> #[trigger] new.clients[i] == granted(
                    s[i],
                    new.current_clock,
                )
            &&& new.change_clock == any_blocked(s, n, start, init, n)
            &&& new.change_clockmask == blocked_mask(s, n, start, init, all, n)
            &&& new.change_clock ==> exists|j: int|
                0 <= j < n && new.next_client == sweep_pos(n, start, j) && sweep_blocked(
                    s,
                    n,
                    start,
                    init,
                    j,
                ) && forall|i: int| 0 <= i < j ==> !#[trigger] sweep_blocked(s, n, start, init, i)
            &&& !new.change_clock ==> new.next_client == old.next_client
            &&& forall|i: int|
                0 <= i < n && #[trigger] s[i].enabled && !new.change_clock ==> s[i].clockmask
                    & new.current_clock != 0
            &&& (n > 0 && s[start].enabled && s[start].clockmask & init != 0) ==> s[start].clockmask
                & new.current_clock != 0
            &&& new.num_clients == old.num_clients
            &&& new.compute_counter == old.compute_counter
            &&& new.system_freq == Self::frequency_on(configs, new.current_clock)
            &&& new.compute_mode == (old.compute_counter > 0 && fin & configs.spec_compute() != 0)
            &&& new.compute_mode ==> new.current_clock == configs.spec_compute()
            &&& fin & all != 0 ==> is_submask(new.current_clock, fin)
            &&& (!new.compute_mode && fin & all != 0) ==> fin & ((new.current_clock - 1) as u32) == 0
            &&& fin & all == 0 ==> new.current_clock == configs.spec_compute()
            &&& forall|k: int|
                0 <= k < n && !#[trigger] sweep_blocked(s, n, start, init, k) && s[sweep_pos(
                    n,
                    start,
                    k,
                )].enabled ==> s[sweep_pos(n, start, k)].clockmask & new.current_clock != 0
            &&& new.notices == old.notices + Self::switch_notices(configs, old, new.current_clock)
                + grant_notices(s, n, new.current_clock, new.system_freq)
        }
    }

    /// One arbitration pass: picks one source for the enabled clients, with
    /// the client at `next_client` served first, switches to it, and grants
    /// the clock to every enabled client that can run on it.
    fn run_pass(&mut self)
        requires
            old(self).inv(),
            old(self).lock_count == 0,
        ensures
            final(self).inv(),
            final(self).configs == old(self).configs,
            Self::pass_result(old(self).configs, old(self)@, final(self)@),
    {
        proof {
            self.configs.lemma_consistent();
        }
        let ghost old_self = *self;
        let mut clockmask = self.nolock_clockmask;
        let current = self.current_clock;
        let intermediates = self.configs.get_intermediates_list(current);
        if intermediates.get_intermediates() != 0 && clockmask & intermediates.get_intermediates()
            == 0 {
            clockmask = clockmask & !intermediates.get_ends();
            if clockmask == 0 {
                self.change_clock = true;
                return;
            }
        }
        let all = self.configs.get_all_clocks();
        assert(clockmask == Self::pass_init(old_self.configs, old_self@));
        let (clockmask, change_clockmask, blocked, first) = self.sweep(clockmask, all);
        let (clock, compute_mode) = self.select_clock(clockmask);
        let ghost s = self.clients@;
        let ghost n = self.num_clients as int;
        let ghost start = self.next_client as int;
        let ghost init = Self::pass_init(old_self.configs, old_self@);
        proof {
            // every client the sweep leaves unblocked can run on the choice
            assert forall|k: int|
                0 <= k < n && !#[trigger] sweep_blocked(s, n, start, init, k) && s[sweep_pos(
                    n,
                    start,
                    k,
                )].enabled implies s[sweep_pos(n, start, k)].clockmask & clock != 0 by {
                assert(client_consistent(self.configs, s[sweep_pos(n, start, k)]));
                lemma_unblocked_runs_on_pick(s, n, start, init, all, clock, k);
            }
            assert forall|i: int| 0 <= i < n && #[trigger] s[i].enabled && !blocked implies s[i].clockmask
                & clock != 0 by {
                let k = if i >= start {
                    i - start
                } else {
                    n - start + i
                };
                assert(sweep_pos(n, start, k) == i);
                assert(!sweep_blocked(s, n, start, init, k));
            }
            if n > 0 && s[start].enabled && s[start].clockmask & init != 0 {
                assert(sweep_pos(n, start, 0) == start);
                crate::mask::lemma_and_comm(init, s[start].clockmask);
                assert(!sweep_blocked(s, n, start, init, 0));
            }
        }
        self.next_client = first;
        self.change_clock = blocked;
        self.change_clockmask = change_clockmask;
        self.compute_mode = compute_mode;
        if clock != self.current_clock {
            let frequency = self.configs.get_clock_frequency(clock);
            let current_freq = self.system_freq;
            if current_freq < frequency {
                notify_running(&self.clients, self.num_clients, frequency, &mut self.notices);
            }
            self.notices.push(Notice::ChangeSystemClock { clock });
            if current_freq > frequency {
                notify_running(&self.clients, self.num_clients, frequency, &mut self.notices);
            }
            self.system_freq = frequency;
        }
        self.current_clock = clock;
        // the pass holds the lock while it hands out the clock
        self.lock_count = 1;
        let frequency = self.system_freq;
        let num = self.num_clients;
        let mut i: usize = 0;
        proof {
            assert forall|j: int| 0 <= j < n implies !s[j].lock_held by {
                lemma_count_zero(s, n, j);
            }
        }
        while i < num
            invariant
                i <= num,
                num == self.num_clients,
                num <= NUM_CLOCK_CLIENTS,
                n == num,
                self.clients@.len() == NUM_CLOCK_CLIENTS,
                s.len() == NUM_CLOCK_CLIENTS,
                self.current_clock == clock,
                self.configs == old_self.configs,
                self.next_client == first,
                self.change_clock == blocked,
                self.change_clockmask == change_clockmask,
                self.compute_counter == old_self.compute_counter,
                self.compute_mode == compute_mode,
                self.system_freq == frequency,
                frequency == Self::frequency_on(self.configs, clock),
                forall|j: int| 0 <= j < n ==> !s[j].lock_held,
                forall|j: int| 0 <= j < i ==> #[trigger] self.clients@[j] == granted(s[j], clock),
                forall|j: int| i <= j < NUM_CLOCK_CLIENTS ==> #[trigger] self.clients@[j] == s[j],
                self.lock_count == 1 + count_locked(self.clients@, n),
                self.nolock_clockmask == nolock_mask(self.clients@, n),
                self.notices@ == old(self).notices@ + Self::switch_notices(
                    old_self.configs,
                    old_self@,
                    clock,
                ) + grant_notices(s, i as int, clock, frequency),
                count_locked(self.clients@, n) <= i,
            decreases num - i,
        {
            let mut c = self.clients[i];
            let ghost before = self.clients@;
            if c.enabled && clock & c.clockmask != 0 {
                if c.need_lock {
                    proof {
                        lemma_count_bound(before, i as int);
                    }
                    self.lock_count = self.lock_count + 1;
                    c.lock_held = true;
                    self.clients.set(i, c);
                    proof {
                        lemma_count_update(before, i as int, c, n);
                        lemma_nolock_update(before, i as int, c, n);
                    }
                    self.notices.push(Notice::ConfigureClock { client: i, frequency });
                    self.notices.push(Notice::ClockEnabled { client: i });
                } else if !c.running {
                    c.running = true;
                    self.nolock_clockmask = self.nolock_clockmask & c.clockmask;
                    self.clients.set(i, c);
                    proof {
                        lemma_count_update(before, i as int, c, n);
                        lemma_nolock_update(before, i as int, c, n);
                    }
                    self.notices.push(Notice::ConfigureClock { client: i, frequency });
                    self.notices.push(Notice::ClockEnabled { client: i });
                } else {
                    assert(granted(s[i as int], clock) == c);
                }
            } else {
                assert(granted(s[i as int], clock) == c);
            }
            assert(self.clients@[i as int] == granted(s[i as int], clock));
            proof {
                assert(grant_notices(s, i + 1, clock, frequency) =~= if s[i as int].enabled && clock
                    & s[i as int].clockmask != 0 && (s[i as int].need_lock || !s[i as int].running) {
                    grant_notices(s, i as int, clock, frequency).push(
                        Notice::ConfigureClock { client: i, frequency },
                    ).push(Notice::ClockEnabled { client: i })
                } else {
                    grant_notices(s, i as int, clock, frequency)
                });
            }
            i = i + 1;
        }
        self.lock_count = self.lock_count - 1;
        proof {
            assert forall|i: int| 0 <= i < NUM_CLOCK_CLIENTS implies client_consistent(
                self.configs,
                #[trigger] self.clients@[i],
            ) by {
                assert(client_consistent(old_self.configs, old_self.clients@[i]));
            }
            assert forall|i: int| 0 <= i < NUM_CLOCK_CLIENTS implies #[trigger] self.clients@[i]
                == granted(s[i], self.current_clock) by {
                if i >= n {
                    assert(unregistered(old_self.clients@[i]));
                }
            }
        }
    }

    /// Arbitration: passes follow one another while no lock is held and a
    /// change is still pending, at most one pass per registered client (and
    /// at least one pass).
    fn update_clock(&mut self)
        requires
            old(self).inv(),
            old(self).lock_count == 0,
        ensures
            final(self).inv(),
            final(self).configs == old(self).configs,
            Self::settled(old(self).configs, old(self)@, final(self)@),
    {
        let ghost start = self@;
        let ghost configs = self.configs;
        self.run_pass();
        let mut passes: usize = 1;
        let ghost mut states = seq![start, self@];
        while passes < self.num_clients && self.lock_count == 0 && self.change_clock
            invariant
                self.inv(),
                self.configs == configs,
                self.num_clients == start.num_clients,
                1 <= passes,
                states.len() == passes + 1,
                Self::pass_chain(configs, states),
                states[0] == start,
                states.last() == self@,
            decreases self.num_clients - passes,
        {
            let ghost before = self@;
            self.run_pass();
            proof {
                let next = states.push(self@);
                assert forall|j: int| 0 <= j < next.len() - 1 implies (#[trigger] next[j]).lock_count
                    == 0 && (j == 0 || next[j].change_clock) && Self::pass_result(
                    configs,
                    next[j],
                    next[j + 1],
                ) by {
                    if j < states.len() - 1 {
                        assert(next[j] == states[j] && next[j + 1] == states[j + 1]);
                    }
                }
                states = next;
            }
            passes = passes + 1;
        }
        proof {
            assert(Self::pass_chain(configs, states));
        }
    }

    /// Intersection of the masks of the running clients that need no lock,
    /// computed afresh.
    fn running_nolock_mask(&self) -> (r: u32)
        requires
            self.clients@.len() == NUM_CLOCK_CLIENTS,
            self.num_clients <= NUM_CLOCK_CLIENTS,
        ensures
            r == nolock_mask(self.clients@, self.num_clients as int),
    {
        let mut new_clockmask: u32 = NO_CONSTRAINT;
        let mut i: usize = 0;
        while i < self.num_clients
            invariant
                i <= self.num_clients,
                self.num_clients <= self.clients@.len(),
                new_clockmask == nolock_mask(self.clients@, i as int),
            decreases self.num_clients - i,
        {
            let c = self.clients[i];
            if !c.need_lock && c.running {
                new_clockmask = new_clockmask & c.clockmask;
            } else {
                proof {
                    assert(new_clockmask & 0xffff_ffffu32 == new_clockmask) by (bit_vector);
                }
            }
            i = i + 1;
        }
        new_clockmask
    }

    /// `d` with its acceptable mask recomputed from its declared list and
    /// frequency range.
    fn update_clockmask(&self, d: ClockData) -> (r: ClockData)
        ensures
            r == (ClockData {
                clockmask: d.clocklist & self.configs.spec_clockmask(d.min_freq, d.max_freq),
                ..d
            }),
            client_consistent(self.configs, r),
    {
        proof {
            self.configs.lemma_consistent();
            crate::hil::lemma_range_within(
                |c: u32| self.configs.spec_clock_frequency(c),
                d.min_freq,
                d.max_freq,
                self.configs.spec_num_sources(),
            );
        }
        let freq_clockmask = self.configs.get_clockmask(d.min_freq, d.max_freq);
        proof {
            let all = all_clocks(self.configs.spec_num_sources());
            let l = d.clocklist;
            assert(freq_clockmask & !all == 0 ==> (l & freq_clockmask) & !all == 0) by (bit_vector);
        }
        ClockData { clockmask: d.clocklist & freq_clockmask, ..d }
    }

    /// Stores a new record for the registered client `i` whose state flags
    /// are unchanged, and brings the lock-free mask and the pending flag up
    /// to date with it.
    fn replace_client(&mut self, i: usize, c: ClockData)
        requires
            old(self).inv(),
            i < old(self).num_clients,
            c.client_index == old(self).clients@[i as int].client_index,
            c.enabled == old(self).clients@[i as int].enabled,
            c.running == old(self).clients@[i as int].running,
            c.lock_held == old(self).clients@[i as int].lock_held,
            client_consistent(old(self).configs, c),
        ensures
            final(self).inv(),
            final(self).configs == old(self).configs,
            Self::reconfigured(old(self)@, final(self)@, i as int, c),
    {
        let ghost before = self.clients@;
        self.clients.set(i, c);
        proof {
            lemma_count_update(before, i as int, c, self.num_clients as int);
        }
        self.nolock_clockmask = self.running_nolock_mask();
        if c.enabled && c.clockmask & self.current_clock == 0 {
            self.change_clock = true;
        }
        proof {
            assert(client_consistent(self.configs, before[i as int]));
            lemma_record_replaced(self.configs, before, self.clients@, i as int);
        }
    }
}

impl<C: ClockConfigs> ClockManagement<C> {
    pub open spec fn valid(&self, client_index: ClientIndex) -> bool {
        client_index.index() < self@.num_clients
    }

    /// `new` is `old` with the record of client `i` replaced by `c`, the
    /// lock-free mask recomputed, and a change flagged if `c` is enabled
    /// and cannot run on the current clock.
    pub open spec fn reconfigured(old: ManagerView, new: ManagerView, i: int, c: ClockData) -> bool {
        let clients = old.clients.update(i, c);
        new == ManagerView {
            clients,
            nolock_clockmask: nolock_mask(clients, old.num_clients as int),
            change_clock: old.change_clock || (c.enabled && c.clockmask & old.current_clock == 0),
            ..old
        }
    }

    /// What `enable_clock` does for the registered client `i` that was not
    /// enabled.
    pub open spec fn enable_effect(configs: C, old: ManagerView, new: ManagerView, i: int) -> bool {
        let c = old.clients[i];
        let ce = ClockData { enabled: true, ..c };
        let narrowed = old.change_clockmask & c.clockmask;
        if c.clockmask & old.current_clock == 0 {
            // the current clock does not suit the client: a change is due
            let mid = ManagerView {
                clients: old.clients.update(i, ce),
                change_clock: true,
                change_clockmask: narrowed,
                ..old
            };
            if old.lock_count == 0 {
                Self::settled(configs, mid, new)
            } else {
                new == mid
            }
        } else if !c.need_lock {
            if old.nolock_clockmask & c.clockmask & old.change_clockmask != 0 {
                new == ManagerView {
                    clients: old.clients.update(i, ClockData { enabled: true, running: true, ..c }),
                    nolock_clockmask: old.nolock_clockmask & c.clockmask,
                    notices: old.notices.push(Notice::ClockEnabled { client: i as usize }),
                    ..old
                }
            } else {
                new == ManagerView {
                    clients: old.clients.update(i, ce),
                    change_clock: true,
                    change_clockmask: narrowed,
                    ..old
                }
            }
        } else if !old.change_clock {
            new == ManagerView {
                clients: old.clients.update(i, ClockData { enabled: true, lock_held: true, ..c }),
                lock_count: (old.lock_count + 1) as u32,
                notices: old.notices.push(Notice::ClockEnabled { client: i as usize }),
                ..old
            }
        } else {
            new == ManagerView {
                clients: old.clients.update(i, ce),
                change_clockmask: narrowed,
                ..old
            }
        }
    }

    /// What `enable_clock` does for the registered client `i`: a client
    /// already enabled is told again that its clock runs, and nothing else
    /// changes; the result is the system frequency afterwards.
    pub open spec fn enable_post(
        configs: C,
        old: ManagerView,
        new: ManagerView,
        i: int,
        r: Result<u32, ReturnCode>,
    ) -> bool {
        &&& r == Ok::<u32, ReturnCode>(new.system_freq)
        &&& old.clients[i].enabled ==> new == ManagerView {
            notices: old.notices.push(Notice::ClockEnabled { client: i as usize }),
            ..old
        }
        &&& !old.clients[i].enabled ==> Self::enable_effect(configs, old, new, i)
    }

    /// What `disable_clock` does for the registered client `i` that was
    /// enabled.
    pub open spec fn disable_effect(configs: C, old: ManagerView, new: ManagerView, i: int) -> bool {
        let c = old.clients[i];
        let cd = ClockData { enabled: false, running: false, lock_held: false, ..c };
        let clients = old.clients.update(i, cd);
        let mid = ManagerView {
            clients,
            lock_count: if c.lock_held {
                (old.lock_count - 1) as u32
            } else {
                old.lock_count
            },
            nolock_clockmask: nolock_mask(clients, old.num_clients as int),
            ..old
        };
        if mid.lock_count == 0 {
            Self::settled(configs, ManagerView { change_clock: true, ..mid }, new)
        } else {
            new == mid
        }
    }
}

impl<C: ClockConfigs> ClockManager for ClockManagement<C> {
    open spec fn well_formed(&self) -> bool {
        &&& self.inv()
        &&& Self::view_invariant(self.spec_configs(), self@)
    }

    fn register(&mut self) -> (r: Result<ClientIndex, ReturnCode>)
        ensures
            old(self)@.num_clients >= NUM_CLOCK_CLIENTS ==> r == Err::<ClientIndex, ReturnCode>(
                ReturnCode::ENOMEM,
            ) && final(self)@ == old(self)@,
            old(self)@.num_clients < NUM_CLOCK_CLIENTS ==> r is Ok && r->Ok_0.index()
                == old(self)@.num_clients && final(self)@ == (ManagerView {
                num_clients: (old(self)@.num_clients + 1) as usize,
                ..old(self)@
            }),
            final(self).spec_configs() == old(self).spec_configs(),
    {
        let num_clients = self.num_clients;
        if num_clients >= NUM_CLOCK_CLIENTS {
            return Err(ReturnCode::ENOMEM);
        }
        let retval = self.clients[num_clients].client_index;
        self.num_clients = num_clients + 1;
        proof {
            let s = self.clients@;
            assert(unregistered(s[num_clients as int]));
            assert(count_locked(s, num_clients + 1) == count_locked(s, num_clients as int));
            let m = nolock_mask(s, num_clients as int);
            assert(m & 0xffff_ffffu32 == m) by (bit_vector);
            assert(retval.index() == num_clients);
        }
        Ok(retval)
    }

    fn enable_clock(&mut self, cidx: ClientIndex) -> (r: Result<u32, ReturnCode>)
        ensures
            !old(self).valid(cidx) ==> r == Err::<u32, ReturnCode>(ReturnCode::EINVAL) && final(self)@
                == old(self)@,
            old(self).valid(cidx) ==> Self::enable_post(
                old(self).spec_configs(),
                old(self)@,
                final(self)@,
                cidx.index() as int,
                r,
            ),
            final(self).spec_configs() == old(self).spec_configs(),
    {
        proof {
            self.configs.lemma_consistent();
        }
        let client_index = cidx.get_index();
        if client_index >= self.num_clients {
            return Err(ReturnCode::EINVAL);
        }
        let c = self.clients[client_index];
        if c.enabled {
            self.notices.push(Notice::ClockEnabled { client: client_index });
            return Ok(self.system_freq);
        }
        let ghost old_view = self@;
        let ghost before = self.clients@;
        let i = client_index;
        let client_clocks = c.clockmask;
        let next_clockmask = self.change_clockmask & client_clocks;
        let current_clock = self.current_clock;
        let ce = ClockData { enabled: true, ..c };
        proof {
            lemma_count_update(before, i as int, ce, self.num_clients as int);
            lemma_nolock_update(before, i as int, ce, self.num_clients as int);
        }
        if client_clocks & current_clock == 0 {
            self.clients.set(i, ce);
            self.change_clock = true;
            self.change_clockmask = next_clockmask;
            proof {
                assert(client_consistent(self.configs, before[i as int]));
                lemma_record_replaced(self.configs, before, self.clients@, i as int);
            }
            if self.lock_count == 0 {
                self.update_clock();
            }
        } else if !c.need_lock {
            let nolock_clockmask = self.nolock_clockmask & client_clocks;
            if nolock_clockmask & self.change_clockmask != 0 {
                let cr = ClockData { enabled: true, running: true, ..c };
                proof {
                    lemma_count_update(before, i as int, cr, self.num_clients as int);
                    lemma_nolock_update(before, i as int, cr, self.num_clients as int);
                }
                self.clients.set(i, cr);
                self.nolock_clockmask = nolock_clockmask;
                self.notices.push(Notice::ClockEnabled { client: i });
            } else {
                self.clients.set(i, ce);
                self.change_clockmask = next_clockmask;
                self.change_clock = true;
            }
        } else if !self.change_clock {
            let cl = ClockData { enabled: true, lock_held: true, ..c };
            proof {
                lemma_count_update(before, i as int, cl, self.num_clients as int);
                lemma_nolock_update(before, i as int, cl, self.num_clients as int);
                lemma_count_bound(before, self.num_clients as int);
            }
            self.lock_count = self.lock_count + 1;
            self.clients.set(i, cl);
            self.notices.push(Notice::ClockEnabled { client: i });
        } else {
            self.clients.set(i, ce);
            self.change_clockmask = next_clockmask;
        }
        proof {
            if client_clocks & current_clock != 0 {
                assert(client_consistent(self.configs, before[i as int]));
                assert(self.clients@ =~= before.update(i as int, self.clients@[i as int]));
                lemma_record_replaced(self.configs, before, self.clients@, i as int);
            }
        }
        Ok(self.system_freq)
    }

    fn disable_clock(&mut self, cidx: ClientIndex) -> (r: ReturnCode)
        ensures
            !old(self).valid(cidx) ==> r == ReturnCode::EINVAL && final(self)@ == old(self)@,
            old(self).valid(cidx) ==> r == ReturnCode::SUCCESS,
            old(self).valid(cidx) && !old(self)@.clients[cidx.index() as int].enabled ==> final(self)@ == old(self)@,
            old(self).valid(cidx) && old(self)@.clients[cidx.index() as int].enabled
                ==> Self::disable_effect(old(self).spec_configs(), old(self)@, final(self)@, cidx.index() as int),
            final(self).spec_configs() == old(self).spec_configs(),
    {
        let client_index = cidx.get_index();
        if client_index >= self.num_clients {
            return ReturnCode::EINVAL;
        }
        let c = self.clients[client_index];
        if !c.enabled {
            return ReturnCode::SUCCESS;
        }
        let ghost before = self.clients@;
        let i = client_index;
        let cd = ClockData { enabled: false, running: false, lock_held: false, ..c };
        proof {
            lemma_count_update(before, i as int, cd, self.num_clients as int);
        }
        self.clients.set(i, cd);
        if c.lock_held {
            self.lock_count = self.lock_count - 1;
        }
        self.nolock_clockmask = self.running_nolock_mask();
        proof {
            assert(client_consistent(self.configs, before[i as int]));
            lemma_record_replaced(self.configs, before, self.clients@, i as int);
        }
        if self.lock_count == 0 {
            self.change_clock = true;
            self.update_clock();
        }
        ReturnCode::SUCCESS
    }

    fn set_need_lock(&mut self, cidx: ClientIndex, need_lock: bool) -> (r: ReturnCode)
        ensures
            !old(self).valid(cidx) ==> r == ReturnCode::EINVAL && final(self)@ == old(self)@,
            old(self).valid(cidx) ==> r == ReturnCode::SUCCESS && Self::reconfigured(
                old(self)@,
                final(self)@,
                cidx.index() as int,
                ClockData { need_lock, ..old(self)@.clients[cidx.index() as int] },
            ),
            final(self).spec_configs() == old(self).spec_configs(),
    {
        let client_index = cidx.get_index();
        if client_index >= self.num_clients {
            return ReturnCode::EINVAL;
        }
        let c = self.clients[client_index];
        self.replace_client(client_index, ClockData { need_lock, ..c });
        ReturnCode::SUCCESS
    }

    fn set_clocklist(&mut self, cidx: ClientIndex, clocklist: u32) -> (r: ReturnCode)
        ensures
            !old(self).valid(cidx) ==> r == ReturnCode::EINVAL && final(self)@ == old(self)@,
            old(self).valid(cidx) ==> r == ReturnCode::SUCCESS && ({
                let c = old(self)@.clients[cidx.index() as int];
                Self::reconfigured(
                    old(self)@,
                    final(self)@,
                    cidx.index() as int,
                    ClockData {
                        clocklist: clocklist,
                        clockmask: clocklist & old(self).spec_configs().spec_clockmask(c.min_freq, c.max_freq),
                        ..c
                    },
                )
            }),
            final(self).spec_configs() == old(self).spec_configs(),
    {
        let client_index = cidx.get_index();
        if client_index >= self.num_clients {
            return ReturnCode::EINVAL;
        }
        let c = self.clients[client_index];
        let d = self.update_clockmask(ClockData { clocklist, ..c });
        self.replace_client(client_index, d);
        ReturnCode::SUCCESS
    }

    fn set_min_frequency(&mut self, cidx: ClientIndex, min_freq: u32) -> (r: ReturnCode)
        ensures
            !old(self).valid(cidx) ==> r == ReturnCode::EINVAL && final(self)@ == old(self)@,
            old(self).valid(cidx) ==> r == ReturnCode::SUCCESS && ({
                let c = old(self)@.clients[cidx.index() as int];
                Self::reconfigured(
                    old(self)@,
                    final(self)@,
                    cidx.index() as int,
                    ClockData {
                        min_freq: min_freq,
                        clockmask: c.clocklist & old(self).spec_configs().spec_clockmask(min_freq, c.max_freq),
                        ..c
                    },
                )
            }),
            final(self).spec_configs() == old(self).spec_configs(),
    {
        let client_index = cidx.get_index();
        if client_index >= self.num_clients {
            return ReturnCode::EINVAL;
        }
        let c = self.clients[client_index];
        let d = self.update_clockmask(ClockData { min_freq, ..c });
        self.replace_client(client_index, d);
        ReturnCode::SUCCESS
    }

    fn set_max_frequency(&mut self, cidx: ClientIndex, max_freq: u32) -> (r: ReturnCode)
        ensures
            !old(self).valid(cidx) ==> r == ReturnCode::EINVAL && final(self)@ == old(self)@,
            old(self).valid(cidx) ==> r == ReturnCode::SUCCESS && ({
                let c = old(self)@.clients[cidx.index() as int];
                Self::reconfigured(
                    old(self)@,
                    final(self)@,
                    cidx.index() as int,
                    ClockData {
                        max_freq: max_freq,
                        clockmask: c.clocklist & old(self).spec_configs().spec_clockmask(c.min_freq, max_freq),
                        ..c
                    },
                )
            }),
            final(self).spec_configs() == old(self).spec_configs(),
    {
        let client_index = cidx.get_index();
        if client_index >= self.num_clients {
            return ReturnCode::EINVAL;
        }
        let c = self.clients[client_index];
        let d = self.update_clockmask(ClockData { max_freq, ..c });
        self.replace_client(client_index, d);
        ReturnCode::SUCCESS
    }

    fn get_need_lock(&self, cidx: ClientIndex) -> (r: Result<bool, ReturnCode>)
        ensures
            !self.valid(cidx) ==> r == Err::<bool, ReturnCode>(ReturnCode::EINVAL),
            self.valid(cidx) ==> r == Ok::<bool, ReturnCode>(
                self@.clients[cidx.index() as int].need_lock,
            ),
    {
        let client_index = cidx.get_index();
        if client_index >= self.num_clients {
            return Err(ReturnCode::EINVAL);
        }
        Ok(self.clients[client_index].need_lock)
    }

    fn get_clocklist(&self, cidx: ClientIndex) -> (r: Result<u32, ReturnCode>)
        ensures
            !self.valid(cidx) ==> r == Err::<u32, ReturnCode>(ReturnCode::EINVAL),
            self.valid(cidx) ==> r == Ok::<u32, ReturnCode>(
                self@.clients[cidx.index() as int].clocklist,
            ),
    {
        let client_index = cidx.get_index();
        if client_index >= self.num_clients {
            return Err(ReturnCode::EINVAL);
        }
        Ok(self.clients[client_index].clocklist)
    }

    fn get_min_frequency(&self, cidx: ClientIndex) -> (r: Result<u32, ReturnCode>)
        ensures
            !self.valid(cidx) ==> r == Err::<u32, ReturnCode>(ReturnCode::EINVAL),
            self.valid(cidx) ==> r == Ok::<u32, ReturnCode>(
                self@.clients[cidx.index() as int].min_freq,
            ),
    {
        let client_index = cidx.get_index();
        if client_index >= self.num_clients {
            return Err(ReturnCode::EINVAL);
        }
        Ok(self.clients[client_index].min_freq)
    }

    fn get_max_frequency(&self, cidx: ClientIndex) -> (r: Result<u32, ReturnCode>)
        ensures
            !self.valid(cidx) ==> r == Err::<u32, ReturnCode>(ReturnCode::EINVAL),
            self.valid(cidx) ==> r == Ok::<u32, ReturnCode>(
                self@.clients[cidx.index() as int].max_freq,
            ),
    {
        let client_index = cidx.get_index();
        if client_index >= self.num_clients {
            return Err(ReturnCode::EINVAL);
        }
        Ok(self.clients[client_index].max_freq)
    }
}

impl<C: ClockConfigs> ClockManagement<C> {
    /// What `set_compute_mode` does: it counts the clients that ask for
    /// compute speed. The first such request runs arbitration at once when
    /// no lock is held and the clock is not the compute source already;
    /// withdrawing the last request flags a change when compute mode forced
    /// the current choice, so that a lower-power source can be picked again.
    pub open spec fn compute_mode_effect(
        configs: C,
        old: ManagerView,
        new: ManagerView,
        compute_mode: bool,
    ) -> bool {
        if compute_mode {
            let counted = ManagerView {
                compute_counter: if old.compute_counter < u32::MAX {
                    (old.compute_counter + 1) as u32
                } else {
                    old.compute_counter
                },
                ..old
            };
            if old.lock_count == 0 && old.compute_counter == 0 && old.current_clock
                != configs.spec_compute() {
                Self::settled(configs, counted, new)
            } else {
                new == counted
            }
        } else {
            let counted = ManagerView {
                compute_counter: if old.compute_counter > 0 {
                    (old.compute_counter - 1) as u32
                } else {
                    0
                },
                ..old
            };
            if old.compute_counter == 1 && old.compute_mode {
                new == ManagerView { change_clock: true, ..counted }
            } else {
                new == counted
            }
        }
    }
}

impl<C: ClockConfigs> ChangeClock for ClockManagement<C> {
    fn change_clock(&mut self)
        ensures
            (old(self)@.lock_count == 0 && old(self)@.change_clock) ==> Self::settled(
                old(self).spec_configs(),
                old(self)@,
                final(self)@,
            ),
            !(old(self)@.lock_count == 0 && old(self)@.change_clock) ==> final(self)@ == old(self)@,
            final(self).spec_configs() == old(self).spec_configs(),
    {
        if self.lock_count == 0 && self.change_clock {
            self.update_clock();
        }
    }

    fn set_compute_mode(&mut self, compute_mode: bool)
        ensures
            Self::compute_mode_effect(old(self).spec_configs(), old(self)@, final(self)@, compute_mode),
            final(self).spec_configs() == old(self).spec_configs(),
    {
        proof {
            self.configs.lemma_consistent();
        }
        let compute_counter = self.compute_counter;
        let current_clock = self.current_clock;
        if compute_mode {
            if compute_counter < u32::MAX {
                self.compute_counter = compute_counter + 1;
            }
            if self.lock_count == 0 && compute_counter == 0 && current_clock
                != self.configs.get_compute() {
                self.update_clock();
            }
        } else {
            if compute_counter > 0 {
                self.compute_counter = compute_counter - 1;
            }
            if compute_counter == 1 && self.compute_mode {
                self.change_clock = true;
            }
        }
    }
}

impl<C: ClockConfigs> ClockManagement<C> {
    /// The notices queued since the last call, oldest first; the queue is
    /// left empty.
    pub fn take_notices(&mut self) -> (r: Vec<Notice>)
        requires
            old(self).inv(),
        ensures
            final(self).inv(),
            r@ == old(self)@.notices,
            final(self)@ == (ManagerView { notices: Seq::empty(), ..old(self)@ }),
            final(self).spec_configs() == old(self).spec_configs(),
    {
        let mut taken: Vec<Notice> = Vec::new();
        std::mem::swap(&mut taken, &mut self.notices);
        taken
    }

    /// The source the system clock runs on (a one-bit mask), or 0 before
    /// the first arbitration pass.
    pub fn get_current_clock(&self) -> (r: u32)
        ensures
            r == self@.current_clock,
    {
        self.current_clock
    }

    /// Frequency in Hz at which the system clock runs.
    pub fn get_system_frequency(&self) -> (r: u32)
        ensures
            r == self@.system_freq,
    {
        self.system_freq
    }

    pub fn get_lock_count(&self) -> (r: u32)
        ensures
            r == self@.lock_count,
    {
        self.lock_count
    }

    /// An arbitration pass is due.
    pub fn is_change_pending(&self) -> (r: bool)
        ensures
            r == self@.change_clock,
    {
        self.change_clock
    }

    /// The sources that the next change is restricted to.
    pub fn get_change_clockmask(&self) -> (r: u32)
        ensures
            r == self@.change_clockmask,
    {
        self.change_clockmask
    }

    /// The client the next arbitration sweep starts at.
    pub fn get_next_client(&self) -> (r: usize)
        ensures
            r == self@.next_client,
    {
        self.next_client
    }

    pub fn get_num_clients(&self) -> (r: usize)
        ensures
            r == self@.num_clients,
    {
        self.num_clients
    }

    /// The record of client `cidx`.
    pub fn get_client(&self, cidx: ClientIndex) -> (r: Result<ClockData, ReturnCode>)
        requires
            self.inv(),
        ensures
            !self.valid(cidx) ==> r == Err::<ClockData, ReturnCode>(ReturnCode::EINVAL),
            self.valid(cidx) ==> r == Ok::<ClockData, ReturnCode>(
                self@.clients[cidx.index() as int],
            ),
    {
        let client_index = cidx.get_index();
        if client_index >= self.num_clients {
            return Err(ReturnCode::EINVAL);
        }
        Ok(self.clients[client_index])
    }
}

/// A source acceptable to every enabled client is acceptable to the running
/// lock-free ones.
proof fn lemma_nolock_keeps_shared(s: Seq<ClockData>, k: int, src: u32)
    requires
        k <= s.len(),
        forall|i: int| 0 <= i < k ==> ((#[trigger] s[i]).running ==> s[i].enabled),
        forall|i: int| 0 <= i < k && #[trigger] s[i].enabled ==> is_submask(src, s[i].clockmask),
    ensures
        is_submask(src, nolock_mask(s, k)),
    decreases k,
{
    if k <= 0 {
        assert(src & 0xffff_ffffu32 == src) by (bit_vector);
    } else {
        lemma_nolock_keeps_shared(s, k - 1, src);
        let a = nolock_mask(s, k - 1);
        let t = nolock_term(s[k - 1]);
        if s[k - 1].running && !s[k - 1].need_lock {
            assert(is_submask(src, s[k - 1].clockmask));
        }
        assert(src & t == src || t == 0xffff_ffffu32);
        assert(src & a == src && (src & t == src || t == 0xffff_ffffu32) ==> src & (a & t) == src)
            by (bit_vector);
    }
}

impl<C: ClockConfigs> ClockManagement<C> {
    /// Every client's acceptable mask is its declared list narrowed to the
    /// sources whose frequency lies in its range.
    pub proof fn lemma_mask_consistency(&self, i: int)
        requires
            self.well_formed(),
            0 <= i < NUM_CLOCK_CLIENTS,
        ensures
            ({
                let c = self@.clients[i];
                let configs = self.spec_configs();
                &&& c.clockmask == c.clocklist & configs.spec_clockmask(c.min_freq, c.max_freq)
                &&& c.clockmask == c.clocklist & range_mask(
                    |f: u32| configs.spec_clock_frequency(f),
                    c.min_freq,
                    c.max_freq,
                    configs.spec_num_sources(),
                )
            }),
    {
        self.configs.lemma_consistent();
        assert(client_consistent(self.configs, self.clients@[i]));
    }

    /// The system clock is either not yet picked (0) or exactly one of the
    /// chip's sources: its population count is one.
    pub proof fn lemma_single_source(&self)
        requires
            self.well_formed(),
        ensures
            self@.current_clock == 0 || is_source(
                self@.current_clock,
                self.spec_configs().spec_num_sources(),
            ),
    {
    }

    /// An arbitration pass that can reach some source leaves exactly one
    /// source selected.
    pub proof fn lemma_pass_selects_one_source(configs: C, old: ManagerView, new: ManagerView)
        requires
            Self::pass_result(configs, old, new),
            !Self::pass_stuck(configs, old),
        ensures
            is_source(new.current_clock, configs.spec_num_sources()),
    {
    }

    /// Every enabled client can run on the current clock, or a change is
    /// pending.
    pub proof fn lemma_enabled_compatible_or_pending(&self, i: int)
        requires
            self.well_formed(),
            0 <= i < self@.num_clients,
            self@.clients[i].enabled,
        ensures
            self@.clients[i].clockmask & self@.current_clock != 0 || self@.change_clock,
    {
    }

    /// After a pass that found some candidate source, an enabled client
    /// can run on the clock picked exactly when the sweep did not block it,
    /// and a blocked client leaves a change pending.
    pub proof fn lemma_compatible_iff_unblocked(
        configs: C,
        old: ManagerView,
        new: ManagerView,
        k: int,
    )
        requires
            Self::pass_result(configs, old, new),
            !Self::pass_stuck(configs, old),
            0 <= k < old.num_clients,
            old.clients[sweep_pos(old.num_clients as int, old.next_client as int, k)].enabled,
            sweep_mask(
                old.clients,
                old.num_clients as int,
                old.next_client as int,
                Self::pass_init(configs, old),
                old.num_clients as int,
            ) & all_clocks(configs.spec_num_sources()) != 0,
        ensures
            ({
                let (s, n, start) = (old.clients, old.num_clients as int, old.next_client as int);
                let blocked = sweep_blocked(s, n, start, Self::pass_init(configs, old), k);
                &&& (s[sweep_pos(n, start, k)].clockmask & new.current_clock != 0) == !blocked
                &&& blocked ==> new.change_clock
            }),
    {
        let s = old.clients;
        let n = old.num_clients as int;
        let start = old.next_client as int;
        let init = Self::pass_init(configs, old);
        if sweep_blocked(s, n, start, init, k) {
            assert(any_blocked(s, n, start, init, n));
            lemma_sweep_narrows(s, n, start, init, k, n);
            let fin = sweep_mask(s, n, start, init, n);
            let p = sweep_mask(s, n, start, init, k);
            let m = s[sweep_pos(n, start, k)].clockmask;
            let c = new.current_clock;
            assert(c & fin == c && fin & p == fin && p & m == 0 ==> m & c == 0) by (bit_vector);
        }
    }

    /// Round robin over clients that share no source: when every one of `N`
    /// registered clients is enabled, their masks are nonempty and pairwise
    /// disjoint, no lock-free client runs before each pass, and each pass
    /// starts at the cursor the one before it left, then `N` passes serve
    /// every client once: the cursor moves on by one client per pass.
    pub proof fn lemma_round_robin_disjoint(
        configs: C,
        pre: Seq<ManagerView>,
        post: Seq<ManagerView>,
        masks: Seq<u32>,
    )
        requires
            masks.len() >= 1,
            pre.len() == masks.len(),
            post.len() == masks.len(),
            forall|i: int| 0 <= i < masks.len() ==> #[trigger] masks[i] != 0,
            forall|i: int, j: int|
                0 <= i < masks.len() && 0 <= j < masks.len() && i != j ==> #[trigger] masks[i]
                    & #[trigger] masks[j] == 0,
            forall|p: int|
                0 <= p < masks.len() ==> Self::pass_result(configs, #[trigger] pre[p], post[p]),
            forall|p: int|
                0 <= p < masks.len() ==> {
                    &&& (#[trigger] pre[p]).num_clients == masks.len()
                    &&& pre[p].clients.len() >= masks.len()
                    &&& pre[p].next_client < masks.len()
                    &&& pre[p].nolock_clockmask == NO_CONSTRAINT
                    &&& forall|i: int|
                        0 <= i < masks.len() ==> (#[trigger] pre[p].clients[i]).enabled
                            && pre[p].clients[i].clockmask == masks[i]
                },
            forall|p: int|
                0 <= p < masks.len() - 1 ==> (#[trigger] pre[p + 1]).next_client
                    == post[p].next_client,
        ensures
            forall|j: int|
                0 <= j < masks.len() ==> exists|p: int|
                    0 <= p < masks.len() && #[trigger] masks[j] & post[p].current_clock != 0,
    {
        let n = masks.len() as int;
        let c0 = pre[0].next_client as int;
        assert forall|p: int| 0 <= p < n implies #[trigger] pre[p].next_client == sweep_pos(n, c0, p)
            && masks[sweep_pos(n, c0, p)] & post[p].current_clock != 0 by {
            Self::lemma_round_robin_prefix(configs, pre, post, masks, p);
        }
        assert forall|j: int| 0 <= j < n implies exists|p: int|
            0 <= p < n && #[trigger] masks[j] & post[p].current_clock != 0 by {
            let p = if j >= c0 {
                j - c0
            } else {
                n - c0 + j
            };
            assert(sweep_pos(n, c0, p) == j);
            assert(pre[p].next_client == sweep_pos(n, c0, p));
        }
    }

    proof fn lemma_round_robin_prefix(
        configs: C,
        pre: Seq<ManagerView>,
        post: Seq<ManagerView>,
        masks: Seq<u32>,
        p: int,
    )
        requires
            masks.len() >= 1,
            pre.len() == masks.len(),
            post.len() == masks.len(),
            forall|i: int| 0 <= i < masks.len() ==> #[trigger] masks[i] != 0,
            forall|i: int, j: int|
                0 <= i < masks.len() && 0 <= j < masks.len() && i != j ==> #[trigger] masks[i]
                    & #[trigger] masks[j] == 0,
            forall|p: int|
                0 <= p < masks.len() ==> Self::pass_result(configs, #[trigger] pre[p], post[p]),
            forall|p: int|
                0 <= p < masks.len() ==> {
                    &&& (#[trigger] pre[p]).num_clients == masks.len()
                    &&& pre[p].clients.len() >= masks.len()
                    &&& pre[p].next_client < masks.len()
                    &&& pre[p].nolock_clockmask == NO_CONSTRAINT
                    &&& forall|i: int|
                        0 <= i < masks.len() ==> (#[trigger] pre[p].clients[i]).enabled
                            && pre[p].clients[i].clockmask == masks[i]
                },
            forall|p: int|
                0 <= p < masks.len() - 1 ==> (#[trigger] pre[p + 1]).next_client
                    == post[p].next_client,
            0 <= p < masks.len(),
        ensures
            pre[p].next_client == sweep_pos(masks.len() as int, pre[0].next_client as int, p),
            masks[sweep_pos(masks.len() as int, pre[0].next_client as int, p)]
                & post[p].current_clock != 0,
            post[p].next_client == sweep_pos(
                masks.len() as int,
                pre[0].next_client as int,
                p + 1,
            ) || p + 1 == masks.len(),
        decreases p,
    {
        let n = masks.len() as int;
        if p > 0 {
            Self::lemma_round_robin_prefix(configs, pre, post, masks, p - 1);
        }
        Self::lemma_one_turn(configs, pre[p], post[p], masks);
    }

    /// One pass of the round robin above: it serves the client at the cursor
    /// and moves the cursor to the next client.
    proof fn lemma_one_turn(configs: C, old: ManagerView, new: ManagerView, masks: Seq<u32>)
        requires
            masks.len() >= 1,
            forall|i: int| 0 <= i < masks.len() ==> #[trigger] masks[i] != 0,
            forall|i: int, j: int|
                0 <= i < masks.len() && 0 <= j < masks.len() && i != j ==> #[trigger] masks[i]
                    & #[trigger] masks[j] == 0,
            Self::pass_result(configs, old, new),
            old.num_clients == masks.len(),
            old.clients.len() >= masks.len(),
            old.next_client < masks.len(),
            old.nolock_clockmask == NO_CONSTRAINT,
            forall|i: int|
                0 <= i < masks.len() ==> (#[trigger] old.clients[i]).enabled
                    && old.clients[i].clockmask == masks[i],
        ensures
            masks[old.next_client as int] & new.current_clock != 0,
            new.next_client == sweep_pos(masks.len() as int, old.next_client as int, 1),
    {
        let n = masks.len() as int;
        let s = old.clients;
        let c = old.next_client as int;
        let init = Self::pass_init(configs, old);
        let il = configs.spec_intermediates(old.current_clock);
        let x = il.intermediates;
        assert(0xffff_ffffu32 & x == x) by (bit_vector);
        assert(init == NO_CONSTRAINT);
        let mc = masks[c];
        assert(mc != 0 ==> mc & 0xffff_ffffu32 != 0 && 0xffff_ffffu32 & mc == mc) by (bit_vector);
        assert(!Self::pass_stuck(configs, old));
        assert(sweep_pos(n, c, 0) == c);
        assert(!sweep_blocked(s, n, c, init, 0));
        if n == 1 {
            assert(!any_blocked(s, n, c, init, n)) by {
                assert forall|j: int| 0 <= j < n implies !#[trigger] sweep_blocked(s, n, c, init, j) by {
                    assert(j == 0);
                }
            }
        } else {
            let d = sweep_pos(n, c, 1);
            assert(d != c);
            assert(masks[c] & masks[d] == 0);
            assert(sweep_mask(s, n, c, init, 1) == mc);
            assert(sweep_blocked(s, n, c, init, 1));
            assert(any_blocked(s, n, c, init, n));
            let j = choose|j: int|
                0 <= j < n && new.next_client == sweep_pos(n, c, j) && sweep_blocked(s, n, c, init, j)
                    && forall|i: int| 0 <= i < j ==> !#[trigger] sweep_blocked(s, n, c, init, i);
            assert(j == 1);
        }
    }

    /// The manager's lock count is the number of clients that hold a lock,
    /// and only enabled clients hold one: each lock taken for a client is
    /// given back when that client is disabled.
    pub proof fn lemma_lock_count_paired(&self)
        requires
            self.well_formed(),
        ensures
            self@.lock_count == count_locked(self@.clients, self@.num_clients as int),
            forall|i: int|
                0 <= i < self@.num_clients && (#[trigger] self@.clients[i]).lock_held
                    ==> self@.clients[i].enabled,
            forall|i: int|
                self@.num_clients <= i < NUM_CLOCK_CLIENTS ==> !(#[trigger] self@.clients[i]).lock_held,
    {
        assert forall|i: int| self@.num_clients <= i < NUM_CLOCK_CLIENTS implies !(
        #[trigger] self@.clients[i]).lock_held by {
            assert(unregistered(self.clients@[i]));
        }
    }

    /// Enabling a client twice in a row gives the same clock, the same
    /// frequency and the same lock count both times.
    pub proof fn lemma_enable_idempotent(
        configs: C,
        v0: ManagerView,
        v1: ManagerView,
        v2: ManagerView,
        i: int,
        r1: Result<u32, ReturnCode>,
        r2: Result<u32, ReturnCode>,
    )
        requires
            0 <= i < v0.num_clients <= NUM_CLOCK_CLIENTS,
            v0.clients.len() == NUM_CLOCK_CLIENTS,
            Self::enable_post(configs, v0, v1, i, r1),
            Self::enable_post(configs, v1, v2, i, r2),
        ensures
            v2.current_clock == v1.current_clock,
            r2 == r1,
            v2.lock_count == v1.lock_count,
    {
        if !v0.clients[i].enabled {
            let c = v0.clients[i];
            let ce = ClockData { enabled: true, ..c };
            let mid = ManagerView {
                clients: v0.clients.update(i, ce),
                change_clock: true,
                change_clockmask: v0.change_clockmask & c.clockmask,
                ..v0
            };
            if c.clockmask & v0.current_clock == 0 && v0.lock_count == 0 {
                Self::lemma_settled_keeps_enabled(configs, mid, v1, i);
            }
        }
        assert(v1.clients[i].enabled);
    }

    /// When some source is acceptable to every enabled client and to every
    /// running lock-free client, one pass settles them all: no change stays
    /// pending and every enabled client can run on the clock picked.
    pub proof fn lemma_common_source_settles(
        configs: C,
        old: ManagerView,
        new: ManagerView,
        src: u32,
    )
        requires
            Self::pass_result(configs, old, new),
            !Self::pass_stuck(configs, old),
            old.next_client < old.num_clients || (old.num_clients == 0 && old.next_client == 0),
            old.num_clients <= old.clients.len(),
            src != 0,
            is_submask(src, Self::pass_init(configs, old)),
            forall|i: int|
                0 <= i < old.num_clients && #[trigger] old.clients[i].enabled ==> is_submask(
                    src,
                    old.clients[i].clockmask,
                ),
        ensures
            !new.change_clock,
            forall|i: int|
                0 <= i < old.num_clients && #[trigger] old.clients[i].enabled
                    ==> old.clients[i].clockmask & new.current_clock != 0,
    {
        lemma_common_source_in_sweep(
            old.clients,
            old.num_clients as int,
            old.next_client as int,
            Self::pass_init(configs, old),
            src,
            old.num_clients as int,
        );
    }

    /// When some source, one the switch from the current clock need not
    /// avoid, is acceptable to every enabled client, one pass from a
    /// well-formed state settles them all.
    pub proof fn lemma_shared_source_settles(&self, new: ManagerView, src: u32)
        requires
            self.well_formed(),
            Self::pass_result(self.spec_configs(), self@, new),
            src != 0,
            src & self.spec_configs().spec_intermediates(self@.current_clock).ends == 0,
            forall|i: int|
                0 <= i < self@.num_clients && #[trigger] self@.clients[i].enabled ==> is_submask(
                    src,
                    self@.clients[i].clockmask,
                ),
        ensures
            !new.change_clock,
            forall|i: int|
                0 <= i < self@.num_clients && #[trigger] self@.clients[i].enabled
                    ==> self@.clients[i].clockmask & new.current_clock != 0,
    {
        let s = self.clients@;
        let n = self.num_clients as int;
        lemma_nolock_keeps_shared(s, n, src);
        let il = self.configs.spec_intermediates(self.current_clock);
        let nl = self.nolock_clockmask;
        let ends = il.ends;
        assert(src & nl == src && src & ends == 0 ==> src & (nl & !ends) == src) by (bit_vector);
        assert(!Self::pass_stuck(self.configs, self@)) by {
            if Self::pass_stuck(self.configs, self@) {
                assert(src != 0 && src & (nl & !ends) == src ==> nl & !ends != 0) by (bit_vector);
            }
        }
        Self::lemma_common_source_settles(self.configs, self@, new, src);
    }

    /// Round-robin fairness: a pass serves first the client at the cursor,
    /// which a pass that leaves a change pending sets to the first client it
    /// blocked. That client, if the running lock-free clients leave it any
    /// source, can run on the clock the next pass picks.
    pub proof fn lemma_cursor_client_served(configs: C, old: ManagerView, new: ManagerView)
        requires
            Self::pass_result(configs, old, new),
            !Self::pass_stuck(configs, old),
            old.next_client < old.num_clients,
            old.clients[old.next_client as int].enabled,
            old.clients[old.next_client as int].clockmask & Self::pass_init(configs, old) != 0,
        ensures
            old.clients[old.next_client as int].clockmask & new.current_clock != 0,
            new.change_clock ==> exists|j: int|
                0 <= j < old.num_clients && new.next_client == sweep_pos(
                    old.num_clients as int,
                    old.next_client as int,
                    j,
                ) && sweep_blocked(
                    old.clients,
                    old.num_clients as int,
                    old.next_client as int,
                    Self::pass_init(configs, old),
                    j,
                ),
    {
    }
}

} // verus!
