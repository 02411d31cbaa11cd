//! The arbitration sweep: one round over the clients, from the round-robin
//! cursor, narrowing the candidate sources client by client.
use vstd::prelude::*;
use crate::client::ClockData;
use crate::mask::is_submask;

verus! {

/// Position of the `k`-th client visited by a sweep over `n` clients that
/// starts at `start`.
pub open spec fn sweep_pos(n: int, start: int, k: int) -> int {
    if start + k < n {
        start + k
    } else {
        start + k - n
    }
}

/// The candidate mask after the first `k` steps of the arbitration sweep:
/// each enabled client narrows it, unless that would leave nothing.
pub open spec fn sweep_mask(s: Seq<ClockData>, n: int, start: int, init: u32, k: int) -> u32
    decreases k,
{
    if k <= 0 {
        init
    } else {
        let prev = sweep_mask(s, n, start, init, k - 1);
        let c = s[sweep_pos(n, start, k - 1)];
        if c.enabled && prev & c.clockmask != 0 {
            prev & c.clockmask
        } else {
            prev
        }
    }
}

/// The client visited at step `k` of the sweep is enabled and cannot share
/// the sources left by the clients before it.
pub open spec fn sweep_blocked(s: Seq<ClockData>, n: int, start: int, init: u32, k: int) -> bool {
    let c = s[sweep_pos(n, start, k)];
    c.enabled && sweep_mask(s, n, start, init, k) & c.clockmask == 0
}

/// Intersection of `all` with the masks of the clients blocked in the first
/// `k` steps.
pub open spec fn blocked_mask(
    s: Seq<ClockData>,
    n: int,
    start: int,
    init: u32,
    all: u32,
    k: int,
) -> u32
    decreases k,
{
    if k <= 0 {
        all
    } else {
        let prev = blocked_mask(s, n, start, init, all, k - 1);
        if sweep_blocked(s, n, start, init, k - 1) {
            prev & s[sweep_pos(n, start, k - 1)].clockmask
        } else {
            prev
        }
    }
}

pub proof fn lemma_sweep_narrows(s: Seq<ClockData>, n: int, start: int, init: u32, j: int, k: int)
    requires
        0 <= j <= k,
    ensures
        is_submask(sweep_mask(s, n, start, init, k), sweep_mask(s, n, start, init, j)),
    decreases k - j,
{
    let m = sweep_mask(s, n, start, init, k);
    if j == k {
        assert(m & m == m) by (bit_vector);
    } else {
        lemma_sweep_narrows(s, n, start, init, j, k - 1);
        let p = sweep_mask(s, n, start, init, k - 1);
        let c = s[sweep_pos(n, start, k - 1)].clockmask;
        assert((p & c) & p == p & c) by (bit_vector);
        assert(p & p == p) by (bit_vector);
        crate::mask::lemma_submask_trans(m, p, sweep_mask(s, n, start, init, j));
    }
}

pub proof fn lemma_sweep_nonzero(s: Seq<ClockData>, n: int, start: int, init: u32, j: int, k: int)
    requires
        0 <= j <= k,
        sweep_mask(s, n, start, init, j) != 0,
    ensures
        sweep_mask(s, n, start, init, k) != 0,
    decreases k - j,
{
    if j < k {
        lemma_sweep_nonzero(s, n, start, init, j, k - 1);
    }
}

/// A client that the sweep does not block keeps every source that is left
/// at the end of the sweep.
pub proof fn lemma_unblocked_keeps_final(s: Seq<ClockData>, n: int, start: int, init: u32, k: int)
    requires
        0 <= k < n,
        s[sweep_pos(n, start, k)].enabled,
        !sweep_blocked(s, n, start, init, k),
    ensures
        is_submask(sweep_mask(s, n, start, init, n), s[sweep_pos(n, start, k)].clockmask),
        sweep_mask(s, n, start, init, n) != 0,
{
    let c = s[sweep_pos(n, start, k)].clockmask;
    let p = sweep_mask(s, n, start, init, k);
    assert(sweep_mask(s, n, start, init, k + 1) == p & c);
    lemma_sweep_narrows(s, n, start, init, k + 1, n);
    lemma_sweep_nonzero(s, n, start, init, k + 1, n);
    crate::mask::lemma_and_submask(p, c);
    crate::mask::lemma_submask_trans(sweep_mask(s, n, start, init, n), p & c, c);
}

pub open spec fn any_blocked(s: Seq<ClockData>, n: int, start: int, init: u32, k: int) -> bool {
    exists|j: int| 0 <= j < k && #[trigger] sweep_blocked(s, n, start, init, j)
}

/// A source acceptable to every client visited stays in the candidate mask
/// throughout the sweep, and no client is blocked.
pub proof fn lemma_common_source_in_sweep(
    s: Seq<ClockData>,
    n: int,
    start: int,
    init: u32,
    src: u32,
    k: int,
)
    requires
        0 <= start < n || (n == 0 && start == 0),
        n <= s.len(),
        0 <= k <= n,
        src != 0,
        is_submask(src, init),
        forall|i: int| 0 <= i < n && #[trigger] s[i].enabled ==> is_submask(src, s[i].clockmask),
    ensures
        is_submask(src, sweep_mask(s, n, start, init, k)),
        !any_blocked(s, n, start, init, k),
    decreases k,
{
    if k > 0 {
        lemma_common_source_in_sweep(s, n, start, init, src, k - 1);
        let p = sweep_mask(s, n, start, init, k - 1);
        let c = s[sweep_pos(n, start, k - 1)];
        let m = c.clockmask;
        assert(src != 0 && src & p == src && src & m == src ==> p & m != 0 && src & (p & m) == src)
            by (bit_vector);
        assert forall|j: int| 0 <= j < k implies !#[trigger] sweep_blocked(s, n, start, init, j) by {
            if j == k - 1 {
            } else {
                assert(!any_blocked(s, n, start, init, k - 1));
            }
        }
    }
}

} // verus!
