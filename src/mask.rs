//! Clock masks: bit `i` of a `u32` mask stands for clock source `i`.
use vstd::prelude::*;

verus! {

/// The mask that holds every one of the first `n` sources.
pub open spec fn all_clocks(n: u32) -> u32 {
    ((1u32 << n) - 1) as u32
}

/// `clock` names exactly one source (its population count is one), and that
/// source is among the first `n`.
pub open spec fn is_source(clock: u32, n: u32) -> bool {
    &&& clock != 0
    &&& clock & ((clock - 1) as u32) == 0
    &&& clock & !all_clocks(n) == 0
}

/// Every source of `a` is also in `b`.
pub open spec fn is_submask(a: u32, b: u32) -> bool {
    a & b == a
}

pub proof fn lemma_shift_is_source(i: u32, n: u32)
    requires
        i < n,
        n <= 31,
    ensures
        is_source(1u32 << i, n),
{
    assert((1u32 << i) != 0 && (1u32 << i) & (((1u32 << i) - 1) as u32) == 0
        && (1u32 << i) & !(((1u32 << n) - 1) as u32) == 0) by (bit_vector)
        requires
            i < n,
            n <= 31,
    ;
}

pub proof fn lemma_submask_trans(a: u32, b: u32, c: u32)
    requires
        is_submask(a, b),
        is_submask(b, c),
    ensures
        is_submask(a, c),
{
    assert(a & b == a && b & c == b ==> a & c == a) by (bit_vector);
}

pub proof fn lemma_and_submask(a: u32, b: u32)
    ensures
        is_submask(a & b, a),
        is_submask(a & b, b),
{
    assert((a & b) & a == a & b && (a & b) & b == a & b) by (bit_vector);
}

/// Being within `b` is having no bit outside it.
pub proof fn lemma_within(a: u32, b: u32)
    ensures
        (a & !b == 0) == is_submask(a, b),
{
    assert((a & !b == 0) == (a & b == a)) by (bit_vector);
}

pub proof fn lemma_and_comm(a: u32, b: u32)
    ensures
        a & b == b & a,
{
    assert(a & b == b & a) by (bit_vector);
}

/// A source inside `a` meets every superset of `a`.
pub proof fn lemma_source_in_superset(c: u32, a: u32, b: u32)
    requires
        is_submask(c, a),
        is_submask(a, b),
        c != 0,
    ensures
        c & b != 0,
{
    lemma_submask_trans(c, a, b);
}

} // verus!
