//! Progress-update schedule for the extraction loop.
//!
//! To bound reporting overhead on archives with very large entry counts, the
//! loop reports its position only at a coarse cadence: once at every index
//! that is a multiple of the reporting interval (which includes index 0), and
//! once more, with the full entry count, after the last entry.

use vstd::prelude::*;

verus! {

/// Number of entries between two intermediate progress reports.
pub const PROGRESS_INTERVAL: usize = 256;

/// An intermediate progress update is due at index `i` exactly when `i` is a
/// multiple of the reporting interval.
pub open spec fn progress_due_spec(i: int) -> bool {
    i % (PROGRESS_INTERVAL as int) == 0
}

/// Decides whether the loop should report its position before processing the
/// entry at index `i`.
pub fn progress_due(i: usize) -> (r: bool)
    ensures
        r == progress_due_spec(i as int),
{
    i % PROGRESS_INTERVAL == 0
}

/// How many intermediate updates a run over `n` entries issues: one for each
/// multiple of the interval below `n`.
pub open spec fn mark_count(n: int) -> int {
    if n <= 0 {
        0
    } else {
        (n - 1) / (PROGRESS_INTERVAL as int) + 1
    }
}

/// The positions reported during a run over `n` entries, in the order they
/// are issued: one for every index below `n` at which an update is due, and a
/// final one carrying the total entry count.
pub open spec fn progress_updates(n: int) -> Seq<int> {
    Seq::new(
        (mark_count(n) + 1) as nat,
        |j: int|
            if j < mark_count(n) {
                (PROGRESS_INTERVAL as int) * j
            } else {
                n
            },
    )
}

/// The reported positions start at zero, are monotonically non-decreasing,
/// and the final report equals the total entry count. The intermediate
/// reports are exactly the indices below `n` at which an update is due, in
/// index order.
pub proof fn lemma_progress_monotone(n: int)
    requires
        n >= 0,
    ensures
        progress_updates(n).len() == mark_count(n) + 1,
        progress_updates(n)[0] == 0,
        progress_updates(n).last() == n,
        forall|j: int|
            0 <= j < progress_updates(n).len() - 1 ==> #[trigger] progress_updates(n)[j]
                <= progress_updates(n)[j + 1],
        forall|j: int|
            0 <= j < mark_count(n) ==> #[trigger] progress_updates(n)[j] == (
            PROGRESS_INTERVAL as int) * j && progress_due_spec(progress_updates(n)[j])
                && progress_updates(n)[j] < n,
        forall|i: int|
            0 <= i < n && #[trigger] progress_due_spec(i) ==> 0 <= i / (PROGRESS_INTERVAL as int)
                < mark_count(n) && progress_updates(n)[i / (PROGRESS_INTERVAL as int)] == i,
{
    let p = PROGRESS_INTERVAL as int;
    if n > 0 {
        vstd::arithmetic::div_mod::lemma_fundamental_div_mod(n - 1, p);
        vstd::arithmetic::div_mod::lemma_mod_bound(n - 1, p);
        assert(p * ((n - 1) / p) <= n - 1);
    }
    assert forall|j: int| 0 <= j < mark_count(n) implies progress_updates(n)[j] == p * j
        && progress_due_spec(progress_updates(n)[j]) && progress_updates(n)[j] < n by {
        vstd::arithmetic::div_mod::lemma_mod_multiples_basic(j, p);
        assert(p * j == j * p);
        assert(j <= mark_count(n) - 1);
        vstd::arithmetic::mul::lemma_mul_inequality(j, mark_count(n) - 1, p);
        assert(j * p <= (mark_count(n) - 1) * p);
        assert((mark_count(n) - 1) * p == p * ((n - 1) / p));
    }
    assert forall|i: int| 0 <= i < n && progress_due_spec(i) implies 0 <= i / p < mark_count(n)
        && progress_updates(n)[i / p] == i by {
        vstd::arithmetic::div_mod::lemma_fundamental_div_mod(i, p);
        vstd::arithmetic::div_mod::lemma_div_is_ordered(i, n - 1, p);
        vstd::arithmetic::div_mod::lemma_div_is_ordered(0, i, p);
    }
    assert forall|j: int|
        0 <= j < progress_updates(n).len() - 1 implies #[trigger] progress_updates(n)[j]
        <= progress_updates(n)[j + 1] by {
        if j + 1 < mark_count(n) {
            assert(p * j <= p * (j + 1));
        }
    }
}

} // verus!
