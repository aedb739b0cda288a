//! The earliest of a row of countdowns, and which of them it is.
//!
//! A row is given as a function from position to countdown together with its
//! length.  Ties go to the lowest position.

use vstd::prelude::*;
use crate::units::Timer;

verus! {

/// The earliest of the first `n` countdowns of `f`; `Never` if there are none.
pub open spec fn soonest(f: spec_fn(int) -> Timer, n: int) -> Timer
    decreases n,
{
    if n <= 0 {
        Timer::Never
    } else {
        soonest(f, n - 1).spec_earlier(f(n - 1))
    }
}

/// The lowest position among the first `n` whose countdown is the earliest.
pub open spec fn first_soonest(f: spec_fn(int) -> Timer, n: int) -> int
    decreases n,
{
    if n <= 1 {
        0
    } else {
        let p = first_soonest(f, n - 1);
        if f(p).spec_at_most(f(n - 1)) {
            p
        } else {
            n - 1
        }
    }
}

/// No countdown of the row is earlier than `soonest`.
pub proof fn lemma_soonest_is_lower_bound(f: spec_fn(int) -> Timer, n: int, i: int)
    requires
        0 <= i < n,
    ensures
        soonest(f, n).spec_at_most(f(i)),
    decreases n,
{
    if i < n - 1 {
        lemma_soonest_is_lower_bound(f, n - 1, i);
    }
}

/// In a row that is not empty, `first_soonest` names a position that holds
/// the earliest countdown, and every position before it holds a strictly
/// later one.
pub proof fn lemma_first_soonest(f: spec_fn(int) -> Timer, n: int)
    requires
        0 < n,
    ensures
        0 <= first_soonest(f, n) < n,
        f(first_soonest(f, n)) == soonest(f, n),
        forall|j: int| 0 <= j < first_soonest(f, n) ==> !(#[trigger] f(j)).spec_at_most(soonest(f, n)),
    decreases n,
{
    reveal_with_fuel(soonest, 2);
    if n > 1 {
        lemma_first_soonest(f, n - 1);
        assert forall|j: int| 0 <= j < n - 1 implies soonest(f, n - 1).spec_at_most(#[trigger] f(j)) by {
            lemma_soonest_is_lower_bound(f, n - 1, j);
        }
    }
}

/// A finite `soonest` is the value of some countdown of the row.
pub proof fn lemma_soonest_finite(f: spec_fn(int) -> Timer, n: int)
    requires
        soonest(f, n) is In,
    ensures
        0 < n,
        f(first_soonest(f, n)) == soonest(f, n),
        0 <= first_soonest(f, n) < n,
    decreases n,
{
    if n > 0 {
        lemma_first_soonest(f, n);
    }
}

} // verus!
