//! A single observation: a signal value paired with an absolute timestamp.

use vstd::prelude::*;

verus! {

/// One observation of the signal. `value` is in fixed-point ticks (see
/// [`crate::fixed::VALUE_SCALE`]); `when` is an absolute time in nanoseconds.
#[derive(Clone, Copy, Debug, PartialEq, Eq, Structural)]
pub struct Reading {
    pub value: i64,
    pub when: i64,
}

/// The sequence's timestamps never decrease.
pub open spec fn sorted_by_when(s: Seq<Reading>) -> bool {
    forall|i: int, j: int| 0 <= i < j < s.len() ==> #[trigger] s[i].when <= #[trigger] s[j].when
}

/// The predicate selecting readings at timestamp `w`.
pub open spec fn when_is(w: i64) -> spec_fn(Reading) -> bool {
    |x: Reading| x.when == w
}

/// The readings of `s` at timestamp `w`, in the order `s` holds them.
pub open spec fn at_time(s: Seq<Reading>, w: i64) -> Seq<Reading> {
    s.filter(when_is(w))
}

} // verus!
