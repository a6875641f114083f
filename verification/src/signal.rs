//! Generation of the noisy periodic sample sequence.
//!
//! The stochastic and trigonometric work — drawing a time offset, evaluating
//! the carrier sinusoid, drawing a noise term — is floating-point work done by
//! the caller; one such draw arrives here as a [`SampleDraw`] of fixed-point
//! ticks. This module holds the part with checkable content: combining a draw
//! into a clamped value, tagging it with its absolute timestamp, and sorting
//! the sequence by time.

use vstd::prelude::*;
use vstd::seq_lib::group_to_multiset_ensures;
use vstd::seq_lib::to_multiset_build;
use vstd::seq_lib::to_multiset_insert;

use crate::fixed::AMP_LIMIT;
use crate::fixed::TIME_LIMIT;
use crate::reading::Reading;
use crate::reading::at_time;
use crate::reading::sorted_by_when;
use crate::reading::when_is;

verus! {

/// One draw of the stochastic sample model, already evaluated to fixed-point
/// ticks: `time` is the offset in nanoseconds from the base time, `carrier`
/// is the sinusoid's value at that offset, `noise` is the additive noise term.
#[derive(Clone, Copy, Debug, PartialEq, Eq, Structural)]
pub struct SampleDraw {
    pub time: i64,
    pub carrier: i64,
    pub noise: i64,
}

/// `v` clamped into `[-amp, amp]`: the signed clamp policy.
pub open spec fn clamp_signed(v: int, amp: int) -> int {
    if v < -amp {
        -amp
    } else if v > amp {
        amp
    } else {
        v
    }
}

/// `|v|` clamped into `[0, amp]`: the rectified clamp policy.
pub open spec fn clamp_rectified(v: int, amp: int) -> int {
    let a = if v < 0 {
        -v
    } else {
        v
    };
    if a > amp {
        amp
    } else {
        a
    }
}

/// The reading that one draw yields: carrier plus noise, clamped under the
/// selected policy, tagged with the absolute timestamp.
pub open spec fn reading_of_draw(d: SampleDraw, amplitude: int, base_when: int, force_abs: bool) -> Reading {
    Reading {
        value: (if force_abs {
            clamp_rectified(d.carrier + d.noise, amplitude)
        } else {
            clamp_signed(d.carrier + d.noise, amplitude)
        }) as i64,
        when: (base_when + d.time) as i64,
    }
}

/// A draw whose fields are within the machine limits, so that the sums
/// involved fit in `i64`.
pub open spec fn draw_in_limits(d: SampleDraw) -> bool {
    &&& -AMP_LIMIT <= d.carrier <= AMP_LIMIT
    &&& -AMP_LIMIT <= d.noise <= AMP_LIMIT
    &&& 0 <= d.time <= TIME_LIMIT
}

/// A filter that no element passes yields the empty sequence.
proof fn lemma_filter_none(s: Seq<Reading>, pred: spec_fn(Reading) -> bool)
    requires
        forall|i: int| 0 <= i < s.len() ==> !pred(#[trigger] s[i]),
    ensures
        s.filter(pred) == Seq::<Reading>::empty(),
    decreases s.len(),
{
    reveal(Seq::filter);
    if s.len() > 0 {
        lemma_filter_none(s.drop_last(), pred);
    }
    assert(s.filter(pred) =~= Seq::<Reading>::empty());
}

/// Filtering a one-element sequence keeps or drops that element.
proof fn lemma_filter_singleton(x: Reading, pred: spec_fn(Reading) -> bool)
    ensures
        pred(x) ==> seq![x].filter(pred) == seq![x],
        !pred(x) ==> seq![x].filter(pred) == Seq::<Reading>::empty(),
{
    reveal(Seq::filter);
    assert(seq![x].drop_last() =~= Seq::<Reading>::empty());
    assert(Seq::<Reading>::empty().filter(pred) =~= Seq::<Reading>::empty());
    if pred(x) {
        assert(seq![x].filter(pred) =~= seq![x]);
    } else {
        assert(seq![x].filter(pred) =~= Seq::<Reading>::empty());
    }
}

/// A copy of `readings` sorted by timestamp in non-decreasing order, stably:
/// for every timestamp, the readings that carry it keep their input order.
pub fn sorted_readings(readings: &Vec<Reading>) -> (r: Vec<Reading>)
    ensures
        r@.len() == readings@.len(),
        sorted_by_when(r@),
        r@.to_multiset() == readings@.to_multiset(),
        forall|w: i64| #[trigger] at_time(r@, w) == at_time(readings@, w),
{
    broadcast use group_to_multiset_ensures;

    let mut out: Vec<Reading> = Vec::new();
    let mut i: usize = 0;
    proof {
        assert forall|w: i64| #[trigger] at_time(out@, w) == at_time(
            readings@.subrange(0, 0),
            w,
        ) by {
            assert(readings@.subrange(0, 0) =~= out@);
        }
    }
    while i < readings.len()
        invariant
            i <= readings@.len(),
            out@.len() == i,
            sorted_by_when(out@),
            out@.to_multiset() == readings@.subrange(0, i as int).to_multiset(),
            forall|w: i64| #[trigger] at_time(out@, w) == at_time(
                readings@.subrange(0, i as int),
                w,
            ),
        decreases readings@.len() - i,
    {
        let key = readings[i];
        let mut j: usize = out.len();
        while j > 0 && out[j - 1].when > key.when
            invariant
                j <= out@.len(),
                forall|k: int| j <= k < out@.len() ==> #[trigger] out@[k].when > key.when,
            decreases j,
        {
            j -= 1;
        }
        let ghost pre = out@;
        out.insert(j, key);
        proof {
            assert forall|p: int, q: int| 0 <= p < q < out@.len() implies #[trigger] out@[p].when
                <= #[trigger] out@[q].when by {
                assert(out@ == pre.insert(j as int, key));
            }
            to_multiset_insert(pre, j as int, key);
            assert(readings@.subrange(0, i as int).push(readings@[i as int]) =~= readings@.subrange(
                0,
                i as int + 1,
            ));
            to_multiset_build(readings@.subrange(0, i as int), readings@[i as int]);
            assert(out@.to_multiset() == readings@.subrange(0, i as int + 1).to_multiset());

            let left = pre.subrange(0, j as int);
            let right = pre.subrange(j as int, pre.len() as int);
            assert forall|w: i64| #[trigger] at_time(out@, w) == at_time(
                readings@.subrange(0, i as int + 1),
                w,
            ) by {
                let pred = when_is(w);
                assert(at_time(pre, w) == at_time(readings@.subrange(0, i as int), w));
                assert(pre =~= left + right);
                assert(out@ =~= left + (seq![key] + right));
                Seq::filter_distributes_over_add(left, seq![key] + right, pred);
                Seq::filter_distributes_over_add(seq![key], right, pred);
                Seq::filter_distributes_over_add(left, right, pred);
                lemma_filter_singleton(key, pred);
                assert(readings@.subrange(0, i as int + 1) =~= readings@.subrange(0, i as int)
                    + seq![key]);
                Seq::filter_distributes_over_add(readings@.subrange(0, i as int), seq![key], pred);
                if key.when == w {
                    assert forall|k: int| 0 <= k < right.len() implies !pred(#[trigger] right[k]) by {
                        assert(right[k] == pre[j + k]);
                    }
                    lemma_filter_none(right, pred);
                    assert(at_time(out@, w) =~= at_time(readings@.subrange(0, i as int + 1), w));
                } else {
                    assert(at_time(out@, w) =~= at_time(readings@.subrange(0, i as int + 1), w));
                }
            }
        }
        i += 1;
    }
    proof {
        assert(readings@.subrange(0, readings@.len() as int) =~= readings@);
    }
    out
}

/// Build the time-ordered sample sequence from `draws`: each draw's carrier
/// and noise are summed, clamped under the selected policy, and tagged with
/// its absolute timestamp; the result is sorted by timestamp, stably, so
/// draws at equal timestamps keep their draw order.
///
/// Every returned value lies in `[-amplitude, amplitude]` under the signed
/// policy and in `[0, amplitude]` under the rectified policy, the output has
/// exactly one reading per draw, and its timestamps never decrease. A
/// zero-length draw interval is permitted: all draws then sit at offset zero
/// and every reading carries the base time.
pub fn noised_signal_gen(
    amplitude: i64,
    base_when: i64,
    draws: &Vec<SampleDraw>,
    force_abs: bool,
) -> (r: Vec<Reading>)
    requires
        0 <= amplitude <= AMP_LIMIT,
        0 <= base_when <= TIME_LIMIT,
        forall|i: int| 0 <= i < draws@.len() ==> draw_in_limits(#[trigger] draws@[i]),
    ensures
        r@.len() == draws@.len(),
        sorted_by_when(r@),
        r@.to_multiset() == draws@.map_values(
            |d: SampleDraw| reading_of_draw(d, amplitude as int, base_when as int, force_abs),
        ).to_multiset(),
        forall|w: i64|
            #[trigger] at_time(r@, w) == at_time(
                draws@.map_values(
                    |d: SampleDraw| reading_of_draw(
                        d,
                        amplitude as int,
                        base_when as int,
                        force_abs,
                    ),
                ),
                w,
            ),
        forall|i: int|
            0 <= i < r@.len() ==> if force_abs {
                0 <= #[trigger] r@[i].value <= amplitude
            } else {
                -amplitude <= #[trigger] r@[i].value <= amplitude
            },
{
    broadcast use group_to_multiset_ensures;

    let ghost mapped = draws@.map_values(
        |d: SampleDraw| reading_of_draw(d, amplitude as int, base_when as int, force_abs),
    );
    let mut readings: Vec<Reading> = Vec::new();
    let mut i: usize = 0;
    while i < draws.len()
        invariant
            i <= draws@.len(),
            mapped == draws@.map_values(
                |d: SampleDraw| reading_of_draw(d, amplitude as int, base_when as int, force_abs),
            ),
            0 <= amplitude <= AMP_LIMIT,
            0 <= base_when <= TIME_LIMIT,
            forall|k: int| 0 <= k < draws@.len() ==> draw_in_limits(#[trigger] draws@[k]),
            readings@ =~= mapped.subrange(0, i as int),
        decreases draws@.len() - i,
    {
        let d = draws[i];
        let raw = d.carrier + d.noise;
        let value = if force_abs {
            let a = if raw < 0 {
                -raw
            } else {
                raw
            };
            if a > amplitude {
                amplitude
            } else {
                a
            }
        } else {
            if raw < -amplitude {
                -amplitude
            } else if raw > amplitude {
                amplitude
            } else {
                raw
            }
        };
        readings.push(Reading { value, when: base_when + d.time });
        proof {
            assert(readings@ =~= mapped.subrange(0, i as int + 1));
        }
        i += 1;
    }
    proof {
        assert(readings@ =~= mapped);
    }
    let r = sorted_readings(&readings);
    proof {
        assert forall|i: int| 0 <= i < r@.len() implies if force_abs {
            0 <= #[trigger] r@[i].value <= amplitude
        } else {
            -amplitude <= #[trigger] r@[i].value <= amplitude
        } by {
            assert(r@.contains(r@[i]));
            assert(r@.to_multiset().count(r@[i]) > 0);
            assert(mapped.to_multiset().count(r@[i]) > 0);
            assert(mapped.contains(r@[i]));
            let j = choose|j: int| 0 <= j < mapped.len() && mapped[j] == r@[i];
            assert(mapped[j] == reading_of_draw(
                draws@[j],
                amplitude as int,
                base_when as int,
                force_abs,
            ));
        }
    }
    r
}

} // verus!
