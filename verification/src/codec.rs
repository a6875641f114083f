//! The lossy DCT codec: parameter bookkeeping, window selection,
//! normalization, coefficient truncation and rescaling.
//!
//! The transform itself is numeric work with no place here: the codec drives
//! an implementor of [`DctTransform`] supplied by the caller, states nothing
//! about the numbers it hands back, and does all the surrounding bookkeeping
//! — validation, normalization, truncation, rescaling — with exact contracts.

use vstd::prelude::*;

use crate::fixed::AMP_LIMIT;
use crate::fixed::VALUE_SCALE;
use crate::fixed::sat64;
use crate::fixed::sat_to_i64;
use crate::fixed::tdiv;
use crate::fixed::tdiv128;
use crate::reading::Reading;

verus! {

/// Cap on the number of retained coefficients, independent of window size.
pub const COEFFS_CAP: usize = 16;

/// The codec's transform parameters: the window size (and output length)
/// `outputs_count`, and the number of retained low-frequency coefficients
/// `coeffs_count`.
#[derive(Clone, Copy, Debug, PartialEq, Eq, Structural)]
pub struct DctParams {
    pub coeffs_count: usize,
    pub outputs_count: usize,
}

/// Why a request was rejected.
#[derive(Clone, Copy, Debug, PartialEq, Eq, Structural)]
pub enum CodecError {
    /// Invalid parameter combination: `coeffs_count` above `outputs_count` or
    /// above the cap, a zero count, or a window larger than the available
    /// sample sequence.
    ConfigurationError,
    /// Degenerate input reaching the transform stage: an empty amplitude
    /// range, or a windowed value outside the amplitude range.
    DataError,
}

/// Which parameter an adjustment targets.
#[derive(Clone, Copy, Debug, PartialEq, Eq, Structural)]
pub enum ParamField {
    Outputs,
    Coeffs,
}

/// The direction of a one-step parameter adjustment.
#[derive(Clone, Copy, Debug, PartialEq, Eq, Structural)]
pub enum ParamDelta {
    Increment,
    Decrement,
}

/// Valid parameters for a sample sequence of length `available`:
/// `1 <= coeffs_count <= outputs_count <= available`, with `coeffs_count`
/// within the cap.
pub open spec fn params_ok(p: DctParams, available: nat) -> bool {
    &&& 1 <= p.coeffs_count <= p.outputs_count <= available
    &&& p.coeffs_count <= COEFFS_CAP
}

/// The request that is a no-op rather than an error: an empty window over an
/// empty sample sequence.
pub open spec fn empty_noop(p: DctParams, available: nat) -> bool {
    p.outputs_count == 0 && available == 0
}

/// The first `n` readings and the amplitude range are fit for the transform
/// stage: the range is non-empty and every windowed value lies within it.
pub open spec fn window_ok(s: Seq<Reading>, n: int, amplitude: (i64, i64)) -> bool {
    &&& amplitude.0 < amplitude.1
    &&& forall|i: int| 0 <= i < n ==> amplitude.0 <= #[trigger] s[i].value <= amplitude.1
}

/// `v` mapped from `[min, max]` into `[0, 1]`, in fixed-point ticks:
/// `(v - min) * VALUE_SCALE / (max - min)`, rounded down.
pub open spec fn normalized_value(v: int, min: int, max: int) -> int {
    (v - min) * VALUE_SCALE / (max - min)
}

/// A reconstructed value `t` scaled by `2 / n` and mapped back from `[0, 1]`
/// to `[min, max]`, in fixed-point ticks, saturated into `i64`'s range.
pub open spec fn rescaled_value(t: int, n: int, min: int, max: int) -> int {
    sat64(tdiv(tdiv(t * 2, n) * (max - min), VALUE_SCALE as int) + min)
}

/// The candidate parameter pair `(coeffs_count, outputs_count)` that a
/// one-step adjustment asks for, as unbounded integers.
pub open spec fn adjusted_params(p: DctParams, field: ParamField, delta: ParamDelta) -> (int, int) {
    let c = p.coeffs_count as int;
    let o = p.outputs_count as int;
    match field {
        ParamField::Outputs => match delta {
            ParamDelta::Increment => (c, o + 1),
            ParamDelta::Decrement => (c, o - 1),
        },
        ParamField::Coeffs => match delta {
            ParamDelta::Increment => (c + 1, o),
            ParamDelta::Decrement => (c - 1, o),
        },
    }
}

/// A candidate parameter pair is valid for `available` samples under the same
/// bounds as [`params_ok`].
pub open spec fn candidate_ok(cand: (int, int), available: nat) -> bool {
    &&& 1 <= cand.0 <= cand.1 <= available
    &&& cand.0 <= COEFFS_CAP
}

/// A forward/inverse transform pair working in place on fixed-point buffers.
///
/// An implementor computes a DCT-II in [`dct2`](Self::dct2) and a DCT-III in
/// [`dct3`](Self::dct3), in the unnormalized convention whose round trip is
/// the identity after a `2 / n` rescale. Nothing is verified about the
/// numbers an implementor produces: the codec's contracts hold whatever comes
/// back.
pub trait DctTransform {
    /// Replace `data` with its forward DCT-II.
    fn dct2(&mut self, data: &mut Vec<i64>);

    /// Replace `data` with its inverse DCT-III.
    fn dct3(&mut self, data: &mut Vec<i64>);
}

/// An exact copy of a fixed-point buffer.
fn copy_vec(src: &Vec<i64>) -> (r: Vec<i64>)
    ensures
        r@ == src@,
{
    let mut r: Vec<i64> = Vec::new();
    let mut i: usize = 0;
    while i < src.len()
        invariant
            i <= src@.len(),
            r@ =~= src@.subrange(0, i as int),
        decreases src@.len() - i,
    {
        r.push(src[i]);
        proof {
            assert(r@ =~= src@.subrange(0, i as int + 1));
        }
        i += 1;
    }
    proof {
        assert(r@ =~= src@);
    }
    r
}

/// Force a buffer to length `n`, keeping the leading values it has and
/// filling with zeros past them.
fn fit_len(v: &mut Vec<i64>, n: usize)
    ensures
        final(v)@.len() == n,
        forall|i: int| 0 <= i < n && i < old(v)@.len() ==> final(v)@[i] == old(v)@[i],
        forall|i: int| old(v)@.len() <= i < n ==> final(v)@[i] == 0,
{
    proof {
        assert(v@ =~= old(v)@.subrange(0, v@.len() as int));
    }
    while v.len() > n
        invariant
            v@.len() <= old(v)@.len(),
            v@.len() >= n || v@.len() == old(v)@.len(),
            v@ == old(v)@.subrange(0, v@.len() as int),
        decreases v@.len(),
    {
        v.pop();
        proof {
            assert(v@ =~= old(v)@.subrange(0, v@.len() as int));
        }
    }
    while v.len() < n
        invariant
            v@.len() <= n,
            v@.len() >= old(v)@.len() || v@.len() == n,
            forall|i: int| 0 <= i < v@.len() && i < old(v)@.len() ==> v@[i] == old(v)@[i],
            forall|i: int| old(v)@.len() <= i < v@.len() ==> v@[i] == 0,
        decreases n - v@.len(),
    {
        v.push(0);
    }
}

/// Zero every value at index `k` or beyond: the lossy truncation step. The
/// values below `k` stay exactly as they were, so with `k` at or above the
/// buffer's length nothing changes.
pub fn zero_tail(v: &mut Vec<i64>, k: usize)
    ensures
        final(v)@.len() == old(v)@.len(),
        forall|i: int| 0 <= i < k && i < old(v)@.len() ==> final(v)@[i] == old(v)@[i],
        forall|i: int| k <= i < old(v)@.len() ==> final(v)@[i] == 0,
{
    let mut i: usize = k;
    while i < v.len()
        invariant
            k <= i,
            v@.len() == old(v)@.len(),
            forall|j: int| 0 <= j < k && j < v@.len() ==> v@[j] == old(v)@[j],
            forall|j: int| i <= j < v@.len() ==> v@[j] == old(v)@[j],
            forall|j: int| k <= j < i && j < v@.len() ==> v@[j] == 0,
        decreases v@.len() - i,
    {
        v[i] = 0;
        i += 1;
    }
}

/// Map the first `n` readings' values from the amplitude range into `[0, 1]`
/// fixed-point form, or report the degenerate inputs that may not reach the
/// transform stage.
pub fn normalize_window(readings: &Vec<Reading>, n: usize, amplitude: (i64, i64)) -> (r: Result<
    Vec<i64>,
    CodecError,
>)
    requires
        n <= readings@.len(),
    ensures
        match r {
            Ok(v) => {
                &&& window_ok(readings@, n as int, amplitude)
                &&& v@.len() == n
                &&& forall|i: int|
                    0 <= i < n ==> #[trigger] v@[i] == normalized_value(
                        readings@[i].value as int,
                        amplitude.0 as int,
                        amplitude.1 as int,
                    )
            },
            Err(e) => {
                &&& e == CodecError::DataError
                &&& !window_ok(readings@, n as int, amplitude)
            },
        },
{
    if amplitude.0 >= amplitude.1 {
        return Err(CodecError::DataError);
    }
    let span: i128 = amplitude.1 as i128 - amplitude.0 as i128;
    let mut out: Vec<i64> = Vec::new();
    let mut i: usize = 0;
    while i < n
        invariant
            i <= n,
            n <= readings@.len(),
            amplitude.0 < amplitude.1,
            span == amplitude.1 as int - amplitude.0 as int,
            out@.len() == i,
            forall|j: int| 0 <= j < i ==> amplitude.0 <= #[trigger] readings@[j].value <= amplitude.1,
            forall|j: int|
                0 <= j < i ==> #[trigger] out@[j] == normalized_value(
                    readings@[j].value as int,
                    amplitude.0 as int,
                    amplitude.1 as int,
                ),
        decreases n - i,
    {
        let v = readings[i].value;
        if v < amplitude.0 || v > amplitude.1 {
            return Err(CodecError::DataError);
        }
        let diff: i128 = v as i128 - amplitude.0 as i128;
        proof {
            vstd::arithmetic::mul::lemma_mul_nonnegative(diff as int, VALUE_SCALE as int);
            vstd::arithmetic::mul::lemma_mul_inequality(
                diff as int,
                span as int,
                VALUE_SCALE as int,
            );
            vstd::arithmetic::mul::lemma_mul_inequality(
                span as int,
                0x1_0000_0000_0000_0000,
                VALUE_SCALE as int,
            );
        }
        let num: i128 = diff * (VALUE_SCALE as i128);
        let q: u128 = (num as u128) / (span as u128);
        proof {
            vstd::arithmetic::div_mod::lemma_div_is_ordered(
                num as int,
                (span as int) * (VALUE_SCALE as int),
                span as int,
            );
            vstd::arithmetic::div_mod::lemma_div_multiples_vanish(
                VALUE_SCALE as int,
                span as int,
            );
        }
        out.push(q as i64);
        i += 1;
    }
    Ok(out)
}

/// Scale each reconstructed value by `2 / n` and map it back from `[0, 1]`
/// form to the amplitude range, saturating into `i64`'s range.
pub fn rescale_outputs(t: &Vec<i64>, n: usize, amplitude: (i64, i64)) -> (r: Vec<i64>)
    requires
        1 <= n,
        t@.len() == n,
        -AMP_LIMIT <= amplitude.0 <= AMP_LIMIT,
        -AMP_LIMIT <= amplitude.1 <= AMP_LIMIT,
    ensures
        r@.len() == n,
        forall|i: int|
            0 <= i < n ==> #[trigger] r@[i] as int == rescaled_value(
                t@[i] as int,
                n as int,
                amplitude.0 as int,
                amplitude.1 as int,
            ),
{
    let span: i128 = amplitude.1 as i128 - amplitude.0 as i128;
    let mut out: Vec<i64> = Vec::new();
    let mut i: usize = 0;
    while i < n
        invariant
            i <= n,
            1 <= n,
            t@.len() == n,
            -AMP_LIMIT <= amplitude.0 <= AMP_LIMIT,
            -AMP_LIMIT <= amplitude.1 <= AMP_LIMIT,
            span == amplitude.1 as int - amplitude.0 as int,
            out@.len() == i,
            forall|j: int|
                0 <= j < i ==> #[trigger] out@[j] as int == rescaled_value(
                    t@[j] as int,
                    n as int,
                    amplitude.0 as int,
                    amplitude.1 as int,
                ),
        decreases n - i,
    {
        let a: i128 = (t[i] as i128) * 2;
        let b: i128 = tdiv128(a, n as i128);
        proof {
            crate::fixed::lemma_mul_abs_bound(
                b as int,
                span as int,
                0x2_0000_0000_0000_0000,
                2 * AMP_LIMIT as int,
            );
        }
        let c: i128 = b * span;
        let d: i128 = tdiv128(c, VALUE_SCALE as i128);
        let e: i128 = d + amplitude.0 as i128;
        out.push(sat_to_i64(e));
        i += 1;
    }
    out
}

/// The rescaling stage inverts the normalization stage, up to fixed-point
/// quantization: for a value `v` within the amplitude range, normalizing it
/// and handing the rescaler the ideal full-retention round trip of the
/// transform pair — the DCT-III of the untruncated DCT-II, which is `n / 2`
/// times the input — returns a value between `min` and `v` that undershoots
/// `v` by less than `2 * (max - min) / VALUE_SCALE + 1`, stated here in
/// multiplied-out form.
pub proof fn lemma_rescale_inverts_normalize(v: int, min: int, max: int, n: int)
    requires
        min <= v <= max,
        min < max,
        -AMP_LIMIT <= min,
        max <= AMP_LIMIT,
        1 <= n,
    ensures
        min <= rescaled_value(tdiv(n * normalized_value(v, min, max), 2), n, min, max) <= v,
        (rescaled_value(tdiv(n * normalized_value(v, min, max), 2), n, min, max) - min + 1)
            * (VALUE_SCALE as int) + 2 * (max - min) > (v - min) * (VALUE_SCALE as int),
{
    let s = VALUE_SCALE as int;
    let d = max - min;
    let q = normalized_value(v, min, max);
    vstd::arithmetic::mul::lemma_mul_nonnegative(v - min, s);
    vstd::arithmetic::div_mod::lemma_div_pos_is_pos((v - min) * s, d);
    vstd::arithmetic::div_mod::lemma_fundamental_div_mod((v - min) * s, d);
    vstd::arithmetic::div_mod::lemma_mod_bound((v - min) * s, d);
    let r = (v - min) * s % d;
    assert(d * q == (v - min) * s - r);

    vstd::arithmetic::mul::lemma_mul_nonnegative(n, q);
    let t = tdiv(n * q, 2);
    assert(t == (n * q) / 2);
    vstd::arithmetic::div_mod::lemma_div_pos_is_pos(n * q, 2);
    vstd::arithmetic::div_mod::lemma_fundamental_div_mod(n * q, 2);
    vstd::arithmetic::div_mod::lemma_mod_bound(n * q, 2);
    let r2 = (n * q) % 2;
    assert(t * 2 == n * q - r2);

    let u = tdiv(t * 2, n);
    assert(u == (t * 2) / n);
    vstd::arithmetic::mul::lemma_mul_is_distributive_sub(n, q, 1);
    vstd::arithmetic::mul::lemma_mul_basics(n);
    assert(n * (q - 1) == n * q - n);
    assert(n * (q - 1) <= t * 2 <= n * q);
    vstd::arithmetic::div_mod::lemma_div_is_ordered(n * (q - 1), t * 2, n);
    vstd::arithmetic::div_mod::lemma_div_is_ordered(t * 2, n * q, n);
    vstd::arithmetic::div_mod::lemma_div_multiples_vanish(q - 1, n);
    vstd::arithmetic::div_mod::lemma_div_multiples_vanish(q, n);
    assert(q - 1 <= u <= q);
    vstd::arithmetic::div_mod::lemma_div_pos_is_pos(t * 2, n);
    assert(0 <= u);

    let w = tdiv(u * d, s);
    vstd::arithmetic::mul::lemma_mul_nonnegative(u, d);
    assert(w == (u * d) / s);
    vstd::arithmetic::mul::lemma_mul_inequality(u, q, d);
    vstd::arithmetic::mul::lemma_mul_is_commutative(q, d);
    assert(u * d <= (v - min) * s - r);
    vstd::arithmetic::div_mod::lemma_div_is_ordered(u * d, (v - min) * s, s);
    vstd::arithmetic::div_mod::lemma_div_by_multiple(v - min, s);
    assert(w <= v - min);
    vstd::arithmetic::div_mod::lemma_div_pos_is_pos(u * d, s);
    assert(0 <= w);

    vstd::arithmetic::mul::lemma_mul_inequality(q - 1, u, d);
    vstd::arithmetic::mul::lemma_mul_is_distributive_sub_other_way(d, q, 1);
    assert((q - 1) * d == q * d - d);
    vstd::arithmetic::div_mod::lemma_fundamental_div_mod(u * d, s);
    vstd::arithmetic::div_mod::lemma_mod_bound(u * d, s);
    assert((w + 1) * s > u * d) by {
        vstd::arithmetic::mul::lemma_mul_is_distributive_add_other_way(s, w, 1);
        vstd::arithmetic::mul::lemma_mul_is_commutative(w, s);
    }
    assert(u * d >= (v - min) * s - r - d);
    assert((w + 1) * s + 2 * d > (v - min) * s);

    assert(rescaled_value(t, n, min, max) == sat64(w + min));
    assert(sat64(w + min) == w + min);
}

/// The DCT codec: the transform parameters and the three working buffers of
/// the last successful [`apply`](Dct::apply) — the normalized window, the
/// truncated coefficients, and the rescaled reconstruction.
pub struct Dct {
    pub params: DctParams,
    pub dct_input: Vec<i64>,
    pub dct_coeffs: Vec<i64>,
    pub dct_output: Vec<i64>,
}

impl Dct {
    /// A codec with the given initial parameters and empty buffers. The
    /// parameters are validated on each recomputation, not here.
    pub fn new(params: DctParams) -> (r: Dct)
        ensures
            r.params == params,
            r.dct_input@.len() == 0,
            r.dct_coeffs@.len() == 0,
            r.dct_output@.len() == 0,
    {
        Dct { params, dct_input: Vec::new(), dct_coeffs: Vec::new(), dct_output: Vec::new() }
    }

    /// Read-only view of the last reconstruction.
    pub fn outputs(&self) -> (r: &Vec<i64>)
        ensures
            r@ == self.dct_output@,
    {
        &self.dct_output
    }

    /// Recompute the full pipeline: select the window of the first
    /// `outputs_count` readings, normalize it into `[0, 1]` form, forward
    /// transform, zero every coefficient at index `coeffs_count` or beyond,
    /// inverse transform, and rescale back to the amplitude range.
    ///
    /// Rejected requests change nothing: the prior parameters and buffers
    /// stay exactly as they were. A `ConfigurationError` reports an invalid
    /// parameter combination; a `DataError` reports degenerate data (an empty
    /// amplitude range, or a windowed value outside it). An empty window over
    /// an empty sample sequence is a no-op yielding an empty output.
    pub fn apply<T: DctTransform>(
        &mut self,
        readings: &Vec<Reading>,
        amplitude: (i64, i64),
        transform: &mut T,
    ) -> (r: Result<(), CodecError>)
        requires
            -AMP_LIMIT <= amplitude.0 <= AMP_LIMIT,
            -AMP_LIMIT <= amplitude.1 <= AMP_LIMIT,
        ensures
            final(self).params == old(self).params,
            (r == Err::<(), CodecError>(CodecError::ConfigurationError) <==> {
                &&& !params_ok(old(self).params, readings@.len())
                &&& !empty_noop(old(self).params, readings@.len())
            }),
            (r == Err::<(), CodecError>(CodecError::DataError) <==> {
                &&& params_ok(old(self).params, readings@.len())
                &&& !window_ok(readings@, old(self).params.outputs_count as int, amplitude)
            }),
            r is Err ==> {
                &&& final(self).dct_input@ == old(self).dct_input@
                &&& final(self).dct_coeffs@ == old(self).dct_coeffs@
                &&& final(self).dct_output@ == old(self).dct_output@
            },
            r is Ok ==> {
                &&& final(self).dct_input@.len() == old(self).params.outputs_count
                &&& forall|i: int|
                    0 <= i < old(self).params.outputs_count
                        ==> #[trigger] final(self).dct_input@[i] as int == normalized_value(
                        readings@[i].value as int,
                        amplitude.0 as int,
                        amplitude.1 as int,
                    )
                &&& final(self).dct_coeffs@.len() == old(self).params.outputs_count
                &&& forall|i: int|
                    old(self).params.coeffs_count <= i < old(self).params.outputs_count
                        ==> #[trigger] final(self).dct_coeffs@[i] == 0
                &&& final(self).dct_output@.len() == old(self).params.outputs_count
            },
    {
        let n = self.params.outputs_count;
        let k = self.params.coeffs_count;
        if n == 0 && readings.len() == 0 {
            self.dct_input = Vec::new();
            self.dct_coeffs = Vec::new();
            self.dct_output = Vec::new();
            return Ok(());
        }
        if !(1 <= k && k <= n && n <= readings.len() && k <= COEFFS_CAP) {
            return Err(CodecError::ConfigurationError);
        }
        let normalized = match normalize_window(readings, n, amplitude) {
            Ok(v) => v,
            Err(e) => {
                return Err(e);
            },
        };
        let mut work = copy_vec(&normalized);
        transform.dct2(&mut work);
        fit_len(&mut work, n);
        zero_tail(&mut work, k);
        let coeffs = copy_vec(&work);
        transform.dct3(&mut work);
        fit_len(&mut work, n);
        let output = rescale_outputs(&work, n, amplitude);
        self.dct_input = normalized;
        self.dct_coeffs = coeffs;
        self.dct_output = output;
        Ok(())
    }

    /// Change one parameter by one step, then recompute. A step that would
    /// break the parameter bounds is rejected as a `ConfigurationError`
    /// before anything changes; if the recomputation itself fails, the prior
    /// parameters are restored. Either way a rejected adjustment leaves the
    /// prior parameters and buffers observable exactly as they were.
    pub fn adjust<T: DctTransform>(
        &mut self,
        field: ParamField,
        delta: ParamDelta,
        readings: &Vec<Reading>,
        amplitude: (i64, i64),
        transform: &mut T,
    ) -> (r: Result<(), CodecError>)
        requires
            -AMP_LIMIT <= amplitude.0 <= AMP_LIMIT,
            -AMP_LIMIT <= amplitude.1 <= AMP_LIMIT,
        ensures
            (r == Err::<(), CodecError>(CodecError::ConfigurationError) <==> !candidate_ok(
                adjusted_params(old(self).params, field, delta),
                readings@.len(),
            )),
            (r == Err::<(), CodecError>(CodecError::DataError) <==> {
                &&& candidate_ok(adjusted_params(old(self).params, field, delta), readings@.len())
                &&& !window_ok(
                    readings@,
                    adjusted_params(old(self).params, field, delta).1,
                    amplitude,
                )
            }),
            r is Err ==> {
                &&& final(self).params == old(self).params
                &&& final(self).dct_input@ == old(self).dct_input@
                &&& final(self).dct_coeffs@ == old(self).dct_coeffs@
                &&& final(self).dct_output@ == old(self).dct_output@
            },
            r is Ok ==> {
                &&& final(self).params.coeffs_count == adjusted_params(
                    old(self).params,
                    field,
                    delta,
                ).0
                &&& final(self).params.outputs_count == adjusted_params(
                    old(self).params,
                    field,
                    delta,
                ).1
                &&& final(self).dct_input@.len() == final(self).params.outputs_count
                &&& forall|i: int|
                    0 <= i < final(self).params.outputs_count
                        ==> #[trigger] final(self).dct_input@[i] as int == normalized_value(
                        readings@[i].value as int,
                        amplitude.0 as int,
                        amplitude.1 as int,
                    )
                &&& final(self).dct_coeffs@.len() == final(self).params.outputs_count
                &&& forall|i: int|
                    final(self).params.coeffs_count <= i < final(self).params.outputs_count
                        ==> #[trigger] final(self).dct_coeffs@[i] == 0
                &&& final(self).dct_output@.len() == final(self).params.outputs_count
            },
    {
        let c = self.params.coeffs_count;
        let o = self.params.outputs_count;
        let mut c2 = c;
        let mut o2 = o;
        match field {
            ParamField::Outputs => match delta {
                ParamDelta::Increment => {
                    if o >= readings.len() {
                        return Err(CodecError::ConfigurationError);
                    }
                    o2 = o + 1;
                },
                ParamDelta::Decrement => {
                    if o == 0 {
                        return Err(CodecError::ConfigurationError);
                    }
                    o2 = o - 1;
                },
            },
            ParamField::Coeffs => match delta {
                ParamDelta::Increment => {
                    if c >= COEFFS_CAP {
                        return Err(CodecError::ConfigurationError);
                    }
                    c2 = c + 1;
                },
                ParamDelta::Decrement => {
                    if c == 0 {
                        return Err(CodecError::ConfigurationError);
                    }
                    c2 = c - 1;
                },
            },
        }
        if !(1 <= c2 && c2 <= o2 && o2 <= readings.len() && c2 <= COEFFS_CAP) {
            return Err(CodecError::ConfigurationError);
        }
        let prev = self.params;
        self.params = DctParams { coeffs_count: c2, outputs_count: o2 };
        match self.apply(readings, amplitude, transform) {
            Ok(u) => Ok(u),
            Err(e) => {
                self.params = prev;
                Err(e)
            },
        }
    }
}

} // verus!
