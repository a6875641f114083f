use periodogram::codec::CodecError;
use periodogram::codec::normalize_window;
use periodogram::codec::rescale_outputs;
use periodogram::codec::zero_tail;
use periodogram::reading::Reading;

const TICK: i64 = 1_000_000_000_000;

fn reading(when: i64, value_ticks: i64) -> Reading {
    Reading { value: value_ticks, when }
}

#[test]
fn normalize_exact_values() {
    let readings = vec![
        reading(0, -2 * TICK),
        reading(1, 0),
        reading(2, TICK),
        reading(3, 2 * TICK),
    ];
    let amplitude: (i64, i64) = (-2 * TICK, 2 * TICK);
    let normalized = normalize_window(&readings, 4, amplitude).unwrap();
    assert_eq!(normalized, vec![0, TICK / 2, 3 * TICK / 4, TICK]);
}

#[test]
fn normalize_partial_window() {
    let readings = vec![reading(0, 0), reading(1, 9 * TICK)];
    let amplitude: (i64, i64) = (-2 * TICK, 2 * TICK);
    // only the windowed prefix is read, so the out-of-range tail is ignored
    let normalized = normalize_window(&readings, 1, amplitude).unwrap();
    assert_eq!(normalized, vec![TICK / 2]);
}

#[test]
fn normalize_rejects_empty_range() {
    let readings = vec![reading(0, 0)];
    assert_eq!(normalize_window(&readings, 1, (TICK, TICK)), Err(CodecError::DataError));
    assert_eq!(normalize_window(&readings, 1, (TICK, -TICK)), Err(CodecError::DataError));
}

#[test]
fn normalize_rejects_out_of_range_value() {
    let readings = vec![reading(0, 3 * TICK)];
    let amplitude: (i64, i64) = (-2 * TICK, 2 * TICK);
    assert_eq!(normalize_window(&readings, 1, amplitude), Err(CodecError::DataError));
}

#[test]
fn zero_tail_zeroes_exactly_the_tail() {
    let mut v = vec![5, 6, 7, 8];
    zero_tail(&mut v, 2);
    assert_eq!(v, vec![5, 6, 0, 0]);

    let mut w = vec![5, 6];
    zero_tail(&mut w, 2);
    assert_eq!(w, vec![5, 6]);

    let mut z = vec![5, 6];
    zero_tail(&mut z, 0);
    assert_eq!(z, vec![0, 0]);
}

#[test]
fn rescale_exact_values() {
    // n = 1: a full-scale tick value maps to the top of the range after the
    // 2 / n doubling is undone by the transform convention's factor
    let t = vec![TICK / 2];
    let amplitude: (i64, i64) = (-2 * TICK, 2 * TICK);
    let out = rescale_outputs(&t, 1, amplitude);
    assert_eq!(out, vec![2 * TICK]);

    // n = 2: values scale by 2 / 2 = 1
    let t2 = vec![0, TICK];
    let out2 = rescale_outputs(&t2, 2, amplitude);
    assert_eq!(out2, vec![-2 * TICK, 2 * TICK]);

    // negative reconstructed values land below the range's midpoint
    let t3 = vec![-TICK / 4, TICK / 4];
    let out3 = rescale_outputs(&t3, 2, amplitude);
    assert_eq!(out3, vec![-3 * TICK, -TICK]);
}
