use periodogram::reading::Reading;
use periodogram::signal::SampleDraw;
use periodogram::signal::noised_signal_gen;

const TICK: i64 = 1_000_000_000_000;

fn draw(time: i64, carrier: f64, noise: f64) -> SampleDraw {
    SampleDraw {
        time,
        carrier: (carrier * TICK as f64).round() as i64,
        noise: (noise * TICK as f64).round() as i64,
    }
}

#[test]
fn gen_counts_and_order() {
    let draws = vec![
        draw(500, 1.0, 0.0),
        draw(100, -0.5, 0.1),
        draw(900, 0.25, -0.1),
        draw(100, 2.0, 0.0),
        draw(0, 0.0, 0.0),
    ];
    let readings = noised_signal_gen(3 * TICK, 1_000, &draws, false);
    assert_eq!(readings.len(), draws.len());
    for pair in readings.windows(2) {
        assert!(pair[0].when <= pair[1].when);
    }
    assert_eq!(readings[0].when, 1_000);
    assert_eq!(readings[4].when, 1_900);
}

#[test]
fn gen_empty() {
    let draws: Vec<SampleDraw> = Vec::new();
    let readings = noised_signal_gen(3 * TICK, 0, &draws, false);
    assert!(readings.is_empty());
}

#[test]
fn gen_clamp_signed_bounds() {
    let amp: i64 = 2 * TICK;
    let draws = vec![
        draw(0, 1.5, 0.4),
        draw(1, 1.9, 0.4),
        draw(2, -1.9, -0.4),
        draw(3, -0.5, 0.25),
    ];
    let readings = noised_signal_gen(amp, 0, &draws, false);
    for r in &readings {
        assert!(-amp <= r.value && r.value <= amp);
    }
    assert_eq!(readings[0].value, (1.9f64 * TICK as f64).round() as i64);
    assert_eq!(readings[1].value, amp);
    assert_eq!(readings[2].value, -amp);
    assert_eq!(readings[3].value, (-0.25f64 * TICK as f64).round() as i64);
}

#[test]
fn gen_clamp_rectified_bounds() {
    let amp: i64 = 2 * TICK;
    let draws = vec![
        draw(0, -1.5, 0.25),
        draw(1, 1.9, 0.4),
        draw(2, -1.9, -0.4),
        draw(3, 0.5, 0.0),
    ];
    let readings = noised_signal_gen(amp, 0, &draws, true);
    for r in &readings {
        assert!(0 <= r.value && r.value <= amp);
    }
    assert_eq!(readings[0].value, (1.25f64 * TICK as f64).round() as i64);
    assert_eq!(readings[1].value, amp);
    assert_eq!(readings[2].value, amp);
    assert_eq!(readings[3].value, (0.5f64 * TICK as f64).round() as i64);
}

#[test]
fn gen_ties_keep_draw_order() {
    let draws = vec![draw(5, 1.0, 0.0), draw(5, -1.0, 0.0), draw(5, 0.5, 0.0)];
    let readings = noised_signal_gen(2 * TICK, 0, &draws, false);
    let expected: Vec<Reading> = draws
        .iter()
        .map(|d| Reading { value: d.carrier + d.noise, when: d.time })
        .collect();
    assert_eq!(readings, expected);
}
