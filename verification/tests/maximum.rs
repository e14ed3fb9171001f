use tars::errors::TaError;
use tars::indicators::Maximum;

/// The integer that stands for a number: it orders as the number does.
fn key(x: f64) -> i64 {
    let bits = (x + 0.0).to_bits() as i64;
    bits ^ (((bits >> 63) as u64) >> 1) as i64
}

/// The number that a key stands for.
fn value(k: i64) -> f64 {
    f64::from_bits((k ^ (((k >> 63) as u64) >> 1) as i64) as u64)
}

fn next(max: &mut Maximum, x: f64) -> f64 {
    value(max.nexta(key(x)))
}

#[test]
fn maximum_new_fails_on_zero_only() {
    assert!(Maximum::new(0).is_err());
    assert_eq!(Maximum::new(0).unwrap_err(), TaError::InvalidParameter);
    assert!(Maximum::new(1).is_ok());
}

#[test]
fn maximum_of_numbers() {
    let mut max = Maximum::new(3).unwrap();

    assert_eq!(next(&mut max, 4.0), 4.0);
    assert_eq!(next(&mut max, 1.2), 4.0);
    assert_eq!(next(&mut max, 5.0), 5.0);
    assert_eq!(next(&mut max, 3.0), 5.0);
    assert_eq!(next(&mut max, 4.0), 5.0);
    assert_eq!(next(&mut max, 0.0), 4.0);
    assert_eq!(next(&mut max, -1.0), 4.0);
    assert_eq!(next(&mut max, -2.0), 0.0);
    assert_eq!(next(&mut max, -1.5), -1.0);
}

#[test]
fn maximum_of_integers() {
    let mut max = Maximum::new(2).unwrap();
    assert_eq!(max.nexta(-5), -5);
    assert_eq!(max.nexta(-9), -5);
    assert_eq!(max.nexta(-7), -7);
    assert_eq!(max.nexta(i64::MIN), -7);
    assert_eq!(max.nexta(i64::MIN), i64::MIN);
    assert_eq!(max.nexta(i64::MAX), i64::MAX);
}

#[test]
fn maximum_first_output_is_first_input() {
    for period in 1..6 {
        for x in [-7i64, 0, 3, i64::MIN, i64::MAX] {
            let mut max = Maximum::new(period).unwrap();
            assert_eq!(max.nexta(x), x);
        }
    }
}

/// A fixed sequence that looks irregular.
fn samples(count: usize) -> Vec<i64> {
    let mut state: u64 = 0x9e37_79b9_7f4a_7c15;
    let mut out = Vec::new();
    for _ in 0..count {
        state ^= state << 13;
        state ^= state >> 7;
        state ^= state << 17;
        out.push((state % 41) as i64 - 20);
    }
    out
}

#[test]
fn maximum_matches_a_rescan_of_the_recent_inputs() {
    let inputs = samples(200);
    for period in 1..12 {
        let mut max = Maximum::new(period).unwrap();
        for (n, &x) in inputs.iter().enumerate() {
            let from = (n + 1).saturating_sub(period);
            let expected = *inputs[from..=n].iter().max().unwrap();
            assert_eq!(max.nexta(x), expected);
        }
    }
}

#[test]
fn maximum_after_reset_behaves_as_new() {
    let inputs = samples(60);
    for period in 1..8 {
        let mut used = Maximum::new(period).unwrap();
        for &x in &inputs[..37] {
            used.nexta(x);
        }
        used.reset();
        used.reset();
        let mut fresh = Maximum::new(period).unwrap();
        for &x in &inputs[20..] {
            assert_eq!(used.nexta(x), fresh.nexta(x));
        }
        assert_eq!(used.period(), period);
    }
}

#[test]
fn maximum_window_is_oldest_first() {
    let mut max = Maximum::new(3).unwrap();
    assert_eq!(max.window(), vec![i64::MIN, i64::MIN, i64::MIN]);
    max.nexta(5);
    max.nexta(6);
    assert_eq!(max.window(), vec![i64::MIN, 5, 6]);
    max.nexta(7);
    max.nexta(8);
    assert_eq!(max.window(), vec![6, 7, 8]);
}

#[test]
fn maximum_default_and_label() {
    let max = Maximum::default();
    assert_eq!(max.period(), 14);
    assert_eq!(max.label(), "MAX(14)");
    assert_eq!(Maximum::new(10).unwrap().label(), "MAX(10)");
}
