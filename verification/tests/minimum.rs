use tars::errors::TaError;
use tars::indicators::Minimum;

/// The integer that stands for a number: it orders as the number does.
fn key(x: f64) -> i64 {
    let bits = (x + 0.0).to_bits() as i64;
    bits ^ (((bits >> 63) as u64) >> 1) as i64
}

/// The number that a key stands for.
fn value(k: i64) -> f64 {
    f64::from_bits((k ^ (((k >> 63) as u64) >> 1) as i64) as u64)
}

fn next(min: &mut Minimum, x: f64) -> f64 {
    value(min.nexta(key(x)))
}

struct Bar {
    low: f64,
}

impl Bar {
    fn new() -> Self {
        Bar { low: 0.0 }
    }

    fn low(mut self, low: f64) -> Self {
        self.low = low;
        self
    }
}

fn next_bar(min: &mut Minimum, bar: &Bar) -> f64 {
    next(min, bar.low)
}

#[test]
fn minimum_test_new() {
    assert!(Minimum::new(0).is_err());
    assert!(Minimum::new(1).is_ok());
}

#[test]
fn minimum_test_next() {
    let mut min = Minimum::new(3).unwrap();

    assert_eq!(next(&mut min, 4.0), 4.0);
    assert_eq!(next(&mut min, 1.2), 1.2);
    assert_eq!(next(&mut min, 5.0), 1.2);
    assert_eq!(next(&mut min, 3.0), 1.2);
    assert_eq!(next(&mut min, 4.0), 3.0);
    assert_eq!(next(&mut min, 6.0), 3.0);
    assert_eq!(next(&mut min, 7.0), 4.0);
    assert_eq!(next(&mut min, 8.0), 6.0);
    assert_eq!(next(&mut min, -9.0), -9.0);
    assert_eq!(next(&mut min, 0.0), -9.0);
}

#[test]
fn test_next_with_bars() {
    fn bar(low: f64) -> Bar {
        Bar::new().low(low)
    }

    let mut min = Minimum::new(3).unwrap();

    assert_eq!(next_bar(&mut min, &bar(4.0)), 4.0);
    assert_eq!(next_bar(&mut min, &bar(4.0)), 4.0);
    assert_eq!(next_bar(&mut min, &bar(1.2)), 1.2);
    assert_eq!(next_bar(&mut min, &bar(5.0)), 1.2);
}

#[test]
fn minimum_test_reset() {
    let mut min = Minimum::new(10).unwrap();

    assert_eq!(next(&mut min, 5.0), 5.0);
    assert_eq!(next(&mut min, 7.0), 5.0);

    min.reset();
    assert_eq!(next(&mut min, 8.0), 8.0);
}

#[test]
fn minimum_test_default() {
    Minimum::default();
}

#[test]
fn minimum_test_display() {
    let indicator = Minimum::new(10).unwrap();
    assert_eq!(indicator.label(), "MIN(10)");
}

#[test]
fn minimum_new_reports_invalid_parameter() {
    assert_eq!(Minimum::new(0).unwrap_err(), TaError::InvalidParameter);
}

#[test]
fn minimum_default_period_is_14() {
    let min = Minimum::default();
    assert_eq!(min.period(), 14);
    assert_eq!(min.label(), "MIN(14)");
}

#[test]
fn minimum_period_is_kept() {
    let mut min = Minimum::new(5).unwrap();
    assert_eq!(min.period(), 5);
    min.nexta(3);
    min.reset();
    assert_eq!(min.period(), 5);
}

#[test]
fn minimum_of_integers() {
    let mut min = Minimum::new(3).unwrap();
    assert_eq!(min.nexta(40), 40);
    assert_eq!(min.nexta(12), 12);
    assert_eq!(min.nexta(50), 12);
    assert_eq!(min.nexta(30), 12);
    assert_eq!(min.nexta(40), 30);
    assert_eq!(min.nexta(60), 30);
    assert_eq!(min.nexta(70), 40);
}

#[test]
fn minimum_window_of_one_returns_each_input() {
    let mut min = Minimum::new(1).unwrap();
    assert_eq!(min.nexta(5), 5);
    assert_eq!(min.nexta(9), 9);
    assert_eq!(min.nexta(-3), -3);
    assert_eq!(min.nexta(i64::MAX), i64::MAX);
    assert_eq!(min.nexta(i64::MIN), i64::MIN);
}

#[test]
fn minimum_rescans_when_the_lowest_leaves() {
    let mut min = Minimum::new(3).unwrap();
    assert_eq!(min.nexta(1), 1);
    assert_eq!(min.nexta(5), 1);
    assert_eq!(min.nexta(4), 1);
    // 1 leaves the window; 4 is the lowest of 5, 4, 9
    assert_eq!(min.nexta(9), 4);
    // equal samples: the lowest stays after one of them leaves
    assert_eq!(min.nexta(4), 4);
    assert_eq!(min.nexta(8), 4);
    assert_eq!(min.nexta(8), 4);
    assert_eq!(min.nexta(8), 8);
}

#[test]
fn minimum_blank_never_undercuts_an_input() {
    let mut min = Minimum::new(4).unwrap();
    assert_eq!(min.nexta(i64::MAX), i64::MAX);
    assert_eq!(min.nexta(i64::MAX - 1), i64::MAX - 1);

    let mut min = Minimum::new(4).unwrap();
    assert_eq!(next(&mut min, f64::INFINITY), f64::INFINITY);
    assert_eq!(next(&mut min, 1.0e308), 1.0e308);
}

#[test]
fn minimum_first_output_is_first_input() {
    for period in 1..6 {
        for x in [-7i64, 0, 3, i64::MIN, i64::MAX] {
            let mut min = Minimum::new(period).unwrap();
            assert_eq!(min.nexta(x), x);
        }
    }
}

/// A fixed sequence that looks irregular.
fn samples(count: usize) -> Vec<i64> {
    let mut state: u64 = 0x2545_f491_4f6c_dd1d;
    let mut out = Vec::new();
    for _ in 0..count {
        state ^= state << 13;
        state ^= state >> 7;
        state ^= state << 17;
        out.push((state % 41) as i64 - 20);
    }
    out
}

#[test]
fn minimum_matches_a_rescan_of_the_recent_inputs() {
    let inputs = samples(200);
    for period in 1..12 {
        let mut min = Minimum::new(period).unwrap();
        for (n, &x) in inputs.iter().enumerate() {
            let from = (n + 1).saturating_sub(period);
            let expected = *inputs[from..=n].iter().min().unwrap();
            assert_eq!(min.nexta(x), expected);
        }
    }
}

#[test]
fn minimum_after_reset_behaves_as_new() {
    let inputs = samples(60);
    for period in 1..8 {
        let mut used = Minimum::new(period).unwrap();
        for &x in &inputs[..37] {
            used.nexta(x);
        }
        used.reset();
        used.reset();
        let mut fresh = Minimum::new(period).unwrap();
        for &x in &inputs[20..] {
            assert_eq!(used.nexta(x), fresh.nexta(x));
        }
    }
}

#[test]
fn keys_order_as_numbers_do() {
    let numbers = [
        f64::NEG_INFINITY,
        -1.0e300,
        -9.0,
        -1.2,
        -1.0e-300,
        0.0,
        1.0e-300,
        1.2,
        3.0,
        91.837261,
        1.0e300,
        f64::INFINITY,
    ];
    for i in 0..numbers.len() {
        assert_eq!(value(key(numbers[i])), numbers[i]);
        for j in 0..numbers.len() {
            assert_eq!(numbers[i] < numbers[j], key(numbers[i]) < key(numbers[j]));
        }
    }
    assert_eq!(key(-0.0), key(0.0));
}

#[test]
fn minimum_window_is_oldest_first() {
    let mut min = Minimum::new(3).unwrap();
    assert_eq!(min.window(), vec![i64::MAX, i64::MAX, i64::MAX]);
    min.nexta(5);
    min.nexta(6);
    assert_eq!(min.window(), vec![i64::MAX, 5, 6]);
    min.nexta(7);
    min.nexta(8);
    assert_eq!(min.window(), vec![6, 7, 8]);
    min.nexta(9);
    assert_eq!(min.window(), vec![7, 8, 9]);
    min.reset();
    assert_eq!(min.window(), vec![i64::MAX, i64::MAX, i64::MAX]);
}

#[test]
fn minimum_restored_from_its_window_goes_on_alike() {
    let inputs = samples(50);
    for period in 1..7 {
        let mut min = Minimum::new(period).unwrap();
        for &x in &inputs[..23] {
            min.nexta(x);
        }
        let mut copy = Minimum::new(min.period()).unwrap();
        for x in min.window() {
            copy.nexta(x);
        }
        for &x in &inputs[23..] {
            assert_eq!(copy.nexta(x), min.nexta(x));
        }
    }
}
