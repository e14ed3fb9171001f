use tars::errors::TaError;
use tars::indicators::exponential_moving_average::EmaRule;
use tars::indicators::ExponentialMovingAverage;

/// The smoother with the average that its caller keeps, in floating point.
struct Ema {
    core: ExponentialMovingAverage,
    k: f64,
    current: f64,
}

impl Ema {
    fn new(period: usize) -> Result<Self, TaError> {
        let core = ExponentialMovingAverage::new(period)?;
        let k = core.coefficient();
        Ok(Ema { core, k: k.numerator as f64 / k.denominator as f64, current: 0.0 })
    }

    fn nexta(&mut self, input: f64) -> f64 {
        self.current = match self.core.nexta() {
            EmaRule::Seed => input,
            EmaRule::Blend => self.k * input + (1.0 - self.k) * self.current,
        };
        self.current
    }

    fn reset(&mut self) {
        self.core.reset();
        self.current = 0.0;
    }
}

fn close(a: f64, b: f64) -> bool {
    (a - b).abs() < 1e-12
}

#[test]
fn ema_new_fails_on_zero_only() {
    assert!(ExponentialMovingAverage::new(0).is_err());
    assert_eq!(ExponentialMovingAverage::new(0).unwrap_err(), TaError::InvalidParameter);
    assert!(ExponentialMovingAverage::new(1).is_ok());
    assert!(ExponentialMovingAverage::new(usize::MAX).is_ok());
}

#[test]
fn ema_coefficient_is_one_over_period() {
    for period in [1usize, 2, 3, 9, 14, 1000] {
        let ema = ExponentialMovingAverage::new(period).unwrap();
        let k = ema.coefficient();
        assert_eq!(k.numerator, 1);
        assert_eq!(k.denominator, period as u128);
        assert_eq!(ema.period(), period);
    }
}

#[test]
fn ema_rules_are_seed_then_blend() {
    let mut ema = ExponentialMovingAverage::new(3).unwrap();
    assert_eq!(ema.nexta(), EmaRule::Seed);
    assert_eq!(ema.nexta(), EmaRule::Blend);
    assert_eq!(ema.nexta(), EmaRule::Blend);
    ema.reset();
    assert_eq!(ema.nexta(), EmaRule::Seed);
    assert_eq!(ema.nexta(), EmaRule::Blend);
}

#[test]
fn ema_first_output_is_first_input() {
    for period in [1usize, 2, 3, 9, 100] {
        for x in [2.0, -7.5, 0.0, 91.837261, 1.0e300] {
            let mut ema = Ema::new(period).unwrap();
            assert_eq!(ema.nexta(x), x);
        }
    }
}

#[test]
fn ema_period_three_weighs_the_input_by_a_third() {
    let mut ema = Ema::new(3).unwrap();
    assert_eq!(ema.nexta(2.0), 2.0);
    assert!(close(ema.nexta(5.0), 3.0));
    assert!(close(ema.nexta(1.0), 7.0 / 3.0));
    assert!(close(ema.nexta(6.25), 131.0 / 36.0));
}

#[test]
fn ema_period_two_weighs_the_input_by_a_half() {
    let mut ema = Ema::new(2).unwrap();
    assert_eq!(ema.nexta(2.0), 2.0);
    assert_eq!(ema.nexta(5.0), 3.5);
    assert_eq!(ema.nexta(1.0), 2.25);
    assert_eq!(ema.nexta(6.25), 4.25);
}

#[test]
fn ema_period_one_follows_the_input() {
    let mut ema = Ema::new(1).unwrap();
    for x in [2.0, 5.0, 1.0, 6.25, -3.0] {
        assert_eq!(ema.nexta(x), x);
    }
}

#[test]
fn ema_reset_starts_afresh() {
    let mut ema = Ema::new(5).unwrap();
    assert_eq!(ema.nexta(4.0), 4.0);
    ema.nexta(10.0);
    ema.nexta(15.0);
    ema.nexta(20.0);
    assert!(ema.current != 4.0);

    ema.reset();
    ema.reset();
    assert_eq!(ema.nexta(4.0), 4.0);
    assert!(close(ema.nexta(10.0), 0.2 * 10.0 + 0.8 * 4.0));
}

#[test]
fn ema_default_period_is_9() {
    let ema = ExponentialMovingAverage::default();
    assert_eq!(ema.period(), 9);
    assert_eq!(ema.label(), "EMA(9)");
}

#[test]
fn ema_label() {
    let ema = ExponentialMovingAverage::new(7).unwrap();
    assert_eq!(ema.label(), "EMA(7)");
}

#[test]
fn ema_is_new_until_the_first_input() {
    let mut ema = ExponentialMovingAverage::new(4).unwrap();
    assert!(ema.is_new());
    ema.nexta();
    assert!(!ema.is_new());
    ema.nexta();
    assert!(!ema.is_new());
    ema.reset();
    assert!(ema.is_new());
}

#[test]
fn ema_restored_from_its_state_goes_on_alike() {
    let inputs = [2.0, 5.0, 1.0, 6.25, -3.5, 8.0];
    for seen in 0..inputs.len() {
        let mut ema = Ema::new(3).unwrap();
        for &x in &inputs[..seen] {
            ema.nexta(x);
        }
        let mut copy = Ema::new(ema.core.period()).unwrap();
        if !ema.core.is_new() {
            copy.core.nexta();
        }
        copy.current = ema.current;
        for &x in &inputs[seen..] {
            assert_eq!(copy.nexta(x), ema.nexta(x));
        }
    }
}
