//! Exponential smoothing over exact real numbers: the recurrence that the
//! smoothers follow, and the algebra behind sliding it along a window.

use vstd::prelude::*;

verus! {

/// A smoothing coefficient as an exact fraction.
#[derive(Debug, Clone, Copy, PartialEq, Eq, Structural)]
pub struct Ratio {
    pub numerator: u128,
    pub denominator: u128,
}

impl Ratio {
    /// The number that the fraction stands for.
    pub open spec fn value(self) -> real {
        self.numerator as real / self.denominator as real
    }
}

/// `base` raised to the power `exponent`.
pub open spec fn power(base: real, exponent: nat) -> real
    decreases exponent,
{
    if exponent == 0 {
        1real
    } else {
        base * power(base, (exponent - 1) as nat)
    }
}

/// One step of the recurrence: `input` weighted by `k`, the value so far by
/// `1 - k`.
pub open spec fn blend(k: real, input: real, previous: real) -> real {
    input * k + previous * (1real - k)
}

/// The exponential moving average of `inputs` with coefficient `k`, computed
/// from scratch: the first input seeds it, every later one is blended in.
pub open spec fn plain_ema(k: real, inputs: Seq<real>) -> real
    decreases inputs.len(),
{
    if inputs.len() == 0 {
        0real
    } else if inputs.len() == 1 {
        inputs[0]
    } else {
        blend(k, inputs.last(), plain_ema(k, inputs.drop_last()))
    }
}

/// Replacing the seed of an average by `seed` moves the average by the change
/// of the seed, weighted by `1 - k` once for every input that followed it.
pub proof fn lemma_change_of_seed(k: real, inputs: Seq<real>, seed: real)
    requires
        inputs.len() > 0,
    ensures
        plain_ema(k, inputs.update(0, seed)) == plain_ema(k, inputs) + power(
            1real - k,
            (inputs.len() - 1) as nat,
        ) * (seed - inputs[0]),
    decreases inputs.len(),
{
    let changed = inputs.update(0, seed);
    if inputs.len() == 1 {
        assert(power(1real - k, 0) == 1real);
    } else {
        let head = inputs.drop_last();
        assert(changed.drop_last() =~= head.update(0, seed));
        lemma_change_of_seed(k, head, seed);
        let m = (inputs.len() - 1) as nat;
        let w = power(1real - k, (m - 1) as nat);
        assert(power(1real - k, m) == (1real - k) * w);
        let e = plain_ema(k, head);
        let d = seed - inputs[0];
        let last = inputs.last();
        assert(last * k + (e + w * d) * (1real - k) == (last * k + e * (1real - k)) + ((1real - k)
            * w) * d) by (nonlinear_arith);
    }
}

/// An average does not change when its seed is fed to it a second time.
pub proof fn lemma_repeated_seed(k: real, inputs: Seq<real>)
    requires
        inputs.len() > 0,
    ensures
        plain_ema(k, seq![inputs[0]] + inputs) == plain_ema(k, inputs),
    decreases inputs.len(),
{
    let longer = seq![inputs[0]] + inputs;
    assert(longer.len() == inputs.len() + 1);
    assert(longer.last() == inputs.last());
    if inputs.len() == 1 {
        let a = inputs[0];
        assert(longer.drop_last() =~= seq![a]);
        assert(plain_ema(k, longer.drop_last()) == a);
        assert(plain_ema(k, longer) == blend(k, a, a));
        assert(a * k + a * (1real - k) == a) by (nonlinear_arith);
    } else {
        let head = inputs.drop_last();
        assert(longer.drop_last() =~= seq![head[0]] + head);
        lemma_repeated_seed(k, head);
        assert(plain_ema(k, longer) == blend(k, inputs.last(), plain_ema(k, longer.drop_last())));
    }
}

/// Sliding a window by one input: the average over the new window is the old
/// average blended with the input, less the weight that the input leaving
/// the window had as seed, plus the weight that the new oldest input has in
/// its place.
pub proof fn lemma_slide(k: real, window: Seq<real>, input: real)
    requires
        window.len() > 0,
    ensures
        ({
            let slid = window.drop_first().push(input);
            let factor = power(1real - k, window.len());
            plain_ema(k, slid) == blend(k, input, plain_ema(k, window)) - window[0] * factor
                + slid[0] * factor
        }),
{
    let slid = window.drop_first().push(input);
    let period = window.len();
    let factor = power(1real - k, period);
    let below = power(1real - k, (period - 1) as nat);
    assert(factor == (1real - k) * below);
    let e = plain_ema(k, window);
    if period == 1 {
        assert(below == 1real);
        let a = window[0];
        assert(input == input * k + a * (1real - k) - a * ((1real - k) * 1real) + input * ((1real
            - k) * 1real)) by (nonlinear_arith);
    } else {
        let kept = window.drop_first();
        assert(slid.drop_last() =~= kept);
        assert(slid[0] == window[1]);
        lemma_repeated_seed(k, kept);
        assert(seq![kept[0]] + kept =~= window.update(0, window[1]));
        lemma_change_of_seed(k, window, window[1]);
        let d = window[1] - window[0];
        assert(input * k + (e + below * d) * (1real - k) == input * k + e * (1real - k) - window[0]
            * ((1real - k) * below) + window[1] * ((1real - k) * below)) by (nonlinear_arith)
            requires
                d == window[1] - window[0],
        ;
    }
}

} // verus!
