//! Exponential smoothing over the whole history.

use crate::errors::TaError;
use crate::smoothing::{blend, plain_ema, Ratio};
use crate::text::{label, label_text};
use vstd::prelude::*;

verus! {

/// Which rule of the recurrence an update follows.
#[derive(Debug, Clone, Copy, PartialEq, Eq, Structural)]
pub enum EmaRule {
    /// The first input, ever or since a reset: it becomes the average as it is.
    Seed,
    /// Any later input: it is blended into the average.
    Blend,
}

impl EmaRule {
    /// The average after the update, in exact arithmetic.
    pub open spec fn apply(self, k: real, current: real, input: real) -> real {
        match self {
            EmaRule::Seed => input,
            EmaRule::Blend => blend(k, input, current),
        }
    }
}

/// The bookkeeping of a smoother: its period, and whether it still waits for
/// its first input.
pub struct EmaState {
    pub period: usize,
    pub is_new: bool,
}

impl EmaState {
    /// The state of a smoother that has seen nothing.
    pub open spec fn fresh(period: usize) -> EmaState {
        EmaState { period, is_new: true }
    }

    /// The rule that the next update follows.
    pub open spec fn rule(self) -> EmaRule {
        if self.is_new {
            EmaRule::Seed
        } else {
            EmaRule::Blend
        }
    }

    /// The state after the next update.
    pub open spec fn advance(self) -> EmaState {
        EmaState { period: self.period, is_new: false }
    }

    /// The state after a reset.
    pub open spec fn reset(self) -> EmaState {
        EmaState::fresh(self.period)
    }
}

/// An exponential moving average (EMA), also known as an exponentially
/// weighted moving average (EWMA).
///
/// The first input seeds the average; every later input `x` moves it to
/// `k * x + (1 - k) * average`, where `k` is one over the period. This type
/// keeps the bookkeeping; the caller keeps the average and moves it as each
/// `EmaRule` says.
#[derive(Debug, Clone)]
pub struct ExponentialMovingAverage {
    period: usize,
    is_new: bool,
}

impl View for ExponentialMovingAverage {
    type V = EmaState;

    closed spec fn view(&self) -> EmaState {
        EmaState { period: self.period, is_new: self.is_new }
    }
}

impl ExponentialMovingAverage {
    /// Creates a smoother with coefficient one over `period`. Fails exactly
    /// when `period` is zero.
    pub fn new(period: usize) -> (r: Result<Self, TaError>)
        ensures
            match r {
                Ok(e) => period > 0 && e@ == EmaState::fresh(period),
                Err(e) => period == 0 && e == TaError::InvalidParameter,
            },
    {
        match period {
            0 => Err(TaError::InvalidParameter),
            _ => Ok(Self { period, is_new: true }),
        }
    }

    /// The configured period.
    pub fn period(&self) -> (p: usize)
        ensures
            p == self@.period,
    {
        self.period
    }

    /// Whether the smoother still waits for its first input.
    pub fn is_new(&self) -> (b: bool)
        ensures
            b == self@.is_new,
    {
        self.is_new
    }

    /// The smoothing coefficient `k`: one over the period.
    pub fn coefficient(&self) -> (k: Ratio)
        ensures
            k == (Ratio { numerator: 1, denominator: self@.period as u128 }),
            k.value() == 1real / self@.period as real,
    {
        Ratio { numerator: 1, denominator: self.period as u128 }
    }

    /// Takes note of one more input and says by which rule it moves the
    /// average.
    pub fn nexta(&mut self) -> (rule: EmaRule)
        ensures
            rule == old(self)@.rule(),
            final(self)@ == old(self)@.advance(),
    {
        if self.is_new {
            self.is_new = false;
            EmaRule::Seed
        } else {
            EmaRule::Blend
        }
    }

    /// Forgets every input: the smoother is again as `new` made it.
    pub fn reset(&mut self)
        ensures
            final(self)@ == old(self)@.reset(),
    {
        self.is_new = true;
    }

    /// The label of the smoother: `EMA`, then the period in parentheses.
    pub fn label(&self) -> (s: String)
        ensures
            s@ == label_text("EMA"@, self@.period as nat),
    {
        label("EMA", self.period)
    }
}

impl Default for ExponentialMovingAverage {
    /// A smoother of period 9.
    fn default() -> (e: Self)
        ensures
            e@ == EmaState::fresh(9),
    {
        Self { period: 9, is_new: true }
    }
}

/// A smoother together with the average that its caller keeps for it, in
/// exact arithmetic.
pub struct EmaTrack {
    pub state: EmaState,
    pub current: real,
}

impl EmaTrack {
    /// A smoother that has seen nothing; its average starts at zero.
    pub open spec fn fresh(period: usize) -> EmaTrack {
        EmaTrack { state: EmaState::fresh(period), current: 0real }
    }

    /// The track after one more input, with smoothing coefficient `k`.
    pub open spec fn feed(self, k: real, input: real) -> EmaTrack {
        EmaTrack {
            state: self.state.advance(),
            current: self.state.rule().apply(k, self.current, input),
        }
    }

    /// The track that this one becomes when it is fed `inputs`.
    pub open spec fn run(self, k: real, inputs: Seq<real>) -> EmaTrack
        decreases inputs.len(),
    {
        if inputs.len() == 0 {
            self
        } else {
            self.run(k, inputs.drop_last()).feed(k, inputs.last())
        }
    }

    /// The track of a new smoother after it was fed `inputs`.
    pub open spec fn after(period: usize, k: real, inputs: Seq<real>) -> EmaTrack {
        EmaTrack::fresh(period).run(k, inputs)
    }

    /// The track after a reset: the average goes back to zero.
    pub open spec fn reset(self) -> EmaTrack {
        EmaTrack::fresh(self.state.period)
    }
}

/// The rules that the smoother hands out compute the exponential moving
/// average of everything it was fed, and the smoother waits for a seed only
/// while it has been fed nothing.
pub proof fn lemma_track_is_plain(period: usize, k: real, inputs: Seq<real>)
    ensures
        EmaTrack::after(period, k, inputs).current == plain_ema(k, inputs),
        EmaTrack::after(period, k, inputs).state == (EmaState {
            period,
            is_new: inputs.len() == 0,
        }),
    decreases inputs.len(),
{
    if inputs.len() > 0 {
        lemma_track_is_plain(period, k, inputs.drop_last());
    }
}

/// Seeding: the first update gives the first input exactly, whatever the
/// coefficient.
pub proof fn lemma_first_output_is_seed(period: usize, k: real, input: real)
    ensures
        EmaTrack::after(period, k, seq![input]).current == input,
{
    lemma_track_is_plain(period, k, seq![input]);
}

/// Reset: a smoother that was reset goes on exactly as a new one of its
/// period does, whatever it was fed before, and a second reset changes
/// nothing.
pub proof fn lemma_reset_starts_afresh(period: usize, k: real, history: Seq<real>, inputs: Seq<real>)
    ensures
        EmaTrack::after(period, k, history).reset() == EmaTrack::fresh(period),
        EmaTrack::after(period, k, history).reset().run(k, inputs) == EmaTrack::after(
            period,
            k,
            inputs,
        ),
        EmaTrack::after(period, k, history).reset().reset() == EmaTrack::after(
            period,
            k,
            history,
        ).reset(),
        EmaTrack::after(period, k, history).state.reset() == EmaState::fresh(period),
{
    lemma_track_is_plain(period, k, history);
}

} // verus!
