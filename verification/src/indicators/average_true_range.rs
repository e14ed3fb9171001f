//! The true range of each bar, smoothed exponentially.

use crate::errors::TaError;
use crate::indicators::exponential_moving_average::{
    lemma_track_is_plain, EmaRule, EmaState, EmaTrack, ExponentialMovingAverage,
};
use crate::indicators::true_range::{range_step, true_ranges, Bar, RangeStep, TrueRange};
use crate::smoothing::{plain_ema, Ratio};
use crate::text::{label, label_text};
use vstd::prelude::*;

verus! {

/// What one update does: the rule that gives the true range of the bar, then
/// the rule by which that range moves the average.
#[derive(Debug, Clone, Copy, PartialEq, Eq)]
pub struct AtrStep<T> {
    pub range: RangeStep<T>,
    pub smoothing: EmaRule,
}

/// What an average true range holds: the close of the bar before, if any,
/// and the bookkeeping of its smoother.
pub struct AtrState<T> {
    pub previous_close: Option<T>,
    pub ema: EmaState,
}

impl<T> AtrState<T> {
    /// The state of an indicator that has seen nothing.
    pub open spec fn fresh(period: usize) -> AtrState<T> {
        AtrState { previous_close: None, ema: EmaState::fresh(period) }
    }

    /// What the next bar does.
    pub open spec fn step(self) -> AtrStep<T> {
        AtrStep { range: range_step(self.previous_close), smoothing: self.ema.rule() }
    }

    /// The state after a bar that closes at `close`.
    pub open spec fn advance(self, close: T) -> AtrState<T> {
        AtrState { previous_close: Some(close), ema: self.ema.advance() }
    }

    /// The state after a reset: both parts are reset.
    pub open spec fn reset(self) -> AtrState<T> {
        AtrState { previous_close: None, ema: self.ema.reset() }
    }
}

/// Average true range (ATR).
///
/// The indicator owns a true range and an exponential moving average, and
/// feeds the first into the second within one update. Its period is that of
/// the smoother.
#[derive(Debug, Clone)]
pub struct AverageTrueRange<T> {
    true_range: TrueRange<T>,
    ema: ExponentialMovingAverage,
}

impl<T> View for AverageTrueRange<T> {
    type V = AtrState<T>;

    closed spec fn view(&self) -> AtrState<T> {
        AtrState { previous_close: self.true_range@, ema: self.ema@ }
    }
}

impl<T: Copy> AverageTrueRange<T> {
    /// Creates an indicator whose smoother has the given period. Fails
    /// exactly when `period` is zero.
    pub fn new(period: usize) -> (r: Result<Self, TaError>)
        ensures
            match r {
                Ok(a) => period > 0 && a@ == AtrState::<T>::fresh(period),
                Err(e) => period == 0 && e == TaError::InvalidParameter,
            },
    {
        match ExponentialMovingAverage::new(period) {
            Ok(ema) => Ok(Self { true_range: TrueRange::new(), ema }),
            Err(e) => Err(e),
        }
    }

    /// The period of the smoother.
    pub fn period(&self) -> (p: usize)
        ensures
            p == self@.ema.period,
    {
        self.ema.period()
    }

    /// The close of the bar before, if there was one.
    pub fn previous_close(&self) -> (c: Option<T>)
        ensures
            c == self@.previous_close,
    {
        self.true_range.previous_close()
    }

    /// The smoothing coefficient: that of the smoother, one over the period.
    pub fn coefficient(&self) -> (k: Ratio)
        ensures
            k == (Ratio { numerator: 1, denominator: self@.ema.period as u128 }),
            k.value() == 1real / self@.ema.period as real,
    {
        self.ema.coefficient()
    }

    /// Takes note of a bar that closes at `close`, and says how its true
    /// range is found and how that range moves the average.
    pub fn nexta(&mut self, close: T) -> (step: AtrStep<T>)
        ensures
            step == old(self)@.step(),
            final(self)@ == old(self)@.advance(close),
    {
        let range = self.true_range.nexta(close);
        let smoothing = self.ema.nexta();
        AtrStep { range, smoothing }
    }

    /// Forgets every bar: the indicator is again as `new` made it.
    pub fn reset(&mut self)
        ensures
            final(self)@ == old(self)@.reset(),
    {
        self.true_range.reset();
        self.ema.reset();
    }

    /// The label of the indicator: `ATR`, then the period in parentheses.
    pub fn label(&self) -> (s: String)
        ensures
            s@ == label_text("ATR"@, self@.ema.period as nat),
    {
        label("ATR", self.ema.period())
    }
}

impl<T: Copy> Default for AverageTrueRange<T> {
    /// An indicator whose smoother has period 14.
    fn default() -> (a: Self)
        ensures
            a@ == AtrState::<T>::fresh(14),
    {
        match Self::new(14) {
            Ok(a) => a,
            Err(_) => vstd::pervasive::unreached(),
        }
    }
}

/// An indicator together with the average that its caller keeps for it, in
/// exact arithmetic.
pub struct AtrTrack {
    pub state: AtrState<real>,
    pub current: real,
}

impl AtrTrack {
    /// An indicator that has seen nothing; its average starts at zero.
    pub open spec fn fresh(period: usize) -> AtrTrack {
        AtrTrack { state: AtrState::fresh(period), current: 0real }
    }

    /// The track after one more bar, with smoothing coefficient `k`.
    pub open spec fn feed(self, k: real, bar: Bar) -> AtrTrack {
        let step = self.state.step();
        AtrTrack {
            state: self.state.advance(bar.close),
            current: step.smoothing.apply(k, self.current, step.range.apply(bar)),
        }
    }

    /// The track that this one becomes when it is fed `bars`.
    pub open spec fn run(self, k: real, bars: Seq<Bar>) -> AtrTrack
        decreases bars.len(),
    {
        if bars.len() == 0 {
            self
        } else {
            self.run(k, bars.drop_last()).feed(k, bars.last())
        }
    }

    /// The track of a new indicator after it was fed `bars`.
    pub open spec fn after(period: usize, k: real, bars: Seq<Bar>) -> AtrTrack {
        AtrTrack::fresh(period).run(k, bars)
    }

    /// The track after a reset: the average goes back to zero.
    pub open spec fn reset(self) -> AtrTrack {
        AtrTrack::fresh(self.state.ema.period)
    }
}

/// Composition: the steps that the indicator hands out compute the
/// exponential moving average of the true ranges of its bars, exactly as a
/// smoother alone does when it is fed those ranges.
pub proof fn lemma_average_of_true_ranges(period: usize, k: real, bars: Seq<Bar>)
    ensures
        AtrTrack::after(period, k, bars).current == plain_ema(k, true_ranges(bars)),
        AtrTrack::after(period, k, bars).current == EmaTrack::after(
            period,
            k,
            true_ranges(bars),
        ).current,
        AtrTrack::after(period, k, bars).state.ema == EmaTrack::after(
            period,
            k,
            true_ranges(bars),
        ).state,
        AtrTrack::after(period, k, bars).state.previous_close == if bars.len() == 0 {
            None
        } else {
            Some(bars.last().close)
        },
    decreases bars.len(),
{
    lemma_track_is_plain(period, k, true_ranges(bars));
    if bars.len() > 0 {
        let before = bars.drop_last();
        lemma_average_of_true_ranges(period, k, before);
        lemma_track_is_plain(period, k, true_ranges(before));
        assert(true_ranges(bars).drop_last() =~= true_ranges(before));
    }
}

/// Reset: an indicator that was reset goes on exactly as a new one of its
/// period does, whatever it was fed before, and a second reset changes
/// nothing.
pub proof fn lemma_reset_starts_afresh(period: usize, k: real, history: Seq<Bar>, bars: Seq<Bar>)
    ensures
        AtrTrack::after(period, k, history).reset() == AtrTrack::fresh(period),
        AtrTrack::after(period, k, history).reset().run(k, bars) == AtrTrack::after(
            period,
            k,
            bars,
        ),
        AtrTrack::after(period, k, history).reset().reset() == AtrTrack::after(
            period,
            k,
            history,
        ).reset(),
        AtrTrack::after(period, k, history).state.reset() == AtrState::<real>::fresh(period),
{
    lemma_average_of_true_ranges(period, k, history);
    lemma_track_is_plain(period, k, true_ranges(history));
}

} // verus!
