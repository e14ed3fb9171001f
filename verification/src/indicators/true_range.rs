//! The range of one bar, widened by the gap to the close before it.

use vstd::prelude::*;

verus! {

/// Which rule gives the true range of a bar.
#[derive(Debug, Clone, Copy, PartialEq, Eq)]
pub enum RangeStep<T> {
    /// No bar came before: the range is high less low.
    Opening,
    /// A bar came before and closed at `previous_close`: the range is the
    /// largest of high less low and the distances of high and of low from
    /// that close.
    Following { previous_close: T },
}

/// What an indicator reads of one bar, in exact arithmetic. A bare number
/// stands for the bar whose high, low and close all equal it.
pub struct Bar {
    pub high: real,
    pub low: real,
    pub close: real,
}

/// How far apart two numbers are.
pub open spec fn distance(a: real, b: real) -> real {
    if a >= b {
        a - b
    } else {
        b - a
    }
}

/// The larger of two numbers.
pub open spec fn larger(a: real, b: real) -> real {
    if a >= b {
        a
    } else {
        b
    }
}

impl RangeStep<real> {
    /// The true range of `bar` under this rule.
    pub open spec fn apply(self, bar: Bar) -> real {
        match self {
            RangeStep::Opening => bar.high - bar.low,
            RangeStep::Following { previous_close } => larger(
                bar.high - bar.low,
                larger(distance(bar.high, previous_close), distance(bar.low, previous_close)),
            ),
        }
    }
}

/// The rule for a bar, given the close of the bar before it, if any.
pub open spec fn range_step<T>(previous_close: Option<T>) -> RangeStep<T> {
    match previous_close {
        None => RangeStep::Opening,
        Some(previous_close) => RangeStep::Following { previous_close },
    }
}

/// The true range of each bar of a run, the first one opening it.
pub open spec fn true_ranges(bars: Seq<Bar>) -> Seq<real> {
    Seq::new(
        bars.len(),
        |i: int|
            if i == 0 {
                RangeStep::Opening.apply(bars[i])
            } else {
                (RangeStep::Following { previous_close: bars[i - 1].close }).apply(bars[i])
            },
    )
}

/// The true range of the latest bar.
///
/// This type remembers the close of the bar before. It stores closes and
/// never computes with them: the caller computes the range as each
/// `RangeStep` says.
#[derive(Debug, Clone)]
pub struct TrueRange<T> {
    prev_close: Option<T>,
}

impl<T> View for TrueRange<T> {
    type V = Option<T>;

    /// The close of the bar before, if there was one.
    closed spec fn view(&self) -> Option<T> {
        self.prev_close
    }
}

impl<T: Copy> TrueRange<T> {
    /// Creates a true range that has seen no bar.
    pub fn new() -> (r: Self)
        ensures
            r@ is None,
    {
        Self { prev_close: None }
    }

    /// The close of the bar before, if there was one.
    pub fn previous_close(&self) -> (c: Option<T>)
        ensures
            c == self@,
    {
        self.prev_close
    }

    /// Takes note of a bar that closes at `close` and says which rule gives
    /// its range.
    pub fn nexta(&mut self, close: T) -> (step: RangeStep<T>)
        ensures
            step == range_step(old(self)@),
            final(self)@ == Some(close),
    {
        let step = match self.prev_close {
            Some(previous_close) => RangeStep::Following { previous_close },
            None => RangeStep::Opening,
        };
        self.prev_close = Some(close);
        step
    }

    /// Forgets every bar.
    pub fn reset(&mut self)
        ensures
            final(self)@ is None,
    {
        self.prev_close = None;
    }
}

impl<T: Copy> Default for TrueRange<T> {
    /// A true range that has seen no bar.
    fn default() -> (r: Self)
        ensures
            r@ is None,
    {
        Self::new()
    }
}

} // verus!
