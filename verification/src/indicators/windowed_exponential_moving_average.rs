//! Exponential smoothing restricted to the last `period` inputs.

use crate::errors::TaError;
use crate::smoothing::{blend, lemma_slide, plain_ema, power, Ratio};
use crate::text::{label, label_text};
use crate::window::{recent, slide, successor};
use vstd::prelude::*;

verus! {

/// What one update does to the running value.
#[derive(Debug, Clone, Copy, PartialEq, Eq)]
pub enum WemaStep<T> {
    /// The very first input: it becomes the running value as it is.
    Seed,
    /// The window is still filling: the input is blended in and nothing leaves.
    Grow,
    /// The window is full: the input is blended in, and the running value is
    /// corrected as if the input that leaves the window, `evicted`, had always
    /// been the oldest input now kept, `oldest`.
    Slide { evicted: T, oldest: T },
}

impl WemaStep<real> {
    /// The running value after the step, in exact arithmetic. `factor` is
    /// `1 - k` raised to the period.
    pub open spec fn apply(self, k: real, factor: real, wsum: real, input: real) -> real {
        match self {
            WemaStep::Seed => input,
            WemaStep::Grow => blend(k, input, wsum),
            WemaStep::Slide { evicted, oldest } => blend(k, input, wsum) - evicted * factor + oldest
                * factor,
        }
    }
}

/// What a windowed smoother holds: its period, and the inputs that its window
/// covers, oldest first.
pub struct WemaState<T> {
    pub period: usize,
    pub window: Seq<T>,
}

impl<T> WemaState<T> {
    /// The window never holds more inputs than the period.
    pub open spec fn wf(self) -> bool {
        &&& self.period > 0
        &&& self.window.len() <= self.period
    }

    /// The state of a smoother that has seen nothing.
    pub open spec fn fresh(period: usize) -> WemaState<T> {
        WemaState { period, window: Seq::empty() }
    }

    /// The state after `input`: it joins the window at the back, and the
    /// oldest input leaves at the front if the window was full.
    pub open spec fn advance(self, input: T) -> WemaState<T> {
        WemaState {
            period: self.period,
            window: if self.window.len() < self.period {
                self.window.push(input)
            } else {
                slide(self.window, input)
            },
        }
    }

    /// What `input` does to the running value.
    pub open spec fn step(self, input: T) -> WemaStep<T> {
        if self.window.len() == 0 {
            WemaStep::Seed
        } else if self.window.len() < self.period {
            WemaStep::Grow
        } else {
            WemaStep::Slide { evicted: self.window[0], oldest: self.advance(input).window[0] }
        }
    }

    /// The state after a reset.
    pub open spec fn reset(self) -> WemaState<T> {
        WemaState::fresh(self.period)
    }
}

/// Windowed exponential moving average (WEMA).
///
/// The smoother follows what a plain exponential moving average would give if
/// it were started afresh on the last `period` inputs at every step, at the
/// cost of one correction per update.
///
/// This type keeps the inputs of the window in a ring that never holds more
/// than `period` of them; room for all of them is set aside when the smoother
/// is made, where there is that much memory. It stores inputs and never
/// computes with them: the caller keeps the running value and moves it as
/// each `WemaStep` says.
#[derive(Debug, Clone)]
pub struct WindowedExponentialMovingAverage<T> {
    period: usize,
    index: usize,
    count: usize,
    deque: Vec<T>,
}

impl<T> View for WindowedExponentialMovingAverage<T> {
    type V = WemaState<T>;

    closed spec fn view(&self) -> WemaState<T> {
        WemaState {
            period: self.period,
            window: Seq::new(self.count as nat, |j: int| self.deque@[self.slot(j)]),
        }
    }
}

impl<T> WindowedExponentialMovingAverage<T> {
    /// The ring slot that holds the `j`-th oldest input of the window: the
    /// ring fills from slot 0, and once it is full the oldest input sits at
    /// the write index.
    spec fn slot(&self, j: int) -> int {
        if self.count < self.period {
            j
        } else if self.index + j < self.period {
            self.index + j
        } else {
            self.index + j - self.period
        }
    }

    /// The invariant of the ring: it holds as many inputs as were counted,
    /// and the write index points at the slot that the next input takes.
    pub closed spec fn ring_wf(&self) -> bool {
        &&& self.index < self.period
        &&& self.count <= self.period
        &&& self.deque@.len() == self.count
        &&& self.count < self.period ==> self.index == self.count
    }

    /// The invariant of the smoother.
    pub open spec fn wf(&self) -> bool {
        &&& self@.wf()
        &&& self.ring_wf()
    }
}

impl<T: Copy> WindowedExponentialMovingAverage<T> {
    /// Creates a smoother over the last `period` inputs. Fails exactly when
    /// `period` is zero.
    pub fn new(period: usize) -> (r: Result<Self, TaError>)
        ensures
            match r {
                Ok(w) => period > 0 && w.wf() && w@ == WemaState::<T>::fresh(period),
                Err(e) => period == 0 && e == TaError::InvalidParameter,
            },
    {
        match period {
            0 => Err(TaError::InvalidParameter),
            _ => Ok(Self::empty(period)),
        }
    }

    /// A smoother of the given period that holds no input.
    fn empty(period: usize) -> (w: Self)
        requires
            period > 0,
        ensures
            w.wf(),
            w@ == WemaState::<T>::fresh(period),
    {
        let mut deque: Vec<T> = Vec::new();
        let _ = deque.try_reserve(period);
        let w = Self { period, index: 0, count: 0, deque };
        assert(w@.window =~= Seq::<T>::empty());
        w
    }

    /// The configured window length.
    pub fn period(&self) -> (p: usize)
        ensures
            p == self@.period,
    {
        self.period
    }

    /// The smoothing coefficient `k`: two over the period plus one.
    pub fn coefficient(&self) -> (k: Ratio)
        ensures
            k == (Ratio { numerator: 2, denominator: (self@.period + 1) as u128 }),
            k.value() == 2real / (self@.period + 1) as real,
    {
        Ratio { numerator: 2, denominator: self.period as u128 + 1 }
    }

    /// Takes `input` into the window and says what it does to the running
    /// value.
    pub fn nexta(&mut self, input: T) -> (step: WemaStep<T>)
        requires
            old(self).wf(),
        ensures
            final(self).wf(),
            step == old(self)@.step(input),
            final(self)@ == old(self)@.advance(input),
    {
        if self.count < self.period {
            let step = if self.count == 0 {
                WemaStep::Seed
            } else {
                WemaStep::Grow
            };
            self.deque.push(input);
            self.count += 1;
            self.index = successor(self.index, self.period);
            assert(self@.window =~= old(self)@.window.push(input));
            step
        } else {
            let evicted = self.deque[self.index];
            self.deque[self.index] = input;
            self.index = successor(self.index, self.period);
            let oldest = self.deque[self.index];
            assert(self@.window =~= old(self)@.window.drop_first().push(input));
            assert(evicted == old(self)@.window[0]);
            assert(oldest == self@.window[0]);
            WemaStep::Slide { evicted, oldest }
        }
    }

    /// Forgets every input: the smoother is again as `new` made it. The ring
    /// is kept.
    pub fn reset(&mut self)
        requires
            old(self).wf(),
        ensures
            final(self).wf(),
            final(self)@ == old(self)@.reset(),
    {
        self.index = 0;
        self.count = 0;
        self.deque.clear();
        assert(self@.window =~= Seq::<T>::empty());
    }

    /// The inputs that the window covers, oldest first.
    pub fn window(&self) -> (w: Vec<T>)
        requires
            self.wf(),
        ensures
            w@ == self@.window,
    {
        let mut w: Vec<T> = Vec::with_capacity(self.count);
        let mut at: usize = if self.count < self.period {
            0
        } else {
            self.index
        };
        let mut j: usize = 0;
        while j < self.count
            invariant
                self.wf(),
                j <= self.count,
                at < self.period,
                j < self.count ==> at == self.slot(j as int),
                w@.len() == j,
                forall|i: int| 0 <= i < j ==> w@[i] == self@.window[i],
            decreases self.count - j,
        {
            w.push(self.deque[at]);
            at = successor(at, self.period);
            j += 1;
        }
        assert(w@ =~= self@.window);
        w
    }

    /// The label of the smoother: `WEMA`, then the period in parentheses.
    pub fn label(&self) -> (s: String)
        ensures
            s@ == label_text("WEMA"@, self@.period as nat),
    {
        label("WEMA", self.period)
    }
}

impl<T: Copy> Default for WindowedExponentialMovingAverage<T> {
    /// A smoother over the last 9 inputs.
    fn default() -> (w: Self)
        ensures
            w.wf(),
            w@ == WemaState::<T>::fresh(9),
    {
        Self::empty(9)
    }
}

/// A smoother together with the running value that its caller keeps for it,
/// in exact arithmetic.
pub struct WemaTrack {
    pub state: WemaState<real>,
    pub wsum: real,
}

impl WemaTrack {
    /// A smoother that has seen nothing; its running value starts at zero.
    pub open spec fn fresh(period: usize) -> WemaTrack {
        WemaTrack { state: WemaState::fresh(period), wsum: 0real }
    }

    /// The track after one more input, with smoothing coefficient `k`.
    pub open spec fn feed(self, k: real, input: real) -> WemaTrack {
        let factor = power(1real - k, self.state.period as nat);
        WemaTrack {
            state: self.state.advance(input),
            wsum: self.state.step(input).apply(k, factor, self.wsum, input),
        }
    }

    /// The track that this one becomes when it is fed `inputs`.
    pub open spec fn run(self, k: real, inputs: Seq<real>) -> WemaTrack
        decreases inputs.len(),
    {
        if inputs.len() == 0 {
            self
        } else {
            self.run(k, inputs.drop_last()).feed(k, inputs.last())
        }
    }

    /// The track of a new smoother of the given period after it was fed
    /// `inputs`.
    pub open spec fn after(period: usize, k: real, inputs: Seq<real>) -> WemaTrack {
        WemaTrack::fresh(period).run(k, inputs)
    }

    /// The track after a reset: the running value goes back to zero.
    pub open spec fn reset(self) -> WemaTrack {
        WemaTrack::fresh(self.state.period)
    }
}

/// The window of a smoother covers the last `period` of its inputs, or all of
/// them where fewer have come.
pub proof fn lemma_window_is_recent(period: usize, k: real, inputs: Seq<real>)
    requires
        period > 0,
    ensures
        WemaTrack::after(period, k, inputs).state == (WemaState {
            period,
            window: recent(inputs, period as nat),
        }),
    decreases inputs.len(),
{
    let now = WemaTrack::after(period, k, inputs);
    if inputs.len() == 0 {
        assert(now.state.window =~= recent(inputs, period as nat));
    } else {
        lemma_window_is_recent(period, k, inputs.drop_last());
        assert(now.state.window =~= recent(inputs, period as nat));
    }
}

/// A windowed smoother gives what a plain exponential moving average with the
/// same coefficient gives when it is started afresh on the inputs that the
/// window covers: the last `period` of them, or all where fewer have come.
/// This holds in exact arithmetic, for every coefficient and every period.
pub proof fn lemma_windowed_matches_plain(period: usize, k: real, inputs: Seq<real>)
    requires
        period > 0,
        inputs.len() > 0,
    ensures
        WemaTrack::after(period, k, inputs).wsum == plain_ema(k, recent(inputs, period as nat)),
    decreases inputs.len(),
{
    let before = inputs.drop_last();
    let input = inputs.last();
    let was = WemaTrack::after(period, k, before);
    let window = recent(before, period as nat);
    lemma_window_is_recent(period, k, before);
    lemma_window_is_recent(period, k, inputs);
    if before.len() == 0 {
        assert(recent(inputs, period as nat) =~= seq![input]);
    } else {
        lemma_windowed_matches_plain(period, k, before);
        if before.len() < period {
            assert(recent(inputs, period as nat).drop_last() =~= window);
        } else {
            lemma_slide(k, window, input);
        }
    }
}

/// Reset: a smoother that was reset goes on exactly as a new one of its
/// period does, whatever it was fed before, and a second reset changes
/// nothing.
pub proof fn lemma_reset_starts_afresh(period: usize, k: real, history: Seq<real>, inputs: Seq<real>)
    requires
        period > 0,
    ensures
        WemaTrack::after(period, k, history).reset() == WemaTrack::fresh(period),
        WemaTrack::after(period, k, history).reset().run(k, inputs) == WemaTrack::after(
            period,
            k,
            inputs,
        ),
        WemaTrack::after(period, k, history).reset().reset() == WemaTrack::after(
            period,
            k,
            history,
        ).reset(),
        WemaTrack::after(period, k, history).state.reset() == WemaState::<real>::fresh(period),
{
    lemma_window_is_recent(period, k, history);
}

} // verus!
