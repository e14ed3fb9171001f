//! Highest value over a sliding window.

use crate::errors::TaError;
use crate::indicators::minimum;
use crate::indicators::minimum::{lowest, Minimum};
use crate::text::{label, label_text};
use crate::window::{continued, recent, slide};
use vstd::prelude::*;

verus! {

/// The mirror image of a sample: the order of mirror images is the order of
/// the samples turned round, and the mirror image of a mirror image is the
/// sample.
pub open spec fn reflect(x: i64) -> i64 {
    (-1 - x) as i64
}

/// The mirror images of the elements of `s`.
pub open spec fn reflected(s: Seq<i64>) -> Seq<i64> {
    Seq::new(s.len(), |i: int| reflect(s[i]))
}

/// The largest element of `s`, and `i64::MIN` when `s` is empty.
pub open spec fn highest(s: Seq<i64>) -> i64
    decreases s.len(),
{
    if s.len() == 0 {
        i64::MIN
    } else {
        let rest = highest(s.drop_last());
        if s.last() > rest {
            s.last()
        } else {
            rest
        }
    }
}

/// The window of a tracker that has seen nothing yet: `period` slots, each
/// holding the blank `i64::MIN`, which no sample can fall below.
pub open spec fn blank_window(period: nat) -> Seq<i64> {
    Seq::new(period, |i: int| i64::MIN)
}

/// The window that a reset leaves of `window`: as long, and blank.
pub open spec fn reset_window(window: Seq<i64>) -> Seq<i64> {
    blank_window(window.len())
}

/// The window of a new tracker of the given period after it was fed
/// `inputs`, oldest first.
pub open spec fn window_after(period: nat, inputs: Seq<i64>) -> Seq<i64> {
    continued(blank_window(period), inputs)
}

/// The mirror image of a sample.
fn mirror(x: i64) -> (r: i64)
    ensures
        r == reflect(x),
        reflect(r) == x,
{
    -1 - x
}

/// Returns the highest value in a given time frame.
///
/// Samples are `i64`. The tracker is a lowest-value tracker over the mirror
/// images of its samples.
#[derive(Debug, Clone)]
pub struct Maximum {
    mirrored: Minimum,
}

impl Maximum {
    /// The invariant of the tracker: that of the tracker it is built on.
    pub closed spec fn wf(&self) -> bool {
        self.mirrored.wf()
    }

    /// The configured window length.
    pub closed spec fn spec_period(&self) -> usize {
        self.mirrored.spec_period()
    }

    /// The window, oldest slot first. Slots that no sample has reached yet
    /// hold `i64::MIN`.
    pub closed spec fn view(&self) -> Seq<i64> {
        reflected(self.mirrored@)
    }

    /// The window of a tracker is as long as its period, which is not zero.
    pub proof fn lemma_window_len(&self)
        requires
            self.wf(),
        ensures
            self@.len() == self.spec_period(),
            self.spec_period() > 0,
    {
        self.mirrored.lemma_window_len();
    }

    /// Creates a tracker over the last `period` samples. Fails exactly when
    /// `period` is zero.
    pub fn new(period: usize) -> (r: Result<Self, TaError>)
        ensures
            match r {
                Ok(m) => period > 0 && m.wf() && m.spec_period() == period && m@ == blank_window(
                    period as nat,
                ),
                Err(e) => period == 0 && e == TaError::InvalidParameter,
            },
    {
        match Minimum::new(period) {
            Ok(mirrored) => {
                let m = Maximum { mirrored };
                assert(m@ =~= blank_window(period as nat));
                Ok(m)
            },
            Err(e) => Err(e),
        }
    }

    /// The configured window length.
    #[verifier::when_used_as_spec(spec_period)]
    pub fn period(&self) -> (p: usize)
        ensures
            p == self.spec_period(),
    {
        self.mirrored.period()
    }

    /// Feeds one sample and returns the largest sample of the window that
    /// results.
    pub fn nexta(&mut self, input: i64) -> (out: i64)
        requires
            old(self).wf(),
        ensures
            final(self).wf(),
            final(self).spec_period() == old(self).spec_period(),
            final(self)@ == slide(old(self)@, input),
            out == highest(final(self)@),
    {
        proof {
            self.mirrored.lemma_window_len();
        }
        let low = self.mirrored.nexta(mirror(input));
        proof {
            assert(self@ =~= slide(old(self)@, input));
            lemma_highest_of_reflected(self.mirrored@);
        }
        mirror(low)
    }

    /// Forgets every sample: the tracker is again as `new` made it.
    pub fn reset(&mut self)
        requires
            old(self).wf(),
        ensures
            final(self).wf(),
            final(self).spec_period() == old(self).spec_period(),
            final(self)@ == blank_window(old(self).spec_period() as nat),
            final(self)@ == reset_window(old(self)@),
    {
        proof {
            self.mirrored.lemma_window_len();
        }
        self.mirrored.reset();
        assert(self@ =~= blank_window(self.spec_period() as nat));
        assert(self@ =~= reset_window(old(self)@));
    }

    /// The window, oldest slot first.
    pub fn window(&self) -> (w: Vec<i64>)
        requires
            self.wf(),
        ensures
            w@ == self@,
    {
        let low = self.mirrored.window();
        let mut w: Vec<i64> = Vec::with_capacity(low.len());
        let mut j: usize = 0;
        while j < low.len()
            invariant
                j <= low.len(),
                low@ == self.mirrored@,
                w@.len() == j,
                forall|i: int| 0 <= i < j ==> w@[i] == reflect(low@[i]),
            decreases low.len() - j,
        {
            w.push(mirror(low[j]));
            j += 1;
        }
        assert(w@ =~= self@);
        w
    }

    /// The label of the tracker: `MAX`, then the period in parentheses.
    pub fn label(&self) -> (s: String)
        ensures
            s@ == label_text("MAX"@, self.spec_period() as nat),
    {
        label("MAX", self.mirrored.period())
    }
}

impl Default for Maximum {
    /// A tracker over the last 14 samples.
    fn default() -> (m: Self)
        ensures
            m.wf(),
            m.spec_period() == 14,
            m@ == blank_window(14),
    {
        let m = Maximum { mirrored: Minimum::default() };
        assert(m@ =~= blank_window(14));
        m
    }
}

/// The highest of the mirror images is the mirror image of the lowest.
pub proof fn lemma_highest_of_reflected(s: Seq<i64>)
    ensures
        highest(reflected(s)) == reflect(lowest(s)),
    decreases s.len(),
{
    if s.len() > 0 {
        assert(reflected(s).drop_last() =~= reflected(s.drop_last()));
        lemma_highest_of_reflected(s.drop_last());
    }
}

/// Mirroring twice gives the sequence back.
pub proof fn lemma_reflected_twice(s: Seq<i64>)
    ensures
        reflected(reflected(s)) == s,
{
    assert(reflected(reflected(s)) =~= s);
}

/// A window slid over mirror images holds the mirror images of the window
/// slid over the samples.
pub proof fn lemma_continued_reflected(window: Seq<i64>, inputs: Seq<i64>)
    requires
        window.len() > 0,
    ensures
        continued(reflected(window), reflected(inputs)) == reflected(continued(window, inputs)),
    decreases inputs.len(),
{
    if inputs.len() > 0 {
        let before = inputs.drop_last();
        lemma_continued_reflected(window, before);
        crate::window::lemma_continued_contents(window, before);
        assert(reflected(inputs).drop_last() =~= reflected(before));
        assert(slide(reflected(continued(window, before)), reflect(inputs.last())) =~= reflected(
            slide(continued(window, before), inputs.last()),
        ));
    }
}

/// Extremum correctness: after any run of samples the tracker's window has
/// the same highest element as the last `period` samples, or as all of them
/// where fewer have come. Each output of `nexta` is therefore the maximum of
/// the last `min(count, period)` inputs.
pub proof fn lemma_tracks_recent_highest(period: nat, inputs: Seq<i64>)
    requires
        period > 0,
    ensures
        highest(window_after(period, inputs)) == highest(recent(inputs, period)),
{
    let low_inputs = reflected(inputs);
    let low_window = minimum::window_after(period, low_inputs);
    assert(reflected(blank_window(period)) =~= minimum::blank_window(period));
    lemma_continued_reflected(blank_window(period), inputs);
    // the tracker's window is the mirror image of a lowest-value window
    lemma_reflected_twice(window_after(period, inputs));
    assert(window_after(period, inputs) == reflected(low_window));
    lemma_highest_of_reflected(low_window);
    minimum::lemma_tracks_recent_lowest(period, low_inputs);
    // and so are the recent samples
    assert(recent(low_inputs, period) =~= reflected(recent(inputs, period)));
    lemma_highest_of_reflected(reflected(recent(inputs, period)));
    lemma_reflected_twice(recent(inputs, period));
}

/// A tracker that has seen nothing answers its first sample with that sample.
pub proof fn lemma_first_output_is_input(period: nat, input: i64)
    requires
        period > 0,
    ensures
        highest(slide(blank_window(period), input)) == input,
{
    let w = slide(blank_window(period), input);
    let low = slide(minimum::blank_window(period), reflect(input));
    assert(w =~= reflected(low));
    lemma_highest_of_reflected(low);
    minimum::lemma_first_output_is_input(period, reflect(input));
}

/// Reset: a tracker that was reset goes on exactly as a new one of its
/// period does, whatever it was fed before, and a second reset changes
/// nothing.
pub proof fn lemma_reset_starts_afresh(period: nat, history: Seq<i64>, inputs: Seq<i64>)
    requires
        period > 0,
    ensures
        reset_window(window_after(period, history)) == blank_window(period),
        continued(reset_window(window_after(period, history)), inputs) == window_after(
            period,
            inputs,
        ),
        reset_window(reset_window(window_after(period, history))) == reset_window(
            window_after(period, history),
        ),
{
    crate::window::lemma_continued_contents(blank_window(period), history);
}

} // verus!
