//! Lowest value over a sliding window.

use crate::errors::TaError;
use crate::text::{label, label_text};
use crate::window::{continued, lemma_continued_contents, recent, slide, successor};
use vstd::prelude::*;

verus! {

/// The smallest element of `s`, and `i64::MAX` when `s` is empty.
pub open spec fn lowest(s: Seq<i64>) -> i64
    decreases s.len(),
{
    if s.len() == 0 {
        i64::MAX
    } else {
        let rest = lowest(s.drop_last());
        if s.last() < rest {
            s.last()
        } else {
            rest
        }
    }
}

/// The window of a tracker that has seen nothing yet: `period` slots, each
/// holding the blank `i64::MAX`, which no sample can undercut.
pub open spec fn blank_window(period: nat) -> Seq<i64> {
    Seq::new(period, |i: int| i64::MAX)
}

/// The window that a reset leaves of `window`: as long, and blank.
pub open spec fn reset_window(window: Seq<i64>) -> Seq<i64> {
    blank_window(window.len())
}

/// The window of a new tracker of the given period after it was fed
/// `inputs`, oldest first.
pub open spec fn window_after(period: nat, inputs: Seq<i64>) -> Seq<i64> {
    continued(blank_window(period), inputs)
}

/// Returns the lowest value in a given time frame.
///
/// Samples are `i64`. The tracker keeps the last `period` of them in a ring
/// and remembers where the smallest one sits, so that an update rescans the
/// ring only when the smallest sample is the one that leaves.
#[derive(Debug, Clone)]
pub struct Minimum {
    period: usize,
    min_index: usize,
    cur_index: usize,
    deque: Vec<i64>,
}

impl Minimum {
    /// The ring slot that holds the `j`-th oldest sample.
    spec fn slot(&self, j: int) -> int {
        if self.cur_index + j < self.period {
            self.cur_index + j
        } else {
            self.cur_index + j - self.period
        }
    }

    /// The invariant of the tracker: the ring has `period` slots, both indices
    /// point into it, and the cached index points at a smallest sample.
    pub closed spec fn wf(&self) -> bool {
        &&& self.period > 0
        &&& self.deque@.len() == self.period
        &&& self.cur_index < self.period
        &&& self.min_index < self.period
        &&& forall|i: int|
            0 <= i < self.period ==> self.deque@[self.min_index as int] <= #[trigger] self.deque@[i]
    }

    /// The configured window length.
    pub closed spec fn spec_period(&self) -> usize {
        self.period
    }

    /// The window, oldest slot first. Slots that no sample has reached yet
    /// hold `i64::MAX`.
    pub closed spec fn view(&self) -> Seq<i64> {
        Seq::new(self.period as nat, |j: int| self.deque@[self.slot(j)])
    }

    /// The window of a tracker is as long as its period, which is not zero.
    pub proof fn lemma_window_len(&self)
        requires
            self.wf(),
        ensures
            self@.len() == self.spec_period(),
            self.spec_period() > 0,
    {
    }

    /// Creates a tracker over the last `period` samples. Fails exactly when
    /// `period` is zero.
    pub fn new(period: usize) -> (r: Result<Self, TaError>)
        ensures
            match r {
                Ok(m) => period > 0 && m.wf() && m.spec_period() == period && m@ == blank_window(
                    period as nat,
                ),
                Err(e) => period == 0 && e == TaError::InvalidParameter,
            },
    {
        match period {
            0 => Err(TaError::InvalidParameter),
            _ => Ok(Self::blank(period)),
        }
    }

    /// A tracker of the given period whose ring holds blanks only.
    fn blank(period: usize) -> (m: Self)
        requires
            period > 0,
        ensures
            m.wf(),
            m.spec_period() == period,
            m@ == blank_window(period as nat),
    {
        let mut deque: Vec<i64> = Vec::new();
        let mut i: usize = 0;
        while i < period
            invariant
                i <= period,
                deque@.len() == i,
                forall|j: int| 0 <= j < i ==> deque@[j] == i64::MAX,
            decreases period - i,
        {
            deque.push(i64::MAX);
            i += 1;
        }
        let m = Minimum { period, min_index: 0, cur_index: 0, deque };
        assert(m@ =~= blank_window(period as nat));
        m
    }

    /// The first slot of the ring that holds its smallest sample.
    fn find_min_index(&self) -> (index: usize)
        requires
            self.period > 0,
            self.deque@.len() == self.period,
        ensures
            index < self.period,
            forall|i: int| 0 <= i < self.period ==> self.deque@[index as int] <= self.deque@[i],
            forall|i: int| 0 <= i < index ==> self.deque@[index as int] < self.deque@[i],
    {
        let mut min: i64 = i64::MAX;
        let mut index: usize = 0;
        let mut i: usize = 0;
        while i < self.period
            invariant
                i <= self.period,
                self.deque@.len() == self.period,
                self.period > 0,
                index < self.period,
                i == 0 ==> index == 0 && min == i64::MAX,
                i > 0 ==> index < i && min == self.deque@[index as int],
                forall|j: int| 0 <= j < i ==> min <= self.deque@[j],
                forall|j: int| 0 <= j < index ==> min < self.deque@[j],
            decreases self.period - i,
        {
            let val = self.deque[i];
            if val < min {
                min = val;
                index = i;
            }
            i += 1;
        }
        index
    }

    /// The configured window length.
    #[verifier::when_used_as_spec(spec_period)]
    pub fn period(&self) -> (p: usize)
        ensures
            p == self.spec_period(),
    {
        self.period
    }

    /// Feeds one sample and returns the smallest sample of the window that
    /// results.
    pub fn nexta(&mut self, input: i64) -> (out: i64)
        requires
            old(self).wf(),
        ensures
            final(self).wf(),
            final(self).spec_period() == old(self).spec_period(),
            final(self)@ == slide(old(self)@, input),
            out == lowest(final(self)@),
    {
        self.deque[self.cur_index] = input;

        if input < self.deque[self.min_index] {
            self.min_index = self.cur_index;
        } else if self.min_index == self.cur_index {
            self.min_index = self.find_min_index();
        }

        self.cur_index = successor(self.cur_index, self.period);

        let out = self.deque[self.min_index];
        proof {
            assert(self@ =~= slide(old(self)@, input));
            let at: int = if self.min_index >= self.cur_index {
                self.min_index - self.cur_index
            } else {
                self.min_index + self.period - self.cur_index
            };
            assert(self@[at] == out);
            lemma_lowest_at(self@, at);
        }
        out
    }

    /// Forgets every sample: the tracker is again as `new` made it.
    pub fn reset(&mut self)
        requires
            old(self).wf(),
        ensures
            final(self).wf(),
            final(self).spec_period() == old(self).spec_period(),
            final(self)@ == blank_window(old(self).spec_period() as nat),
            final(self)@ == reset_window(old(self)@),
    {
        let mut i: usize = 0;
        while i < self.period
            invariant
                i <= self.period,
                self.period == old(self).period,
                self.deque@.len() == self.period,
                forall|j: int| 0 <= j < i ==> self.deque@[j] == i64::MAX,
            decreases self.period - i,
        {
            self.deque[i] = i64::MAX;
            i += 1;
        }
        self.min_index = 0;
        self.cur_index = 0;
        assert(self@ =~= blank_window(self.period as nat));
    }

    /// The window, oldest slot first.
    pub fn window(&self) -> (w: Vec<i64>)
        requires
            self.wf(),
        ensures
            w@ == self@,
    {
        let mut w: Vec<i64> = Vec::with_capacity(self.period);
        let mut at: usize = self.cur_index;
        let mut j: usize = 0;
        while j < self.period
            invariant
                self.wf(),
                j <= self.period,
                at < self.period,
                j < self.period ==> at == self.slot(j as int),
                w@.len() == j,
                forall|i: int| 0 <= i < j ==> w@[i] == self@[i],
            decreases self.period - j,
        {
            w.push(self.deque[at]);
            at = successor(at, self.period);
            j += 1;
        }
        assert(w@ =~= self@);
        w
    }

    /// The label of the tracker: `MIN`, then the period in parentheses.
    pub fn label(&self) -> (s: String)
        ensures
            s@ == label_text("MIN"@, self.spec_period() as nat),
    {
        label("MIN", self.period)
    }
}

impl Default for Minimum {
    /// A tracker over the last 14 samples.
    fn default() -> (m: Self)
        ensures
            m.wf(),
            m.spec_period() == 14,
            m@ == blank_window(14),
    {
        Self::blank(14)
    }
}

/// An element that nothing in the sequence undercuts is the sequence's lowest.
pub proof fn lemma_lowest_at(s: Seq<i64>, at: int)
    requires
        0 <= at < s.len(),
        forall|i: int| 0 <= i < s.len() ==> s[at] <= #[trigger] s[i],
    ensures
        lowest(s) == s[at],
    decreases s.len(),
{
    let rest = s.drop_last();
    if at < s.len() - 1 {
        assert(forall|i: int| 0 <= i < rest.len() ==> rest[i] == s[i]);
        lemma_lowest_at(rest, at);
    } else {
        lemma_lowest_bound(rest, s[at]);
    }
}

/// A value that nothing in the sequence undercuts does not exceed its lowest.
pub proof fn lemma_lowest_bound(s: Seq<i64>, v: i64)
    requires
        forall|i: int| 0 <= i < s.len() ==> v <= #[trigger] s[i],
    ensures
        v <= lowest(s),
    decreases s.len(),
{
    if s.len() > 0 {
        let rest = s.drop_last();
        assert(forall|i: int| 0 <= i < rest.len() ==> rest[i] == s[i]);
        lemma_lowest_bound(rest, v);
    }
}

/// The lowest of two sequences joined is the lower of their two lowests.
pub proof fn lemma_lowest_concat(a: Seq<i64>, b: Seq<i64>)
    ensures
        lowest(a + b) == if lowest(a) < lowest(b) {
            lowest(a)
        } else {
            lowest(b)
        },
    decreases b.len(),
{
    if b.len() == 0 {
        assert(a + b =~= a);
    } else {
        assert((a + b).drop_last() =~= a + b.drop_last());
        assert((a + b).last() == b.last());
        lemma_lowest_concat(a, b.drop_last());
    }
}

/// What a tracker holds after `inputs`: the last `period` elements of the
/// blanks it started with followed by everything it was fed.
pub proof fn lemma_window_contents(period: nat, inputs: Seq<i64>)
    requires
        period > 0,
    ensures
        window_after(period, inputs) == (blank_window(period) + inputs).subrange(
            inputs.len() as int,
            (inputs.len() + period) as int,
        ),
{
    lemma_continued_contents(blank_window(period), inputs);
}

/// Extremum correctness: after any run of samples the tracker's window has
/// the same lowest element as the last `period` samples, or as all of them
/// where fewer have come. Each output of `nexta` is therefore the minimum of
/// the last `min(count, period)` inputs.
pub proof fn lemma_tracks_recent_lowest(period: nat, inputs: Seq<i64>)
    requires
        period > 0,
    ensures
        lowest(window_after(period, inputs)) == lowest(recent(inputs, period)),
{
    lemma_window_contents(period, inputs);
    let n = inputs.len() as int;
    let all = blank_window(period) + inputs;
    if n >= period {
        assert(all.subrange(n, n + period) =~= recent(inputs, period));
    } else {
        let blanks = blank_window((period - n) as nat);
        assert(all.subrange(n, n + period) =~= blanks + inputs);
        lemma_lowest_concat(blanks, inputs);
        lemma_lowest_blank((period - n) as nat);
    }
}

/// Blank slots alone have the blank as their lowest.
pub proof fn lemma_lowest_blank(count: nat)
    ensures
        lowest(blank_window(count)) == i64::MAX,
    decreases count,
{
    if count > 0 {
        assert(blank_window(count).drop_last() =~= blank_window((count - 1) as nat));
        lemma_lowest_blank((count - 1) as nat);
    }
}

/// A tracker that has seen nothing answers its first sample with that sample.
pub proof fn lemma_first_output_is_input(period: nat, input: i64)
    requires
        period > 0,
    ensures
        lowest(slide(blank_window(period), input)) == input,
{
    let w = slide(blank_window(period), input);
    lemma_lowest_at(w, period - 1);
}

/// Reset: a tracker that was reset goes on exactly as a new one of its
/// period does, whatever it was fed before, and a second reset changes
/// nothing.
pub proof fn lemma_reset_starts_afresh(period: nat, history: Seq<i64>, inputs: Seq<i64>)
    requires
        period > 0,
    ensures
        reset_window(window_after(period, history)) == blank_window(period),
        continued(reset_window(window_after(period, history)), inputs) == window_after(
            period,
            inputs,
        ),
        reset_window(reset_window(window_after(period, history))) == reset_window(
            window_after(period, history),
        ),
{
    lemma_window_contents(period, history);
}

} // verus!
