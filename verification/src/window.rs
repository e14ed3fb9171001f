//! Sliding windows: the slice of a history that a window covers, and the
//! index arithmetic of the ring that stores it.

use vstd::prelude::*;

verus! {

/// The last `period` elements of `inputs`, or all of them where there are fewer.
pub open spec fn recent<T>(inputs: Seq<T>, period: nat) -> Seq<T> {
    if inputs.len() <= period {
        inputs
    } else {
        inputs.subrange(inputs.len() - period, inputs.len() as int)
    }
}

/// The window after one more input: the oldest one leaves at the front, the
/// input joins at the back.
pub open spec fn slide<T>(window: Seq<T>, input: T) -> Seq<T> {
    window.drop_first().push(input)
}

/// The window that `window` becomes when it is slid over `inputs`, one by one.
pub open spec fn continued<T>(window: Seq<T>, inputs: Seq<T>) -> Seq<T>
    decreases inputs.len(),
{
    if inputs.len() == 0 {
        window
    } else {
        slide(continued(window, inputs.drop_last()), inputs.last())
    }
}

/// Sliding a window over `inputs` leaves the last inputs in it: as many as
/// the window is long, with what the window held before in front of them
/// where the inputs are fewer.
pub proof fn lemma_continued_contents<T>(window: Seq<T>, inputs: Seq<T>)
    requires
        window.len() > 0,
    ensures
        continued(window, inputs) == (window + inputs).subrange(
            inputs.len() as int,
            (inputs.len() + window.len()) as int,
        ),
    decreases inputs.len(),
{
    let all = window + inputs;
    let period = window.len() as int;
    if inputs.len() == 0 {
        assert(all.subrange(0, period) =~= window);
    } else {
        let before = inputs.drop_last();
        lemma_continued_contents(window, before);
        let n = inputs.len() as int;
        let was = (window + before).subrange(n - 1, n - 1 + period);
        let now = all.subrange(n, n + period);
        assert forall|j: int| 0 <= j < period implies slide(was, inputs.last())[j] == now[j] by {
            if j < period - 1 {
                assert(was.drop_first()[j] == was[j + 1]);
                assert((window + before)[n + j] == all[n + j]);
            }
        }
        assert(slide(was, inputs.last()) =~= now);
    }
}

/// The ring slot that follows `index` in a ring of `period` slots.
pub open spec fn spec_successor(index: usize, period: usize) -> usize {
    if index + 1 < period {
        (index + 1) as usize
    } else {
        0
    }
}

/// The ring slot that follows `index` in a ring of `period` slots: the next
/// one, and the first after the last. The ring never grows.
#[verifier::when_used_as_spec(spec_successor)]
pub fn successor(index: usize, period: usize) -> (next: usize)
    requires
        index < period,
    ensures
        next == spec_successor(index, period),
        next < period,
{
    if index + 1 < period {
        index + 1
    } else {
        0
    }
}

} // verus!
