//! Trying candidates one after the other until one works.
//!
//! Whether a candidate works shows only outside, where a file is opened or read;
//! which one comes next is decided here.
use vstd::prelude::*;

verus! {

/// What comes next.
#[derive(Clone, Copy, Debug, PartialEq, Eq, Structural)]
pub enum Step {
    /// Try the candidate with this number.
    Try(usize),
    /// The candidate with this number works, so no other is tried.
    Done(usize),
    /// No candidate works.
    NoneLeft,
}

/// What comes after the candidate `last`, of which it is known whether it works;
/// `None` if none has been tried.
pub open spec fn following(count: nat, last: Option<(usize, bool)>) -> Step {
    match last {
        None => if count > 0 {
            Step::Try(0)
        } else {
            Step::NoneLeft
        },
        Some((i, true)) => Step::Done(i),
        Some((i, false)) => if i + 1 < count {
            Step::Try((i + 1) as usize)
        } else {
            Step::NoneLeft
        },
    }
}

/// Says what comes next, of `count` candidates in order of preference.
pub fn next_step(count: usize, last: Option<(usize, bool)>) -> (step: Step)
    ensures
        step == following(count as nat, last),
{
    match last {
        None => if count > 0 {
            Step::Try(0)
        } else {
            Step::NoneLeft
        },
        Some((i, worked)) => if worked {
            Step::Done(i)
        } else if i < count && i + 1 < count {
            Step::Try(i + 1)
        } else {
            Step::NoneLeft
        },
    }
}

/// How trying ends that has come as far as `last`, if it is known of every
/// candidate whether it works.
pub open spec fn finished(works: Seq<bool>, last: Option<(usize, bool)>) -> Step
    decreases
            works.len() - (match last {
                None => -1int,
                Some((i, _)) => i as int,
            }),
    when works.len() <= usize::MAX
{
    match following(works.len(), last) {
        Step::Try(i) => finished(works, Some((i, works[i as int]))),
        end => end,
    }
}

proof fn lemma_finished(works: Seq<bool>, last: Option<(usize, bool)>)
    requires
        works.len() <= usize::MAX,
        last matches Some((i, worked)) ==> {
            &&& i < works.len()
            &&& works[i as int] == worked
            &&& forall|j: int| 0 <= j < i ==> !#[trigger] works[j]
        },
    ensures
        match finished(works, last) {
            Step::Done(k) => {
                &&& k < works.len()
                &&& works[k as int]
                &&& forall|j: int| 0 <= j < k ==> !#[trigger] works[j]
            },
            Step::NoneLeft => forall|j: int| 0 <= j < works.len() ==> !#[trigger] works[j],
            Step::Try(_) => false,
        },
    decreases
            works.len() - (match last {
                None => -1int,
                Some((i, _)) => i as int,
            }),
{
    if let Step::Try(i) = following(works.len(), last) {
        lemma_finished(works, Some((i, works[i as int])));
    }
}

/// Trying always ends, with the first candidate that works, and without one only
/// if none works.
pub proof fn law_first_that_works(works: Seq<bool>)
    requires
        works.len() <= usize::MAX,
    ensures
        match finished(works, None) {
            Step::Done(k) => {
                &&& k < works.len()
                &&& works[k as int]
                &&& forall|j: int| 0 <= j < k ==> !#[trigger] works[j]
            },
            Step::NoneLeft => forall|j: int| 0 <= j < works.len() ==> !#[trigger] works[j],
            Step::Try(_) => false,
        },
{
    lemma_finished(works, None);
}

} // verus!
