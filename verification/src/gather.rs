//! Sequences of fetches, in spec code.
use vstd::prelude::*;

use crate::mem::laws;
use crate::mem::Fetch;
use crate::mem::Image;
use crate::mem::Need;

verus! {

/// All the values, or the first need on the way.
pub open spec fn gathered<T>(fetches: Seq<Fetch<T>>) -> Fetch<Seq<T>>
    decreases fetches.len(),
{
    if fetches.len() == 0 {
        Ok(seq![])
    } else {
        match gathered(fetches.drop_last()) {
            Err(need) => Err(need),
            Ok(values) => match fetches.last() {
                Err(need) => Err(need),
                Ok(value) => Ok(values.push(value)),
            },
        }
    }
}

/// The first value that is there, or the first need before it.
pub open spec fn first_found<T>(fetches: Seq<Fetch<Option<T>>>) -> Fetch<Option<T>>
    decreases fetches.len(),
{
    if fetches.len() == 0 {
        Ok(None)
    } else {
        match first_found(fetches.drop_last()) {
            Err(need) => Err(need),
            Ok(Some(value)) => Ok(Some(value)),
            Ok(None) => fetches.last(),
        }
    }
}

/// The values that are there, in order.
pub open spec fn present<T>(values: Seq<Option<T>>) -> Seq<T>
    decreases values.len(),
{
    if values.len() == 0 {
        seq![]
    } else {
        match values.last() {
            Some(value) => present(values.drop_last()).push(value),
            None => present(values.drop_last()),
        }
    }
}

/// One step of gathering.
pub proof fn lemma_gathered_step<T>(fetches: Seq<Fetch<T>>, i: int)
    requires
        0 <= i < fetches.len(),
    ensures
        gathered(fetches.take(i + 1)) == (match gathered(fetches.take(i)) {
            Err(need) => Err(need),
            Ok(values) => match fetches[i] {
                Err(need) => Err(need),
                Ok(value) => Ok(values.push(value)),
            },
        }),
{
    assert(fetches.take(i + 1).drop_last() =~= fetches.take(i));
}

/// A need ends the gathering.
pub proof fn lemma_gathered_stops<T>(fetches: Seq<Fetch<T>>, i: int)
    requires
        0 <= i <= fetches.len(),
        gathered(fetches.take(i)) is Err,
    ensures
        gathered(fetches) == gathered(fetches.take(i)),
    decreases fetches.len() - i,
{
    if i < fetches.len() {
        lemma_gathered_step(fetches, i);
        lemma_gathered_stops(fetches, i + 1);
    } else {
        assert(fetches.take(i) =~= fetches);
    }
}

/// As many values as fetches, each the value of its fetch.
pub proof fn lemma_gathered_values<T>(fetches: Seq<Fetch<T>>)
    ensures
        gathered(fetches) matches Ok(values) ==> {
            &&& values.len() == fetches.len()
            &&& forall|i: int|
                0 <= i < fetches.len() ==> #[trigger] fetches[i] == Ok::<T, Need>(values[i])
        },
    decreases fetches.len(),
{
    if fetches.len() > 0 {
        let head = fetches.drop_last();
        lemma_gathered_values(head);
        if let Ok(values) = gathered(fetches) {
            assert forall|i: int| 0 <= i < fetches.len() implies #[trigger] fetches[i] == Ok::<
                T,
                Need,
            >(values[i]) by {
                if i < head.len() {
                    assert(head[i] == fetches[i]);
                }
            }
        }
    }
}

/// One step of searching.
pub proof fn lemma_found_step<T>(fetches: Seq<Fetch<Option<T>>>, i: int)
    requires
        0 <= i < fetches.len(),
    ensures
        first_found(fetches.take(i + 1)) == (match first_found(fetches.take(i)) {
            Err(need) => Err(need),
            Ok(Some(value)) => Ok(Some(value)),
            Ok(None) => fetches[i],
        }),
{
    assert(fetches.take(i + 1).drop_last() =~= fetches.take(i));
}

/// The first value or need ends the search.
pub proof fn lemma_found_stops<T>(fetches: Seq<Fetch<Option<T>>>, i: int)
    requires
        0 <= i <= fetches.len(),
        first_found(fetches.take(i)) != Ok::<Option<T>, Need>(None),
    ensures
        first_found(fetches) == first_found(fetches.take(i)),
    decreases fetches.len() - i,
{
    if i < fetches.len() {
        lemma_found_step(fetches, i);
        lemma_found_stops(fetches, i + 1);
    } else {
        assert(fetches.take(i) =~= fetches);
    }
}

/// What was found is one of the values, and none comes before it.
pub proof fn lemma_found_value<T>(fetches: Seq<Fetch<Option<T>>>)
    ensures
        first_found(fetches) matches Ok(Some(value)) ==> exists|i: int|
            {
                &&& 0 <= i < fetches.len()
                &&& #[trigger] fetches[i] == Ok::<Option<T>, Need>(Some(value))
                &&& forall|j: int|
                    0 <= j < i ==> #[trigger] fetches[j] == Ok::<Option<T>, Need>(None)
            },
        first_found(fetches) == Ok::<Option<T>, Need>(None) ==> forall|j: int|
            0 <= j < fetches.len() ==> #[trigger] fetches[j] == Ok::<Option<T>, Need>(None),
    decreases fetches.len(),
{
    if fetches.len() > 0 {
        let head = fetches.drop_last();
        lemma_found_value(head);
        assert(forall|j: int| 0 <= j < head.len() ==> head[j] == #[trigger] fetches[j]);
        match first_found(head) {
            Ok(Some(value)) => {
                let i = choose|i: int|
                    {
                        &&& 0 <= i < head.len()
                        &&& #[trigger] head[i] == Ok::<Option<T>, Need>(Some(value))
                        &&& forall|j: int|
                            0 <= j < i ==> #[trigger] head[j] == Ok::<Option<T>, Need>(None)
                    };
                assert(fetches[i] == Ok::<Option<T>, Need>(Some(value)));
                assert forall|j: int| 0 <= j < i implies #[trigger] fetches[j] == Ok::<
                    Option<T>,
                    Need,
                >(None) by {
                    assert(head[j] == fetches[j]);
                }
            },
            Ok(None) => {
                assert forall|j: int| 0 <= j < head.len() implies #[trigger] fetches[j] == Ok::<
                    Option<T>,
                    Need,
                >(None) by {
                    assert(head[j] == fetches[j]);
                }
                assert(fetches[fetches.len() - 1] == fetches.last());
            },
            Err(_) => {},
        }
    }
}

/// A value is present when it stands somewhere, and only then.
pub proof fn lemma_present<T>(values: Seq<Option<T>>)
    ensures
        present(values).len() <= values.len(),
        forall|x: T| #[trigger] present(values).contains(x) <==> values.contains(Some(x)),
    decreases values.len(),
{
    if values.len() > 0 {
        let head = values.drop_last();
        lemma_present(head);
        assert forall|x: T| #[trigger] present(values).contains(x) <==> values.contains(
            Some(x),
        ) by {
            if present(values).contains(x) {
                let i = choose|i: int| 0 <= i < present(values).len() && present(values)[i] == x;
                if values.last() == Some(x) {
                    assert(values[values.len() - 1] == Some(x));
                } else {
                    assert(present(head)[i] == x);
                    assert(present(head).contains(x));
                    assert(head.contains(Some(x)));
                    let j = choose|j: int| 0 <= j < head.len() && head[j] == Some(x);
                    assert(values[j] == Some(x));
                }
            }
            if values.contains(Some(x)) {
                let j = choose|j: int| 0 <= j < values.len() && values[j] == Some(x);
                if j < head.len() {
                    assert(head[j] == Some(x));
                    assert(head.contains(Some(x)));
                    assert(present(head).contains(x));
                    let i = choose|i: int| 0 <= i < present(head).len() && present(head)[i] == x;
                    assert(present(values)[i] == x);
                } else {
                    assert(present(values)[present(values).len() - 1] == x);
                }
            }
        }
    }
}

/// Gathering settles when every fetch settles.
pub proof fn lemma_gathered_settled<T>(
    image: Image,
    before: Seq<Fetch<T>>,
    after: Seq<Fetch<T>>,
)
    requires
        before.len() == after.len(),
        forall|i: int|
            0 <= i < before.len() ==> laws::settled(image, #[trigger] before[i], after[i]),
    ensures
        laws::settled(image, gathered(before), gathered(after)),
    decreases before.len(),
{
    if before.len() > 0 {
        assert forall|i: int| 0 <= i < before.len() - 1 implies laws::settled(
            image,
            #[trigger] before.drop_last()[i],
            after.drop_last()[i],
        ) by {
            assert(before.drop_last()[i] == before[i]);
        }
        lemma_gathered_settled(image, before.drop_last(), after.drop_last());
        assert(laws::settled(image, before[before.len() - 1], after[before.len() - 1]));
    }
}

/// A search settles when every fetch settles.
pub proof fn lemma_found_settled<T>(
    image: Image,
    before: Seq<Fetch<Option<T>>>,
    after: Seq<Fetch<Option<T>>>,
)
    requires
        before.len() == after.len(),
        forall|i: int|
            0 <= i < before.len() ==> laws::settled(image, #[trigger] before[i], after[i]),
    ensures
        laws::settled(image, first_found(before), first_found(after)),
    decreases before.len(),
{
    if before.len() > 0 {
        assert forall|i: int| 0 <= i < before.len() - 1 implies laws::settled(
            image,
            #[trigger] before.drop_last()[i],
            after.drop_last()[i],
        ) by {
            assert(before.drop_last()[i] == before[i]);
        }
        lemma_found_settled(image, before.drop_last(), after.drop_last());
        assert(laws::settled(image, before[before.len() - 1], after[before.len() - 1]));
    }
}

} // verus!
