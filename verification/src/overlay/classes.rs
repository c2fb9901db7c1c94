//! Classes of traps and how many traps each of them has.
use vstd::prelude::*;

use crate::game::trap::TrapRef;

verus! {

/// A class and the number of its traps.
pub type Tally = (usize, usize);

/// The classes of traps.
pub open spec fn classes_of(traps: Seq<TrapRef>) -> Seq<usize> {
    traps.map_values(|t: TrapRef| t.class)
}

/// How often a class occurs.
pub open spec fn occurrences(classes: Seq<usize>, class: usize) -> nat
    decreases classes.len(),
{
    if classes.len() == 0 {
        0
    } else {
        occurrences(classes.drop_last(), class) + if classes.last() == class {
            1nat
        } else {
            0
        }
    }
}

/// A tally with one more trap of a class. A class that is new goes to the end.
pub open spec fn bumped(tally: Seq<Tally>, class: usize) -> Seq<Tally>
    decreases tally.len(),
{
    if tally.len() == 0 {
        seq![(class, 1usize)]
    } else if tally[0].0 == class {
        seq![(class, (tally[0].1 + 1) as usize)] + tally.skip(1)
    } else {
        seq![tally[0]] + bumped(tally.skip(1), class)
    }
}

/// The classes in the order in which they first occur, each with the number of
/// its traps.
pub open spec fn tallied(classes: Seq<usize>) -> Seq<Tally>
    decreases classes.len(),
{
    if classes.len() == 0 {
        seq![]
    } else {
        bumped(tallied(classes.drop_last()), classes.last())
    }
}

/// A ranking with one more entry, behind all that count at least as much.
pub open spec fn ranked_in(ranking: Seq<Tally>, entry: Tally) -> Seq<Tally>
    decreases ranking.len(),
{
    if ranking.len() == 0 {
        seq![entry]
    } else if ranking.last().1 >= entry.1 {
        ranking.push(entry)
    } else {
        ranked_in(ranking.drop_last(), entry).push(ranking.last())
    }
}

/// The entries by their counts, the highest first. Entries with equal counts
/// keep their order.
pub open spec fn ranked(tally: Seq<Tally>) -> Seq<Tally>
    decreases tally.len(),
{
    if tally.len() == 0 {
        seq![]
    } else {
        ranked_in(ranked(tally.drop_last()), tally.last())
    }
}

/// How a bump acts on a tally, place by place.
#[verifier::spinoff_prover]
pub(crate) proof fn lemma_bumped(tally: Seq<Tally>, class: usize)
    ensures
        forall|k: int|
            0 <= k < tally.len() && (#[trigger] tally[k]).0 == class && (forall|j: int|
                0 <= j < k ==> (#[trigger] tally[j]).0 != class) ==> bumped(tally, class)
                == tally.update(k, (class, (tally[k].1 + 1) as usize)),
        (forall|j: int| 0 <= j < tally.len() ==> (#[trigger] tally[j]).0 != class) ==> bumped(
            tally,
            class,
        ) == tally.push((class, 1usize)),
    decreases tally.len(),
{
    if tally.len() > 0 {
        let rest = tally.skip(1);
        lemma_bumped(rest, class);
        assert forall|k: int|
            0 <= k < tally.len() && (#[trigger] tally[k]).0 == class && (forall|j: int|
                0 <= j < k ==> (#[trigger] tally[j]).0 != class) implies bumped(tally, class)
            == tally.update(k, (class, (tally[k].1 + 1) as usize)) by {
            if k == 0 {
                assert(bumped(tally, class) =~= tally.update(
                    k,
                    (class, (tally[k].1 + 1) as usize),
                ));
            } else {
                assert(tally[0].0 != class);
                assert(rest[k - 1] == tally[k]);
                assert forall|j: int| 0 <= j < k - 1 implies (#[trigger] rest[j]).0 != class by {
                    assert(rest[j] == tally[j + 1]);
                }
                assert(bumped(tally, class) =~= tally.update(
                    k,
                    (class, (tally[k].1 + 1) as usize),
                ));
            }
        }
        if forall|j: int| 0 <= j < tally.len() ==> (#[trigger] tally[j]).0 != class {
            assert(tally[0].0 != class);
            assert forall|j: int| 0 <= j < rest.len() implies (#[trigger] rest[j]).0 != class by {
                assert(rest[j] == tally[j + 1]);
            }
            assert(bumped(tally, class) =~= tally.push((class, 1usize)));
        }
    } else {
        assert(bumped(tally, class) =~= tally.push((class, 1usize)));
    }
}

/// No count exceeds the number of traps.
proof fn lemma_counts_are_bounded(classes: Seq<usize>)
    ensures
        forall|k: int|
            0 <= k < tallied(classes).len() ==> (#[trigger] tallied(classes)[k]).1 <= classes.len(),
        tallied(classes).len() <= classes.len(),
    decreases classes.len(),
{
    if classes.len() > 0 {
        let head = classes.drop_last();
        let before = tallied(head);
        let class = classes.last();
        lemma_counts_are_bounded(head);
        lemma_bumped(before, class);
        lemma_place(before, class);
    }
}

/// A class is in a tally at a first place, or nowhere.
proof fn lemma_place(tally: Seq<Tally>, class: usize)
    ensures
        (exists|k: int|
            0 <= k < tally.len() && (#[trigger] tally[k]).0 == class && (forall|j: int|
                0 <= j < k ==> (#[trigger] tally[j]).0 != class)) || (forall|j: int|
            0 <= j < tally.len() ==> (#[trigger] tally[j]).0 != class),
    decreases tally.len(),
{
    if tally.len() > 0 {
        let head = tally.drop_last();
        lemma_place(head, class);
        if exists|k: int|
            0 <= k < head.len() && (#[trigger] head[k]).0 == class && (forall|j: int|
                0 <= j < k ==> (#[trigger] head[j]).0 != class) {
            let k = choose|k: int|
                0 <= k < head.len() && (#[trigger] head[k]).0 == class && (forall|j: int|
                    0 <= j < k ==> (#[trigger] head[j]).0 != class);
            assert(tally[k].0 == class);
            assert forall|j: int| 0 <= j < k implies (#[trigger] tally[j]).0 != class by {
                assert(head[j] == tally[j]);
            }
        } else {
            assert forall|j: int| 0 <= j < head.len() implies (#[trigger] tally[j]).0 != class by {
                assert(head[j] == tally[j]);
            }
            if tally.last().0 == class {
                assert(tally[tally.len() - 1].0 == class);
            }
        }
    }
}

fn bump(tally: &mut Vec<Tally>, class: usize, Ghost(total): Ghost<nat>)
    requires
        total < usize::MAX,
        forall|k: int| 0 <= k < old(tally)@.len() ==> (#[trigger] old(tally)@[k]).1 <= total,
    ensures
        final(tally)@ == bumped(old(tally)@, class),
{
    proof {
        lemma_bumped(tally@, class);
    }
    let count: usize = tally.len();
    for k in 0..count
        invariant
            count == tally@.len(),
            total < usize::MAX,
            *tally == *old(tally),
            forall|j: int| 0 <= j < tally@.len() ==> (#[trigger] tally@[j]).1 <= total,
            forall|j: int| 0 <= j < k ==> (#[trigger] tally@[j]).0 != class,
            forall|m: int|
                0 <= m < tally@.len() && (#[trigger] tally@[m]).0 == class && (forall|j: int|
                    0 <= j < m ==> (#[trigger] tally@[j]).0 != class) ==> bumped(tally@, class)
                    == tally@.update(m, (class, (tally@[m].1 + 1) as usize)),
    {
        let entry = tally[k];
        if entry.0 == class {
            assert(tally@[k as int].0 == class);
            tally.set(k, (class, entry.1 + 1));
            return;
        }
    }
    tally.push((class, 1));
}

fn rank_in(ranking: &mut Vec<Tally>, entry: Tally)
    ensures
        final(ranking)@ == ranked_in(old(ranking)@, entry),
{
    let ghost s = ranking@;
    let mut i: usize = ranking.len();
    assert(s.take(i as int) =~= s);
    assert(ranked_in(s.take(i as int), entry) + s.skip(i as int) =~= ranked_in(s, entry));
    while i > 0 && ranking[i - 1].1 < entry.1
        invariant
            ranking@ == s,
            i <= s.len(),
            ranked_in(s.take(i as int), entry) + s.skip(i as int) == ranked_in(s, entry),
        decreases i,
    {
        assert(s.take(i as int).drop_last() =~= s.take(i - 1));
        assert(ranked_in(s.take(i - 1), entry) + s.skip(i - 1) =~= ranked_in(
            s.take(i as int),
            entry,
        ) + s.skip(i as int));
        i = i - 1;
    }
    ranking.insert(i, entry);
    assert(ranking@ =~= ranked_in(s.take(i as int), entry) + s.skip(i as int));
}

/// Counts the traps of each class, the class with the most traps first.
pub fn count_classes(traps: &Vec<TrapRef>) -> (ranking: Vec<Tally>)
    ensures
        ranking@ == ranked(tallied(classes_of(traps@))),
{
    let ghost classes = classes_of(traps@);
    let mut tally: Vec<Tally> = Vec::new();
    assert(traps.len() <= usize::MAX);
    for i in 0..traps.len()
        invariant
            traps.len() <= usize::MAX,
            classes == classes_of(traps@),
            tally@ == tallied(classes.take(i as int)),
    {
        assert(classes.take(i + 1).drop_last() =~= classes.take(i as int));
        proof {
            lemma_counts_are_bounded(classes.take(i as int));
        }
        bump(&mut tally, traps[i].class, Ghost(i as nat));
    }
    assert(classes.take(traps@.len() as int) =~= classes);
    let mut ranking: Vec<Tally> = Vec::new();
    for i in 0..tally.len()
        invariant
            ranking@ == ranked(tally@.take(i as int)),
    {
        assert(tally@.take(i + 1).drop_last() =~= tally@.take(i as int));
        rank_in(&mut ranking, tally[i]);
    }
    assert(tally@.take(tally@.len() as int) =~= tally@);
    ranking
}

/// Every class of the traps has exactly one entry, with the number of its traps,
/// and there are no other entries.
pub proof fn law_tally(classes: Seq<usize>)
    requires
        classes.len() <= usize::MAX,
    ensures
        forall|k: int|
            0 <= k < tallied(classes).len() ==> {
                &&& (#[trigger] tallied(classes)[k]).1 == occurrences(
                    classes,
                    tallied(classes)[k].0,
                )
                &&& tallied(classes)[k].1 > 0
            },
        forall|j: int, k: int|
            0 <= j < k < tallied(classes).len() ==> (#[trigger] tallied(classes)[j]).0 != (
            #[trigger] tallied(classes)[k]).0,
        forall|class: usize|
            #[trigger] occurrences(classes, class) > 0 ==> exists|k: int|
                0 <= k < tallied(classes).len() && (#[trigger] tallied(classes)[k]).0 == class,
    decreases classes.len(),
{
    if classes.len() > 0 {
        let head = classes.drop_last();
        let class = classes.last();
        let before = tallied(head);
        let after = tallied(classes);
        law_tally(head);
        lemma_bumped(before, class);
        lemma_place(before, class);
        lemma_counts_are_bounded(head);
        if exists|k: int|
            0 <= k < before.len() && (#[trigger] before[k]).0 == class && (forall|j: int|
                0 <= j < k ==> (#[trigger] before[j]).0 != class) {
            let m = choose|k: int|
                0 <= k < before.len() && (#[trigger] before[k]).0 == class && (forall|j: int|
                    0 <= j < k ==> (#[trigger] before[j]).0 != class);
            assert(after == before.update(m, (class, (before[m].1 + 1) as usize)));
            assert forall|k: int| 0 <= k < after.len() implies {
                &&& (#[trigger] after[k]).1 == occurrences(classes, after[k].0)
                &&& after[k].1 > 0
            } by {
                assert(before[k].0 == after[k].0);
                assert(before[m].1 <= head.len());
                if k != m {
                    assert(before[k].0 != before[m].0);
                }
            }
            assert forall|j: int, k: int| 0 <= j < k < after.len() implies (#[trigger] after[j]).0
                != (#[trigger] after[k]).0 by {
                assert(before[j].0 == after[j].0);
                assert(before[k].0 == after[k].0);
            }
            assert forall|c: usize| #[trigger] occurrences(classes, c) > 0 implies exists|k: int|
                0 <= k < after.len() && (#[trigger] after[k]).0 == c by {
                if c == class {
                    assert(after[m].0 == c);
                } else {
                    assert(occurrences(head, c) > 0);
                    let k = choose|k: int|
                        0 <= k < before.len() && (#[trigger] before[k]).0 == c;
                    assert(after[k].0 == c);
                }
            }
        } else {
            assert(after == before.push((class, 1usize)));
            assert(occurrences(head, class) == 0) by {
                if occurrences(head, class) > 0 {
                    let k = choose|k: int|
                        0 <= k < before.len() && (#[trigger] before[k]).0 == class;
                    assert(before[k].0 != class);
                }
            }
            assert forall|k: int| 0 <= k < after.len() implies {
                &&& (#[trigger] after[k]).1 == occurrences(classes, after[k].0)
                &&& after[k].1 > 0
            } by {
                if k < before.len() {
                    assert(before[k] == after[k]);
                }
            }
            assert forall|j: int, k: int| 0 <= j < k < after.len() implies (#[trigger] after[j]).0
                != (#[trigger] after[k]).0 by {
                assert(before[j] == after[j]);
                if k < before.len() {
                    assert(before[k] == after[k]);
                }
            }
            assert forall|c: usize| #[trigger] occurrences(classes, c) > 0 implies exists|k: int|
                0 <= k < after.len() && (#[trigger] after[k]).0 == c by {
                if c == class {
                    assert(after[before.len() as int].0 == c);
                } else {
                    assert(occurrences(head, c) > 0);
                    let k = choose|k: int|
                        0 <= k < before.len() && (#[trigger] before[k]).0 == c;
                    assert(after[k].0 == c);
                }
            }
        }
    }
}

proof fn lemma_ranked_in(ranking: Seq<Tally>, entry: Tally)
    requires
        forall|j: int, k: int| 0 <= j < k < ranking.len() ==> ranking[j].1 >= ranking[k].1,
    ensures
        forall|j: int, k: int|
            0 <= j < k < ranked_in(ranking, entry).len() ==> ranked_in(ranking, entry)[j].1
                >= ranked_in(ranking, entry)[k].1,
        ranked_in(ranking, entry).to_multiset() == ranking.to_multiset().insert(entry),
        forall|k: int|
            0 <= k < ranked_in(ranking, entry).len() ==> (#[trigger] ranked_in(ranking, entry)[k])
                == entry || ranking.contains(ranked_in(ranking, entry)[k]),
    decreases ranking.len(),
{
    broadcast use vstd::seq_lib::group_to_multiset_ensures;

    let after = ranked_in(ranking, entry);
    if ranking.len() == 0 {
        assert(after =~= ranking.push(entry));
    } else if ranking.last().1 >= entry.1 {
        assert forall|k: int| 0 <= k < after.len() implies (#[trigger] after[k]) == entry
            || ranking.contains(after[k]) by {
            if k < ranking.len() {
                assert(ranking[k] == after[k]);
            }
        }
    } else {
        let head = ranking.drop_last();
        lemma_ranked_in(head, entry);
        let shorter = ranked_in(head, entry);
        assert(head.push(ranking.last()) =~= ranking);
        assert(after.to_multiset() =~= ranking.to_multiset().insert(entry));
        assert forall|k: int| 0 <= k < shorter.len() implies (#[trigger] shorter[k]).1
            >= ranking.last().1 by {
            if shorter[k] != entry {
                assert(head.contains(shorter[k]));
                let m = choose|m: int| 0 <= m < head.len() && head[m] == shorter[k];
                assert(ranking[m] == head[m]);
                assert(ranking[m].1 >= ranking[ranking.len() - 1].1);
            }
        }
        assert forall|k: int| 0 <= k < after.len() implies (#[trigger] after[k]) == entry
            || ranking.contains(after[k]) by {
            if k < shorter.len() {
                assert(after[k] == shorter[k]);
                if shorter[k] != entry {
                    let m = choose|m: int| 0 <= m < head.len() && head[m] == shorter[k];
                    assert(ranking[m] == shorter[k]);
                }
            } else {
                assert(ranking[ranking.len() - 1] == after[k]);
            }
        }
    }
}

/// A ranking has the entries of the tally, and the counts never grow from one
/// entry to the next.
pub proof fn law_ranking(tally: Seq<Tally>)
    ensures
        ranked(tally).to_multiset() == tally.to_multiset(),
        forall|j: int, k: int|
            0 <= j < k < ranked(tally).len() ==> ranked(tally)[j].1 >= ranked(tally)[k].1,
    decreases tally.len(),
{
    broadcast use vstd::seq_lib::group_to_multiset_ensures;

    if tally.len() == 0 {
        assert(ranked(tally) =~= tally);
    } else {
        law_ranking(tally.drop_last());
        lemma_ranked_in(ranked(tally.drop_last()), tally.last());
        assert(tally.drop_last().push(tally.last()) =~= tally);
    }
}

} // verus!
