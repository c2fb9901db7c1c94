//! Managed lists and ordered sets of addresses.
use vstd::prelude::*;

use crate::gather;
use crate::mem;
use crate::mem::Fetch;
use crate::mem::Image;
use crate::mem::Memory;
use crate::offsets::list;
use crate::offsets::{MIN_VALID_ADDRESS, PTR_SIZE};

verus! {

/// The elements of a managed array of references.
pub open spec fn slots(image: Image, items: int, count: nat) -> Seq<Fetch<Option<usize>>> {
    Seq::new(count, |i: int| image.ptr(items + list::ARRAY_DATA + i * PTR_SIZE))
}

/// A reference that can lead to an object.
pub open spec fn valid(slot: Option<usize>) -> Option<usize> {
    match slot {
        Some(element) => if element >= MIN_VALID_ADDRESS {
            Some(element)
        } else {
            None
        },
        None => None,
    }
}

/// The references that can lead to objects, in order.
pub open spec fn references(slots: Seq<Option<usize>>) -> Seq<usize> {
    gather::present(slots.map_values(|s: Option<usize>| valid(s)))
}

/// The elements of the `List<T>` at `addr`, of which no more than `max_len` are
/// looked at. A list that cannot be read is empty.
pub open spec fn list_at(image: Image, addr: int, max_len: nat) -> Fetch<Seq<usize>> {
    match image.ptr(addr + list::ITEMS) {
        Err(need) => Err(need),
        Ok(None) => Ok(seq![]),
        Ok(Some(items)) => match image.int32(addr + list::SIZE) {
            Err(need) => Err(need),
            Ok(None) => Ok(seq![]),
            Ok(Some(size)) => if size <= 0 {
                Ok(seq![])
            } else {
                let count = if size < max_len {
                    size as nat
                } else {
                    max_len
                };
                match gather::gathered(slots(image, items as int, count)) {
                    Err(need) => Err(need),
                    Ok(values) => Ok(references(values)),
                }
            },
        },
    }
}

/// The addresses of a result in spec code.
pub open spec fn addresses_view(r: Fetch<Vec<usize>>) -> Fetch<Seq<usize>> {
    match r {
        Err(need) => Err(need),
        Ok(v) => Ok(v@),
    }
}

/// Reads an element of a managed array of references. One beyond the address
/// space cannot be read.
fn read_slot(mem: &Memory, items: usize, index: usize) -> (r: Fetch<Option<usize>>)
    ensures
        r == mem@.ptr(items + list::ARRAY_DATA + index * PTR_SIZE),
{
    if index > (usize::MAX - list::ARRAY_DATA) / PTR_SIZE {
        return Ok(None);
    }
    mem::read_link(mem, items, list::ARRAY_DATA + index * PTR_SIZE)
}

/// Reads a `List<T>` and returns the addresses of its elements.
pub fn read_list(mem: &Memory, addr: usize, max_len: usize) -> (r: Fetch<Vec<usize>>)
    ensures
        addresses_view(r) == list_at(mem@, addr as int, max_len as nat),
{
    let items: usize = match mem::read_link(mem, addr, list::ITEMS) {
        Err(need) => return Err(need),
        Ok(None) => return Ok(Vec::new()),
        Ok(Some(items)) => items,
    };
    let size: i32 = match mem::read_int(mem, addr, list::SIZE) {
        Err(need) => return Err(need),
        Ok(None) => return Ok(Vec::new()),
        Ok(Some(size)) => size,
    };
    if size <= 0 {
        return Ok(Vec::new());
    }
    let count: usize = if (size as usize) < max_len {
        size as usize
    } else {
        max_len
    };
    let ghost fetches = slots(mem@, items as int, count as nat);
    let ghost mut values: Seq<Option<usize>> = seq![];
    let mut out: Vec<usize> = Vec::new();
    assert(fetches.take(0) =~= seq![]);
    assert(out@ =~= references(values));
    for index in 0..count
        invariant
            fetches == slots(mem@, items as int, count as nat),
            gather::gathered(fetches.take(index as int)) == Ok::<Seq<Option<usize>>, mem::Need>(
                values,
            ),
            out@ == references(values),
            list_at(mem@, addr as int, max_len as nat) == (match gather::gathered(fetches) {
                Err(need) => Err(need),
                Ok(all) => Ok(references(all)),
            }),
    {
        proof {
            gather::lemma_gathered_step(fetches, index as int);
        }
        match read_slot(mem, items, index) {
            Err(need) => {
                proof {
                    gather::lemma_gathered_stops(fetches, index + 1);
                }
                return Err(need);
            },
            Ok(slot) => {
                proof {
                    let f = |s: Option<usize>| valid(s);
                    assert(values.push(slot).map_values(f).drop_last() =~= values.map_values(f));
                    values = values.push(slot);
                }
                if let Some(element) = slot {
                    if element >= MIN_VALID_ADDRESS {
                        out.push(element);
                    }
                }
            },
        }
    }
    assert(fetches.take(count as int) =~= fetches);
    Ok(out)
}

/// An ordered sequence with one more element, unless it is there already.
pub open spec fn inserted(s: Seq<usize>, x: usize) -> Seq<usize>
    decreases s.len(),
{
    if s.len() == 0 {
        seq![x]
    } else if s.last() < x {
        s.push(x)
    } else if s.last() == x {
        s
    } else {
        inserted(s.drop_last(), x).push(s.last())
    }
}

/// The elements of a sequence in ascending order, each once.
pub open spec fn ascending(s: Seq<usize>) -> Seq<usize>
    decreases s.len(),
{
    if s.len() == 0 {
        seq![]
    } else {
        inserted(ascending(s.drop_last()), s.last())
    }
}

/// Adds an element to an ordered sequence.
fn insert_ascending(v: &mut Vec<usize>, x: usize)
    ensures
        final(v)@ == inserted(old(v)@, x),
{
    let ghost s = v@;
    let mut i: usize = v.len();
    assert(s.take(i as int) =~= s);
    assert(inserted(s.take(i as int), x) + s.skip(i as int) =~= inserted(s, x));
    while i > 0 && v[i - 1] > x
        invariant
            v@ == s,
            i <= s.len(),
            inserted(s.take(i as int), x) + s.skip(i as int) == inserted(s, x),
        decreases i,
    {
        assert(s.take(i as int).drop_last() =~= s.take(i - 1));
        assert(inserted(s.take(i - 1), x) + s.skip(i - 1) =~= inserted(s.take(i as int), x)
            + s.skip(i as int));
        i = i - 1;
    }
    if i > 0 && v[i - 1] == x {
        assert(s.take(i as int) + s.skip(i as int) =~= s);
        return;
    }
    v.insert(i, x);
    assert(v@ =~= inserted(s.take(i as int), x) + s.skip(i as int));
}

/// Orders addresses and drops duplicates.
pub fn sort_unique(addresses: &Vec<usize>) -> (unique: Vec<usize>)
    ensures
        unique@ == ascending(addresses@),
{
    let mut unique: Vec<usize> = Vec::new();
    for i in 0..addresses.len()
        invariant
            unique@ == ascending(addresses@.take(i as int)),
    {
        assert(addresses@.take(i + 1).drop_last() =~= addresses@.take(i as int));
        insert_ascending(&mut unique, addresses[i]);
    }
    assert(addresses@.take(addresses@.len() as int) =~= addresses@);
    unique
}

/// The values grow strictly from left to right.
pub open spec fn strictly_ascending(s: Seq<usize>) -> bool {
    forall|i: int, j: int| 0 <= i < j < s.len() ==> s[i] < s[j]
}

proof fn lemma_inserted(s: Seq<usize>, x: usize)
    requires
        strictly_ascending(s),
    ensures
        strictly_ascending(inserted(s, x)),
        forall|y: usize| #[trigger] inserted(s, x).contains(y) <==> y == x || s.contains(y),
    decreases s.len(),
{
    let r = inserted(s, x);
    if s.len() == 0 {
        assert(r[0] == x);
    } else if s.last() < x {
        assert(r[r.len() - 1] == x);
        assert forall|y: usize| #[trigger] r.contains(y) <==> y == x || s.contains(y) by {
            if s.contains(y) {
                let i = choose|i: int| 0 <= i < s.len() && s[i] == y;
                assert(r[i] == y);
            }
        }
    } else if s.last() == x {
        assert(s[s.len() - 1] == x);
    } else {
        let head = s.drop_last();
        lemma_inserted(head, x);
        assert(r.drop_last() =~= inserted(head, x));
        assert forall|i: int| 0 <= i < r.len() - 1 implies r[i] < s.last() by {
            assert(inserted(head, x).contains(r.drop_last()[i]));
            if r[i] != x {
                assert(head.contains(r[i]));
            }
        }
        assert forall|y: usize| #[trigger] r.contains(y) <==> y == x || s.contains(y) by {
            if r.contains(y) {
                let i = choose|i: int| 0 <= i < r.len() && r[i] == y;
                if i < r.len() - 1 {
                    assert(inserted(head, x)[i] == y);
                    assert(inserted(head, x).contains(y));
                    if y != x {
                        assert(head.contains(y));
                        let k = choose|k: int| 0 <= k < head.len() && head[k] == y;
                        assert(s[k] == y);
                    }
                } else {
                    assert(s[s.len() - 1] == y);
                }
            }
            if y == x || s.contains(y) {
                if s.contains(y) && y != x {
                    let k = choose|k: int| 0 <= k < s.len() && s[k] == y;
                    if k < head.len() {
                        assert(head[k] == y);
                        assert(head.contains(y));
                    } else {
                        assert(r[r.len() - 1] == y);
                    }
                }
                if y == x || head.contains(y) {
                    assert(inserted(head, x).contains(y));
                    let i = choose|i: int|
                        0 <= i < inserted(head, x).len() && inserted(head, x)[i] == y;
                    assert(r[i] == y);
                }
            }
        }
    }
}

/// Ordering keeps exactly the elements that were there, each once.
pub proof fn law_ascending(s: Seq<usize>)
    ensures
        strictly_ascending(ascending(s)),
        forall|y: usize| #[trigger] ascending(s).contains(y) <==> s.contains(y),
    decreases s.len(),
{
    if s.len() > 0 {
        let head = s.drop_last();
        law_ascending(head);
        lemma_inserted(ascending(head), s.last());
        assert forall|y: usize| #[trigger] ascending(s).contains(y) <==> s.contains(y) by {
            if ascending(s).contains(y) && y != s.last() {
                assert(ascending(head).contains(y));
                let k = choose|k: int| 0 <= k < head.len() && head[k] == y;
                assert(s[k] == y);
            }
            if s.contains(y) {
                let k = choose|k: int| 0 <= k < s.len() && s[k] == y;
                if k < head.len() {
                    assert(head[k] == y);
                    assert(ascending(head).contains(y));
                }
            } else {
                assert(s[s.len() - 1] == s.last());
            }
            if y == s.last() {
                assert(s[s.len() - 1] == y);
            }
        }
    }
}

/// A list is never longer than the caller allows, and all its elements can be
/// objects.
pub proof fn law_list_is_bounded(image: Image, addr: int, max_len: nat)
    ensures
        list_at(image, addr, max_len) matches Ok(elements) ==> {
            &&& elements.len() <= max_len
            &&& forall|i: int|
                0 <= i < elements.len() ==> #[trigger] elements[i] >= MIN_VALID_ADDRESS
        },
{
    if let Ok(Some(items)) = image.ptr(addr + list::ITEMS) {
        if let Ok(Some(size)) = image.int32(addr + list::SIZE) {
            if size > 0 {
                let count = if size < max_len {
                    size as nat
                } else {
                    max_len
                };
                let fetches = slots(image, items as int, count);
                gather::lemma_gathered_values(fetches);
                if let Ok(values) = gather::gathered(fetches) {
                    let f = |s: Option<usize>| valid(s);
                    let checked = values.map_values(f);
                    gather::lemma_present(checked);
                    let elements = references(values);
                    assert forall|i: int| 0 <= i < elements.len() implies #[trigger] elements[i]
                        >= MIN_VALID_ADDRESS by {
                        assert(elements.contains(elements[i]));
                        assert(checked.contains(Some(elements[i])));
                        let k = choose|k: int|
                            0 <= k < checked.len() && checked[k] == Some(elements[i]);
                        assert(valid(values[k]) == Some(elements[i]));
                    }
                }
            }
        }
    }
}

/// No two pictures of one process disagree about a list.
pub proof fn law_list_settled(image: Image, later: Image, addr: int, max_len: nat)
    requires
        mem::laws::alike(image, later),
    ensures
        mem::laws::settled(image, list_at(image, addr, max_len), list_at(later, addr, max_len)),
{
    mem::laws::law_read_settled(image, later, addr + list::ITEMS, 4);
    mem::laws::law_read_settled(image, later, addr + list::SIZE, 4);
    if let Ok(Some(items)) = image.ptr(addr + list::ITEMS) {
        if let Ok(Some(size)) = image.int32(addr + list::SIZE) {
            if size > 0 {
                let count = if size < max_len {
                    size as nat
                } else {
                    max_len
                };
                let before = slots(image, items as int, count);
                let after = slots(later, items as int, count);
                assert forall|i: int| 0 <= i < before.len() implies mem::laws::settled(
                    image,
                    #[trigger] before[i],
                    after[i],
                ) by {
                    mem::laws::law_read_settled(
                        image,
                        later,
                        items + list::ARRAY_DATA + i * PTR_SIZE,
                        4,
                    );
                }
                gather::lemma_gathered_settled(image, before, after);
            }
        }
    }
}

} // verus!
