//! Whom the world of a frame consists of.
use vstd::prelude::*;

use crate::game::laws;
use crate::game::laws::objects;
use crate::game::list;
use crate::game::player;
use crate::game::player::{PlayerFacts, Tracker};
use crate::game::trap;
use crate::game::trap::TrapRef;
use crate::gather;
use crate::mem::Fetch;
use crate::mem::Image;
use crate::mem::Need;

verus! {

/// The element with an index in the array of a list: the elements stand four bytes
/// apart, from 8 on.
pub open spec fn element(image: Image, items: usize, k: int) -> Fetch<Option<usize>> {
    image.ptr(items + 8 + k * 4)
}

/// The list whose header stands at `addr` has an element in one of its first
/// `max_len` places. Its array stands at 4, and it has as many elements as the
/// number at 0xC says.
pub open spec fn in_list(image: Image, addr: int, max_len: nat, x: usize) -> bool {
    match (image.ptr(addr + 0x04), image.int32(addr + 0x0C)) {
        (Ok(Some(items)), Ok(Some(size))) => exists|k: int|
            {
                &&& 0 <= k < size
                &&& k < max_len
                &&& #[trigger] element(image, items, k) == Ok::<Option<usize>, Need>(Some(x))
                &&& x >= 0x10000
            },
        _ => false,
    }
}

/// A list that was read has exactly the elements that can be objects.
pub proof fn law_elements_of_a_list(image: Image, addr: int, max_len: nat, x: usize)
    ensures
        list::list_at(image, addr, max_len) matches Ok(s) ==> (s.contains(x) <==> in_list(
            image,
            addr,
            max_len,
            x,
        )),
{
    match (
        image.ptr(addr + 0x04),
        image.int32(addr + 0x0C),
        list::list_at(image, addr, max_len),
    ) {
        (Ok(Some(items)), Ok(Some(size)), Ok(s)) => {
            if size > 0 {
                let count = if size < max_len {
                    size as nat
                } else {
                    max_len
                };
                let fetches = list::slots(image, items as int, count);
                gather::lemma_gathered_values(fetches);
                let values = gather::gathered(fetches)->Ok_0;
                let f = |slot: Option<usize>| list::valid(slot);
                let checked = values.map_values(f);
                gather::lemma_present(checked);
                if s.contains(x) {
                    assert(checked.contains(Some(x)));
                    let k = choose|k: int| 0 <= k < checked.len() && checked[k] == Some(x);
                    assert(list::valid(values[k]) == Some(x));
                    assert(fetches[k] == Ok::<Option<usize>, Need>(values[k]));
                    assert(element(image, items, k) == Ok::<Option<usize>, Need>(Some(x)));
                }
                if in_list(image, addr, max_len, x) {
                    let k = choose|k: int|
                        {
                            &&& 0 <= k < size
                            &&& k < max_len
                            &&& #[trigger] element(image, items, k) == Ok::<Option<usize>, Need>(
                                Some(x),
                            )
                            &&& x >= 0x10000
                        };
                    assert(fetches[k] == element(image, items, k));
                    assert(fetches[k] == Ok::<Option<usize>, Need>(values[k]));
                    assert(checked[k] == Some(x));
                    assert(checked.contains(Some(x)));
                }
            }
        },
        _ => {},
    }
}

/// A list keeps the order of its array, and has at most one element for a place.
pub proof fn law_order_of_a_list(image: Image, addr: int, max_len: nat) -> (places: Seq<int>)
    ensures
        list::list_at(image, addr, max_len) matches Ok(s) ==> {
            &&& places.len() == s.len()
            &&& s.len() <= max_len
            &&& forall|i: int, j: int| 0 <= i < j < places.len() ==> places[i] < places[j]
            &&& s.len() > 0 ==> (image.ptr(addr + 0x04) matches Ok(Some(items)) && forall|i: int|
                0 <= i < s.len() ==> element(image, items, #[trigger] places[i]) == Ok::<
                    Option<usize>,
                    Need,
                >(Some(s[i])))
        },
{
    match (
        image.ptr(addr + 0x04),
        image.int32(addr + 0x0C),
        list::list_at(image, addr, max_len),
    ) {
        (Ok(Some(items)), Ok(Some(size)), Ok(s)) => {
            if size > 0 {
                let count = if size < max_len {
                    size as nat
                } else {
                    max_len
                };
                let fetches = list::slots(image, items as int, count);
                gather::lemma_gathered_values(fetches);
                let values = gather::gathered(fetches)->Ok_0;
                let checked = values.map_values(|slot: Option<usize>| list::valid(slot));
                gather::lemma_present(checked);
                let places = laws::lemma_present_places(checked);
                assert forall|i: int| 0 <= i < s.len() implies element(
                    image,
                    items,
                    #[trigger] places[i],
                ) == Ok::<Option<usize>, Need>(Some(s[i])) by {
                    let k = places[i];
                    assert(list::valid(values[k]) == Some(s[i]));
                    assert(fetches[k] == Ok::<Option<usize>, Need>(values[k]));
                }
                places
            } else {
                seq![]
            }
        },
        _ => seq![],
    }
}

/// A list of a screen is read through the pointer at its place, up to sixteen
/// elements of it; without a pointer it is empty.
pub proof fn law_list_of_a_screen(image: Image, addr: int)
    ensures
        match image.ptr(addr) {
            Err(need) => player::listed(image, addr) == Err::<Seq<usize>, Need>(need),
            Ok(None) => player::listed(image, addr) matches Ok(s) && s.len() == 0,
            Ok(Some(at)) => player::listed(image, addr) == list::list_at(image, at as int, 16),
        },
{
}

/// The players of a screen are those that at least one of its three lists names,
/// at 0x3C, at 0x40 or at 0x44, and nobody else; and no list is left out.
pub proof fn law_any_list_names_a_player(image: Image, at: int, x: usize)
    ensures
        player::lists_of(image, at) is Ok <==> player::listed(image, at + 0x3C) is Ok
            && player::listed(image, at + 0x40) is Ok && player::listed(image, at + 0x44) is Ok,
        player::lists_of(image, at) matches Ok(names) ==> {
            &&& player::listed(image, at + 0x3C) matches Ok(s) ==> s.contains(x) ==> names.contains(
                x,
            )
            &&& player::listed(image, at + 0x40) matches Ok(s) ==> s.contains(x) ==> names.contains(
                x,
            )
            &&& player::listed(image, at + 0x44) matches Ok(s) ==> s.contains(x) ==> names.contains(
                x,
            )
            &&& names.contains(x) ==> {
                ||| (player::listed(image, at + 0x3C) matches Ok(s) && s.contains(x))
                ||| (player::listed(image, at + 0x40) matches Ok(s) && s.contains(x))
                ||| (player::listed(image, at + 0x44) matches Ok(s) && s.contains(x))
            }
            &&& forall|i: int, j: int| 0 <= i < j < names.len() ==> names[i] < names[j]
        },
{
    if let Ok(names) = player::lists_of(image, at) {
        let a = player::listed(image, at + 0x3C)->Ok_0;
        let b = player::listed(image, at + 0x40)->Ok_0;
        let c = player::listed(image, at + 0x44)->Ok_0;
        let all = a + b + c;
        list::law_ascending(all);
        assert(names == list::ascending(all));
        if a.contains(x) {
            let k = choose|k: int| 0 <= k < a.len() && a[k] == x;
            assert(all[k] == x);
        }
        if b.contains(x) {
            let k = choose|k: int| 0 <= k < b.len() && b[k] == x;
            assert(all[a.len() + k] == x);
        }
        if c.contains(x) {
            let k = choose|k: int| 0 <= k < c.len() && c[k] == x;
            assert(all[a.len() + b.len() + k] == x);
        }
        if names.contains(x) {
            let k = choose|k: int| 0 <= k < all.len() && all[k] == x;
            if k < a.len() {
                assert(a[k] == x);
            } else if k < a.len() + b.len() {
                assert(b[k - a.len()] == x);
            } else {
                assert(c[k - a.len() - b.len()] == x);
            }
        }
    }
}

/// An object proves a class exactly if it has the shape of a player, a list of its
/// own screen names it, and its first pointer is the class and can be one.
pub proof fn law_proof_of_a_class(image: Image, addr: usize, at: usize, names: Seq<usize>)
    requires
        image.ptr(addr + 0xAC) == Ok::<Option<usize>, Need>(Some(at)),
        player::lists_of(image, at as int) == Ok::<Seq<usize>, Need>(names),
        player::player_shape(image, addr as int) is Ok,
        image.ptr(addr as int) is Ok,
    ensures
        player::proven_class(image, addr) == Ok::<Option<usize>, Need>(
            match image.ptr(addr as int) {
                Ok(Some(class)) => if player::player_shape(image, addr as int) == Ok::<bool, Need>(
                    true,
                ) && names.contains(addr) && class >= 0x10000 {
                    Some(class)
                } else {
                    None
                },
                _ => None,
            },
        ),
{
}

/// As long as no class is known, the first object that proves one gives it; an
/// object behind it does not count. A class that is known stays.
pub proof fn law_first_proof_counts(image: Image, tracker: Tracker, objects: Seq<usize>, k: int)
    requires
        0 <= k < objects.len(),
        forall|j: int|
            0 <= j < k ==> player::proven_class(image, #[trigger] objects[j]) == Ok::<
                Option<usize>,
                Need,
            >(None),
    ensures
        tracker.player_class == 0 ==> (player::proven_class(image, objects[k]) matches Ok(
            Some(class),
        ) ==> player::class_of(image, tracker, objects) == Ok::<usize, Need>(class)),
        tracker.player_class != 0 ==> player::class_of(image, tracker, objects) == Ok::<
            usize,
            Need,
        >(tracker.player_class),
{
    let fetches = player::proofs(image, objects);
    lemma_first_found(fetches, k);
}

/// No object proves a class: none is learnt.
pub proof fn law_without_proof_no_class(image: Image, tracker: Tracker, objects: Seq<usize>)
    requires
        tracker.player_class == 0,
        forall|j: int|
            0 <= j < objects.len() ==> player::proven_class(image, #[trigger] objects[j]) == Ok::<
                Option<usize>,
                Need,
            >(None),
    ensures
        player::class_of(image, tracker, objects) == Ok::<usize, Need>(0),
{
    let fetches = player::proofs(image, objects);
    assert forall|j: int| 0 <= j < fetches.len() implies #[trigger] fetches[j] == Ok::<
        Option<usize>,
        Need,
    >(None) by {
        assert(fetches[j] == player::proven_class(image, objects[j]));
    }
    lemma_none_found(fetches);
}

proof fn lemma_none_found<T>(fetches: Seq<Fetch<Option<T>>>)
    requires
        forall|j: int|
            0 <= j < fetches.len() ==> #[trigger] fetches[j] == Ok::<Option<T>, Need>(None),
    ensures
        gather::first_found(fetches) == Ok::<Option<T>, Need>(None),
    decreases fetches.len(),
{
    if fetches.len() > 0 {
        let head = fetches.drop_last();
        assert forall|j: int| 0 <= j < head.len() implies #[trigger] head[j] == Ok::<
            Option<T>,
            Need,
        >(None) by {
            assert(head[j] == fetches[j]);
        }
        lemma_none_found(head);
        assert(fetches[fetches.len() - 1] == Ok::<Option<T>, Need>(None));
    }
}

proof fn lemma_first_found<T>(fetches: Seq<Fetch<Option<T>>>, k: int)
    ensures
        0 <= k < fetches.len() && (forall|j: int|
            0 <= j < k ==> #[trigger] fetches[j] == Ok::<Option<T>, Need>(None)) && fetches[k]
            != Ok::<Option<T>, Need>(None) ==> gather::first_found(fetches) == fetches[k],
{
    if 0 <= k < fetches.len() && (forall|j: int|
        0 <= j < k ==> #[trigger] fetches[j] == Ok::<Option<T>, Need>(None)) && fetches[k] != Ok::<
        Option<T>,
        Need,
    >(None) {
        let head = fetches.take(k);
        assert forall|j: int| 0 <= j < head.len() implies #[trigger] head[j] == Ok::<
            Option<T>,
            Need,
        >(None) by {
            assert(head[j] == fetches[j]);
        }
        lemma_none_found(head);
        gather::lemma_found_step(fetches, k);
        gather::lemma_found_stops(fetches, k + 1);
    }
}

/// Our character is the hint of the last frame if it still is ours, else the
/// first object of the frame that is: a player of the class whose flags say so.
pub proof fn law_our_character(image: Image, tracker: Tracker, objects: Seq<usize>, k: int)
    ensures
        ({
            let class = tracker.player_class;
            let hint = tracker.last_local;
            let ours = |addr: usize|
                player::player_at(image, class, addr as int) == Ok::<bool, Need>(true)
                    && player::local_flags(image, addr as int) == Ok::<bool, Need>(true);
            let not_ours = |addr: usize|
                player::player_at(image, class, addr as int) == Ok::<bool, Need>(false) || (
                player::player_at(image, class, addr as int) == Ok::<bool, Need>(true)
                    && player::local_flags(image, addr as int) == Ok::<bool, Need>(false));
            &&& hint != 0 && ours(hint) ==> player::local_of(image, tracker, objects) == Ok::<
                Option<usize>,
                Need,
            >(Some(hint))
            &&& (hint == 0 || not_ours(hint)) && 0 <= k < objects.len() && ours(objects[k]) && (
            forall|j: int| 0 <= j < k ==> not_ours(#[trigger] objects[j])) ==> player::local_of(
                image,
                tracker,
                objects,
            ) == Ok::<Option<usize>, Need>(Some(objects[k]))
            &&& (hint == 0 || not_ours(hint)) && (forall|j: int|
                0 <= j < objects.len() ==> not_ours(#[trigger] objects[j])) ==> player::local_of(
                image,
                tracker,
                objects,
            ) == Ok::<Option<usize>, Need>(None)
        }),
{
    let class = tracker.player_class;
    let fetches = objects.map_values(|addr: usize| player::own_address(image, class, addr));
    let not_ours = |addr: usize|
        player::player_at(image, class, addr as int) == Ok::<bool, Need>(false) || (
        player::player_at(image, class, addr as int) == Ok::<bool, Need>(true)
            && player::local_flags(image, addr as int) == Ok::<bool, Need>(false));
    if 0 <= k < objects.len() && (forall|j: int| 0 <= j < k ==> not_ours(#[trigger] objects[j])) {
        assert forall|j: int| 0 <= j < k implies #[trigger] fetches[j] == Ok::<
            Option<usize>,
            Need,
        >(None) by {
            assert(not_ours(objects[j]));
        }
        lemma_first_found(fetches, k);
    }
    if forall|j: int| 0 <= j < objects.len() ==> not_ours(#[trigger] objects[j]) {
        assert forall|j: int| 0 <= j < fetches.len() implies #[trigger] fetches[j] == Ok::<
            Option<usize>,
            Need,
        >(None) by {
            assert(not_ours(objects[j]));
        }
        lemma_none_found(fetches);
    }
}

/// Nobody is lost: every player of the class among the addresses whose fields can
/// be read is collected, with those fields; and nobody else is.
pub proof fn law_collected_players(
    image: Image,
    class: usize,
    addresses: Seq<usize>,
    p: PlayerFacts,
)
    ensures
        player::collected(image, class, addresses) matches Ok(players) ==> (players.contains(p)
            <==> addresses.contains(p.addr) && player::player_at(image, class, p.addr as int)
            == Ok::<bool, Need>(true) && player::facts_at(image, p.addr) == Ok::<
            Option<PlayerFacts>,
            Need,
        >(Some(p))),
{
    if let Ok(players) = player::collected(image, class, addresses) {
        let checks = player::checks(image, class, addresses);
        let checked = gather::gathered(checks)->Ok_0;
        let unique = player::players_among(image, class, addresses)->Ok_0;
        let readings = player::readings(image, unique);
        let found = gather::gathered(readings)->Ok_0;
        let read = gather::present(found);
        gather::lemma_gathered_values(checks);
        gather::lemma_gathered_values(readings);
        gather::lemma_present(checked);
        gather::lemma_present(found);
        list::law_ascending(gather::present(checked));
        lemma_locals_first(read, p);
        if players.contains(p) {
            assert(read.contains(p));
            assert(found.contains(Some(p)));
            let k = choose|k: int| 0 <= k < found.len() && found[k] == Some(p);
            assert(readings[k] == player::facts_at(image, unique[k]));
            objects::law_fields_of_a_player(image, unique[k]);
            assert(unique.contains(p.addr));
            assert(gather::present(checked).contains(p.addr));
            assert(checked.contains(Some(p.addr)));
            let m = choose|m: int| 0 <= m < checked.len() && checked[m] == Some(p.addr);
            assert(checks[m] == player::player_address(image, class, addresses[m]));
            assert(addresses[m] == p.addr);
        }
        if addresses.contains(p.addr) && player::player_at(image, class, p.addr as int) == Ok::<
            bool,
            Need,
        >(true) && player::facts_at(image, p.addr) == Ok::<Option<PlayerFacts>, Need>(Some(p)) {
            let m = choose|m: int| 0 <= m < addresses.len() && addresses[m] == p.addr;
            assert(checks[m] == player::player_address(image, class, addresses[m]));
            assert(checked[m] == Some(p.addr));
            assert(checked.contains(Some(p.addr)));
            assert(gather::present(checked).contains(p.addr));
            assert(unique.contains(p.addr));
            let k = choose|k: int| 0 <= k < unique.len() && unique[k] == p.addr;
            assert(readings[k] == player::facts_at(image, unique[k]));
            assert(found[k] == Some(p));
            assert(found.contains(Some(p)));
            assert(read.contains(p));
        }
    }
}

proof fn lemma_kept(s: Seq<PlayerFacts>, keep: spec_fn(PlayerFacts) -> bool, p: PlayerFacts)
    requires
        s.contains(p),
        keep(p),
    ensures
        s.filter(keep).contains(p),
    decreases s.len(),
{
    reveal(Seq::filter);
    let k = choose|k: int| 0 <= k < s.len() && s[k] == p;
    let head = s.drop_last();
    if k < head.len() {
        assert(head[k] == p);
        lemma_kept(head, keep, p);
        let i = choose|i: int| 0 <= i < head.filter(keep).len() && head.filter(keep)[i] == p;
        assert(s.filter(keep)[i] == p);
    } else {
        assert(s.filter(keep) == head.filter(keep).push(p));
        assert(s.filter(keep)[head.filter(keep).len() as int] == p);
    }
}

proof fn lemma_locals_first(read: Seq<PlayerFacts>, p: PlayerFacts)
    ensures
        player::locals_first(read).contains(p) <==> read.contains(p),
{
    let near = |q: PlayerFacts| q.is_local;
    let far = |q: PlayerFacts| !q.is_local;
    let all = player::locals_first(read);
    let a = laws::lemma_filter_places(read, near);
    let b = laws::lemma_filter_places(read, far);
    if all.contains(p) {
        let i = choose|i: int| 0 <= i < all.len() && all[i] == p;
        if i < a.len() {
            assert(read[a[i]] == p);
        } else {
            assert(read[b[i - a.len()]] == p);
        }
    }
    if read.contains(p) {
        if p.is_local {
            lemma_kept(read, near, p);
            let i = choose|i: int| 0 <= i < read.filter(near).len() && read.filter(near)[i] == p;
            assert(all[i] == p);
        } else {
            lemma_kept(read, far, p);
            let i = choose|i: int| 0 <= i < read.filter(far).len() && read.filter(far)[i] == p;
            assert(all[read.filter(near).len() + i] == p);
        }
    }
}

/// The local players come out by their addresses, and so do the others.
pub proof fn law_players_by_their_addresses(image: Image, class: usize, addresses: Seq<usize>)
    ensures
        player::collected(image, class, addresses) matches Ok(players) ==> forall|i: int, j: int|
            0 <= i < j < players.len() && (#[trigger] players[i]).is_local == (
            #[trigger] players[j]).is_local ==> players[i].addr < players[j].addr,
{
    if let Ok(players) = player::collected(image, class, addresses) {
        let unique = player::players_among(image, class, addresses)->Ok_0;
        let readings = player::readings(image, unique);
        let found = gather::gathered(readings)->Ok_0;
        let read = gather::present(found);
        gather::lemma_gathered_values(readings);
        list::law_ascending(
            gather::present(gather::gathered(player::checks(image, class, addresses))->Ok_0),
        );
        let from = laws::lemma_present_places(found);
        assert forall|k: int| 0 <= k < read.len() implies (#[trigger] read[k]).addr
            == unique[from[k]] && 0 <= from[k] < unique.len() by {
            assert(readings[from[k]] == player::facts_at(image, unique[from[k]]));
            objects::law_fields_of_a_player(image, unique[from[k]]);
        }
        let near = |p: PlayerFacts| p.is_local;
        let far = |p: PlayerFacts| !p.is_local;
        let a = laws::lemma_filter_places(read, near);
        let b = laws::lemma_filter_places(read, far);
        assert forall|i: int, j: int|
            0 <= i < j < players.len() && (#[trigger] players[i]).is_local == (
            #[trigger] players[j]).is_local implies players[i].addr < players[j].addr by {
            if i < a.len() {
                assert(near(read.filter(near)[i]));
                if j >= a.len() {
                    assert(far(read.filter(far)[j - a.len()]));
                } else {
                    assert(read[a[i]].addr < read[a[j]].addr);
                }
            } else {
                assert(read[b[i - a.len()]].addr < read[b[j - a.len()]].addr);
            }
        }
    }
}

/// The players of a frame are those of the lists of the screen; only where that
/// gives nobody, or where there is no screen, those among the objects.
pub proof fn law_players_of_a_frame(
    image: Image,
    class: usize,
    at: usize,
    objects: Seq<usize>,
    names: Seq<usize>,
)
    requires
        at != 0 ==> player::lists_of(image, at as int) == Ok::<Seq<usize>, Need>(names),
    ensures
        at == 0 ==> player::frame_players(image, class, at, objects) == player::collected(
            image,
            class,
            objects,
        ),
        at != 0 ==> match player::collected(image, class, names) {
            Err(need) => player::frame_players(image, class, at, objects) == Err::<
                Seq<PlayerFacts>,
                Need,
            >(need),
            Ok(players) => if players.len() > 0 {
                player::frame_players(image, class, at, objects) == Ok::<Seq<PlayerFacts>, Need>(
                    players,
                )
            } else {
                player::frame_players(image, class, at, objects) == player::collected(
                    image,
                    class,
                    objects,
                )
            },
        },
{
}

/// Alone, too, our character is found and its class is learnt: an object that has
/// the shape of a player, stands in any of the three lists of its screen, is not a
/// remote player and can be read gives its class, is remembered, and is in the
/// world of its screen.
pub proof fn law_a_lonely_player_is_found(
    image: Image,
    addr: usize,
    at: usize,
    class: usize,
    list_at: int,
    listed: Seq<usize>,
    p: PlayerFacts,
)
    requires
        list_at == 0x3C || list_at == 0x40 || list_at == 0x44,
        player::player_shape(image, addr as int) == Ok::<bool, Need>(true),
        image.ptr(addr + 0xAC) == Ok::<Option<usize>, Need>(Some(at)),
        at != 0,
        player::lists_of(image, at as int) is Ok,
        player::listed(image, at + list_at) == Ok::<Seq<usize>, Need>(listed),
        listed.contains(addr),
        image.ptr(addr as int) == Ok::<Option<usize>, Need>(Some(class)),
        class >= 0x10000,
        player::local_flags(image, addr as int) == Ok::<bool, Need>(true),
        player::facts_at(image, addr) == Ok::<Option<PlayerFacts>, Need>(Some(p)),
    ensures
        ({
            let tracker = Tracker { player_class: 0, last_local: 0 };
            player::world_of(image, tracker, seq![addr]) matches Ok((next, world)) ==> {
                &&& next.player_class == class
                &&& next.last_local == addr
                &&& world.screen == at
                &&& world.players.contains(p)
            }
        }),
{
    let tracker = Tracker { player_class: 0, last_local: 0 };
    let alone = seq![addr];
    let names = player::lists_of(image, at as int)->Ok_0;
    law_any_list_names_a_player(image, at as int, addr);
    assert(names.contains(addr));
    law_proof_of_a_class(image, addr, at, names);
    law_first_proof_counts(image, tracker, alone, 0);
    assert(alone[0] == addr);
    objects::law_no_shape(image, addr as int);
    objects::law_player_by_its_class(image, class, addr as int);
    assert(player::player_at(image, class, addr as int) == Ok::<bool, Need>(true));
    law_our_character(image, Tracker { player_class: class, last_local: 0 }, alone, 0);
    objects::law_screen_of_a_player(image, addr as int);
    objects::law_fields_of_a_player(image, addr);
    if let Ok((next, world)) = player::world_of(image, tracker, alone) {
        law_players_of_a_frame(image, class, at, alone, names);
        law_collected_players(image, class, names, p);
        let players = player::collected(image, class, names)->Ok_0;
        assert(players.contains(p));
        assert(players.len() > 0);
    }
}

/// Without our character the world is empty, but a class that was learnt stays;
/// with it the world is that of its screen.
pub proof fn law_world(image: Image, tracker: Tracker, objects: Seq<usize>)
    ensures
        player::world_of(image, tracker, objects) matches Ok((next, world)) ==> {
            &&& player::class_of(image, tracker, objects) == Ok::<usize, Need>(next.player_class)
            &&& match player::local_of(
                image,
                Tracker { player_class: next.player_class, last_local: tracker.last_local },
                objects,
            ) {
                Ok(Some(local)) => {
                    &&& next.last_local == local
                    &&& player::screen_of(image, local as int) == Ok::<usize, Need>(world.screen)
                    &&& player::frame_players(image, next.player_class, world.screen, objects)
                        == Ok::<Seq<PlayerFacts>, Need>(world.players)
                },
                Ok(None) => next.last_local == 0 && world.screen == 0 && world.players.len() == 0,
                Err(_) => false,
            }
        },
{
}

/// The traps of a screen are those elements of its list, at 0x34, among the first
/// 1024 that can be read, in the order of the list.
pub proof fn law_traps_of_a_screen(image: Image, screen_addr: int, at: usize, t: TrapRef)
    requires
        image.ptr(screen_addr + 0x34) == Ok::<Option<usize>, Need>(Some(at)),
    ensures
        trap::traps_of(image, screen_addr) matches Ok(traps) ==> (
        list::list_at(image, at as int, 1024) matches Ok(addresses) && (traps.contains(t)
            <==> addresses.contains(t.addr) && trap::trap_at(image, t.addr) == Ok::<
            Option<TrapRef>,
            Need,
        >(Some(t)))),
{
    if let Ok(traps) = trap::traps_of(image, screen_addr) {
        let addresses = list::list_at(image, at as int, 1024)->Ok_0;
        let fetches = trap::trap_readings(image, addresses);
        gather::lemma_gathered_values(fetches);
        let found = gather::gathered(fetches)->Ok_0;
        gather::lemma_present(found);
        if traps.contains(t) {
            assert(found.contains(Some(t)));
            let k = choose|k: int| 0 <= k < found.len() && found[k] == Some(t);
            assert(fetches[k] == trap::trap_at(image, addresses[k]));
            objects::law_fields_of_a_trap(image, addresses[k]);
        }
        if addresses.contains(t.addr) && trap::trap_at(image, t.addr) == Ok::<
            Option<TrapRef>,
            Need,
        >(Some(t)) {
            let k = choose|k: int| 0 <= k < addresses.len() && addresses[k] == t.addr;
            assert(fetches[k] == trap::trap_at(image, addresses[k]));
            assert(found[k] == Some(t));
            assert(found.contains(Some(t)));
        }
    }
}

/// Traps keep the order of their list; without a list there are none.
pub proof fn law_order_of_traps(image: Image, screen_addr: int) -> (places: Seq<int>)
    ensures
        image.ptr(screen_addr + 0x34) == Ok::<Option<usize>, Need>(None) ==> (trap::traps_of(
            image,
            screen_addr,
        ) matches Ok(traps) && traps.len() == 0),
        image.ptr(screen_addr + 0x34) matches Ok(Some(at)) ==> (trap::traps_of(
            image,
            screen_addr,
        ) matches Ok(traps) ==> (list::list_at(image, at as int, 1024) matches Ok(addresses) && {
            &&& places.len() == traps.len()
            &&& forall|i: int|
                0 <= i < traps.len() ==> 0 <= #[trigger] places[i] < addresses.len()
                    && addresses[places[i]] == traps[i].addr
            &&& forall|i: int, j: int| 0 <= i < j < places.len() ==> places[i] < places[j]
        })),
{
    match (image.ptr(screen_addr + 0x34), trap::traps_of(image, screen_addr)) {
        (Ok(Some(at)), Ok(traps)) => {
            let addresses = list::list_at(image, at as int, 1024)->Ok_0;
            let fetches = trap::trap_readings(image, addresses);
            gather::lemma_gathered_values(fetches);
            let found = gather::gathered(fetches)->Ok_0;
            let places = laws::lemma_present_places(found);
            assert forall|i: int| 0 <= i < traps.len() implies 0 <= #[trigger] places[i]
                < addresses.len() && addresses[places[i]] == traps[i].addr by {
                assert(fetches[places[i]] == trap::trap_at(image, addresses[places[i]]));
                objects::law_fields_of_a_trap(image, addresses[places[i]]);
            }
            places
        },
        _ => seq![],
    }
}

} // verus!
