//! What is drawn over the game, and when the menu is open.
use vstd::prelude::*;

use crate::game::player;
use crate::game::player::{PlayerFacts, Tracker};
use crate::game::rect::Scalar;
use crate::game::trap;
use crate::game::trap::TrapRef;
use crate::gather;
use crate::mem::Image;
use crate::mem::Need;
use crate::overlay;
use crate::overlay::classes;
use crate::overlay::classes::Tally;
use crate::overlay::color;
use crate::overlay::esp;
use crate::overlay::esp::{EspItem, Tint};
use crate::overlay::keys::{Down, Keys};
use crate::overlay::{OverlayState, Start};

verus! {

/// The item belongs to the trap: its frame, in the hue of its address.
pub open spec fn of_trap(item: EspItem, t: TrapRef) -> bool {
    t.rect == Some(item.frame) && item.tint == Tint::Hue(color::hue_of(t.addr))
}

/// The item belongs to the player: a frame with the sides of its rectangle, and
/// our own colour for our own character only.
pub open spec fn of_player(item: EspItem, p: PlayerFacts) -> bool {
    &&& p.rect matches Some(r) && item.frame.x == Scalar::Whole(r.x) && item.frame.y
        == Scalar::Whole(r.y) && item.frame.w == Scalar::Whole(r.w) && item.frame.h
        == Scalar::Whole(r.h)
    &&& p.is_local ==> item.tint == Tint::Own
    &&& !p.is_local ==> item.tint == Tint::Other
}

/// What is drawn: an item for every trap that has a frame, if traps are shown,
/// then one for every player that has one, if players are shown, in the order of
/// traps and players, and nothing else.
pub proof fn law_drawn_items(state: OverlayState, players: Seq<PlayerFacts>) -> (r: (
    Seq<int>,
    Seq<int>,
))
    ensures
        ({
            let items = state.drawn(players);
            let (a, b) = r;
            &&& items.len() == a.len() + b.len()
            &&& forall|i: int|
                0 <= i < a.len() ==> 0 <= #[trigger] a[i] < state.traps.len() && of_trap(
                    items[i],
                    state.traps[a[i]],
                )
            &&& forall|i: int|
                0 <= i < b.len() ==> 0 <= #[trigger] b[i] < players.len() && of_player(
                    items[a.len() + i],
                    players[b[i]],
                )
            &&& forall|i: int, j: int| 0 <= i < j < a.len() ==> a[i] < a[j]
            &&& forall|i: int, j: int| 0 <= i < j < b.len() ==> b[i] < b[j]
            &&& state.show_trap_esp ==> forall|k: int|
                0 <= k < state.traps.len() && (#[trigger] state.traps[k]).rect is Some
                    ==> a.contains(k)
            &&& !state.show_trap_esp ==> a.len() == 0
            &&& state.show_esp ==> forall|k: int|
                0 <= k < players.len() && (#[trigger] players[k]).rect is Some ==> b.contains(k)
            &&& !state.show_esp ==> b.len() == 0
        }),
{
    let items = state.drawn(players);
    let ts = state.traps.map_values(|t: TrapRef| esp::trap_item(t));
    let ps = players.map_values(|p: PlayerFacts| esp::player_item(p));
    let none: Seq<int> = seq![];
    let a = if state.show_trap_esp {
        lemma_places(ts)
    } else {
        none
    };
    let b = if state.show_esp {
        lemma_places(ps)
    } else {
        none
    };
    assert forall|i: int| 0 <= i < a.len() implies 0 <= #[trigger] a[i] < state.traps.len()
        && of_trap(items[i], state.traps[a[i]]) by {
        assert(ts[a[i]] == esp::trap_item(state.traps[a[i]]));
        assert(items[i] == gather::present(ts)[i]);
    }
    assert forall|i: int| 0 <= i < b.len() implies 0 <= #[trigger] b[i] < players.len()
        && of_player(items[a.len() + i], players[b[i]]) by {
        assert(ps[b[i]] == esp::player_item(players[b[i]]));
        assert(items[a.len() + i] == gather::present(ps)[i]);
    }
    if state.show_trap_esp {
        assert forall|k: int|
            0 <= k < state.traps.len() && (#[trigger] state.traps[k]).rect is Some implies a.contains(
        k) by {
            assert(ts[k] is Some);
        }
    }
    if state.show_esp {
        assert forall|k: int|
            0 <= k < players.len() && (#[trigger] players[k]).rect is Some implies b.contains(k) by {
            assert(ps[k] is Some);
        }
    }
    (a, b)
}

/// The places of the values that are present: all of them, in order.
proof fn lemma_places<T>(values: Seq<Option<T>>) -> (places: Seq<int>)
    ensures
        places.len() == gather::present(values).len(),
        forall|i: int|
            0 <= i < places.len() ==> {
                &&& 0 <= #[trigger] places[i] < values.len()
                &&& values[places[i]] == Some(gather::present(values)[i])
            },
        forall|i: int, j: int| 0 <= i < j < places.len() ==> places[i] < places[j],
        forall|k: int|
            0 <= k < values.len() && #[trigger] values[k] is Some ==> places.contains(k),
    decreases values.len(),
{
    if values.len() == 0 {
        seq![]
    } else {
        let rest = values.drop_last();
        let head = lemma_places(rest);
        let places = if values.last() is Some {
            head.push(values.len() - 1)
        } else {
            head
        };
        assert forall|i: int| 0 <= i < places.len() implies {
            &&& 0 <= #[trigger] places[i] < values.len()
            &&& values[places[i]] == Some(gather::present(values)[i])
        } by {
            if i < head.len() {
                assert(places[i] == head[i]);
                assert(rest[head[i]] == values[head[i]]);
            }
        }
        assert forall|k: int|
            0 <= k < values.len() && #[trigger] values[k] is Some implies places.contains(k) by {
            if k < rest.len() {
                assert(rest[k] == values[k]);
                let i = choose|i: int| 0 <= i < head.len() && head[i] == k;
                assert(places[i] == k);
            } else {
                assert(places[places.len() - 1] == k);
            }
        }
        places
    }
}

/// The player that a click moves is the first local one.
pub proof fn law_first_local_is_moved(players: Seq<PlayerFacts>, k: int)
    requires
        0 <= k < players.len(),
        players[k].is_local,
        forall|j: int| 0 <= j < k ==> !(#[trigger] players[j]).is_local,
    ensures
        overlay::first_local(players) == Some(players[k].addr),
    decreases players.len(),
{
    let head = players.drop_last();
    if k < head.len() {
        assert(head[k] == players[k]);
        assert forall|j: int| 0 <= j < k implies !(#[trigger] head[j]).is_local by {
            assert(head[j] == players[j]);
        }
        law_first_local_is_moved(head, k);
    } else {
        overlay::laws::law_own_player_is_moved(head);
        if let Some(addr) = overlay::first_local(head) {
            let i = choose|i: int|
                0 <= i < head.len() && (#[trigger] head[i]).is_local && head[i].addr == addr;
            assert(players[i] == head[i]);
        }
    }
}

/// Each key speaks for itself: what is reported of one does not depend on the
/// others, and nothing is reported without the focus. The key that shows the menu
/// is reported as long as it is held.
pub proof fn law_keys_are_independent(keys: Keys, down: Down, other: Keys, also: Down)
    ensures
        down.toggle == also.toggle && keys.toggle_down == other.toggle_down ==> keys.pressed(
            true,
            down,
        ).toggle == other.pressed(true, also).toggle,
        down.eject == also.eject && keys.eject_down == other.eject_down ==> keys.pressed(
            true,
            down,
        ).eject == other.pressed(true, also).eject,
        keys.pressed(true, down).peek <==> down.peek,
        !down.toggle ==> !keys.pressed(true, down).toggle,
        !down.eject ==> !keys.pressed(true, down).eject,
        down.toggle && !keys.toggle_down ==> keys.pressed(true, down).toggle,
        down.eject && !keys.eject_down ==> keys.pressed(true, down).eject,
        !keys.pressed(false, down).toggle,
        !keys.pressed(false, down).peek,
        !keys.pressed(false, down).eject,
        keys.polled(true, down).toggle_down == down.toggle,
        keys.polled(true, down).eject_down == down.eject,
        !keys.polled(false, down).toggle_down,
        !keys.polled(false, down).eject_down,
{
}

/// The menu is open in a frame exactly if it is pinned or the key that shows it is
/// held; the pin changes with every press of its key and with nothing else; and a
/// frame begins without touching anything but keys and menu.
pub proof fn law_menu(state: OverlayState, focused: bool, down: Down)
    requires
        !state.disabled,
        !(focused && down.eject && !state.keys.eject_down),
    ensures
        ({
            let next = state.begun(focused, down);
            let pressed = focused && down.toggle && !state.keys.toggle_down;
            &&& state.starts(focused, down) == Start::Run
            &&& next.menu_pinned == (state.menu_pinned != pressed)
            &&& next.menu_open == (next.menu_pinned || (focused && down.peek))
            &&& !next.disabled
            &&& next.objects == state.objects
            &&& next.traps == state.traps
            &&& next.classes == state.classes
            &&& next.settings == state.settings
            &&& next.boom_classes == state.boom_classes
            &&& next.view == state.view
            &&& next.show_esp == state.show_esp
            &&& next.show_trap_esp == state.show_trap_esp
            &&& next.show_trap_menu == state.show_trap_menu
            &&& next.teleport == state.teleport
            &&& next.show_trap_rects == state.show_trap_rects
        }),
{
}

/// The key that unloads the library silences the overlay at once.
pub proof fn law_eject(state: OverlayState, down: Down)
    requires
        !state.disabled,
        down.eject,
        !state.keys.eject_down,
    ensures
        state.starts(true, down) == Start::Eject,
        state.begun(true, down).disabled,
        !state.begun(true, down).menu_open,
        !state.begun(true, down).menu_pinned,
        state.starts(false, down) == Start::Run,
{
}

/// The overlay starts with frames shown and everything else off.
pub proof fn law_start()
    ensures
        ({
            let s = OverlayState::start();
            &&& s.show_esp && s.show_trap_esp
            &&& !s.disabled && !s.menu_pinned && !s.menu_open && !s.show_trap_menu && !s.teleport
                && !s.show_trap_rects
            &&& s.objects.len() == 0 && s.traps.len() == 0 && s.classes.len() == 0
            &&& s.view.follow_camera
            &&& s.view.zoom.bits == 0x3F55_3F7D
            &&& s.view.camera_x.bits == 0 && s.view.camera_y.bits == 0
            &&& !s.keys.toggle_down && !s.keys.eject_down
            &&& forall|id: i32| !#[trigger] s.settings.dom().contains(id)
            &&& forall|class: usize| !#[trigger] s.boom_classes.contains(class)
        }),
{
}

/// A frame takes over the world, and the traps of its screen if anything shows
/// them; without a screen, or if nothing shows them, there are none.
pub proof fn law_frame(state: OverlayState, image: Image, tracker: Tracker)
    ensures
        state.observed(image, tracker) matches Ok((next, world, after)) ==> {
            &&& player::world_of(image, tracker, state.objects) == Ok::<
                (Tracker, player::WorldFacts),
                Need,
            >((next, world))
            &&& world.screen != 0 && (state.show_trap_esp || state.show_trap_menu)
                ==> trap::traps_of(image, world.screen as int) == Ok::<Seq<TrapRef>, Need>(
                after.traps,
            )
            &&& world.screen == 0 || !(state.show_trap_esp || state.show_trap_menu)
                ==> after.traps.len() == 0
            &&& after.objects == state.objects
            &&& after.settings == state.settings
            &&& after.boom_classes == state.boom_classes
            &&& after.menu_open == state.menu_open
            &&& after.menu_pinned == state.menu_pinned
            &&& after.disabled == state.disabled
        },
{
}

/// The settings of a player are those that were kept under its identifier, and
/// blank ones for a player that is new.
pub proof fn law_settings(state: OverlayState, id: i32)
    ensures
        state.settings.dom().contains(id) ==> state.config_of(id) == state.settings[id],
        !state.settings.dom().contains(id) ==> {
            let blank = state.config_of(id);
            &&& !blank.god_mode && !blank.inf_jump && !blank.override_speed && !blank.override_jump
                && !blank.override_gravity && !blank.seeded
            &&& blank.speed.bits == 0 && blank.jump_height.bits == 0 && blank.gravity.bits == 0
        },
{
}

/// The fields of a `BoomTrap` belong to a trap exactly if its class is marked and
/// its first 0xAD bytes can be read.
pub proof fn law_boom_fields(state: OverlayState, image: Image, item: TrapRef)
    ensures
        state.has_boom_fields(image, item) == Ok::<bool, Need>(true)
            <==> state.boom_classes.contains(item.class) && image.access(item.addr as int, 0xAD, false)
            == Ok::<bool, Need>(true),
        !state.boom_classes.contains(item.class) ==> state.has_boom_fields(image, item) == Ok::<
            bool,
            Need,
        >(false),
        state.has_boom_fields(image, item) is Err ==> image.access(item.addr as int, 0xAD, false)
            is Err,
{
}

proof fn lemma_occurrences(traps: Seq<TrapRef>, class: usize)
    ensures
        classes::occurrences(classes::classes_of(traps), class) == traps.filter(
            |t: TrapRef| t.class == class,
        ).len(),
    decreases traps.len(),
{
    reveal(Seq::filter);
    if traps.len() > 0 {
        lemma_occurrences(traps.drop_last(), class);
        assert(classes::classes_of(traps).drop_last() =~= classes::classes_of(traps.drop_last()));
    }
}

/// The ranking of classes has an entry for each class that a trap has, with the
/// number of its traps, and no other entry.
pub proof fn law_ranking_counts_traps(traps: Seq<TrapRef>, entry: Tally)
    requires
        traps.len() <= usize::MAX,
    ensures
        classes::ranked(classes::tallied(classes::classes_of(traps))).contains(entry) <==> {
            &&& entry.1 > 0
            &&& entry.1 == traps.filter(|t: TrapRef| t.class == entry.0).len()
        },
{
    broadcast use vstd::seq_lib::group_to_multiset_ensures;

    let all = classes::classes_of(traps);
    let tally = classes::tallied(all);
    let ranking = classes::ranked(tally);
    classes::law_tally(all);
    classes::law_ranking(tally);
    lemma_occurrences(traps, entry.0);
    assert(ranking.contains(entry) <==> ranking.to_multiset().count(entry) > 0);
    assert(tally.contains(entry) <==> tally.to_multiset().count(entry) > 0);
    if tally.contains(entry) {
        let k = choose|k: int| 0 <= k < tally.len() && tally[k] == entry;
        assert(tally[k].1 == classes::occurrences(all, entry.0));
    }
    if entry.1 > 0 && entry.1 == classes::occurrences(all, entry.0) {
        lemma_occurring(all, entry.0);
        assert(all.contains(entry.0));
        let k = choose|k: int| 0 <= k < tally.len() && (#[trigger] tally[k]).0 == entry.0;
        assert(tally[k] == entry);
        assert(tally.contains(entry));
    }
}

proof fn lemma_occurring(s: Seq<usize>, class: usize)
    ensures
        classes::occurrences(s, class) > 0 ==> s.contains(class),
    decreases s.len(),
{
    if s.len() > 0 {
        let head = s.drop_last();
        lemma_occurring(head, class);
        if s.last() == class {
            assert(s[s.len() - 1] == class);
        } else if head.contains(class) {
            let k = choose|k: int| 0 <= k < head.len() && head[k] == class;
            assert(s[k] == class);
        }
    }
}

proof fn lemma_ranked_in(ranking: Seq<Tally>, entry: Tally, count: usize)
    ensures
        classes::ranked_in(ranking, entry).filter(|e: Tally| e.1 == count) == (if entry.1 == count {
            ranking.filter(|e: Tally| e.1 == count).push(entry)
        } else {
            ranking.filter(|e: Tally| e.1 == count)
        }),
    decreases ranking.len(),
{
    reveal(Seq::filter);
    let keep = |e: Tally| e.1 == count;
    if ranking.len() == 0 {
        assert(seq![entry].drop_last() =~= ranking);
        assert(ranking.filter(keep) =~= seq![]);
        assert(seq![entry].last() == entry);
    } else if ranking.last().1 >= entry.1 {
        assert(ranking.push(entry).drop_last() =~= ranking);
    } else {
        let head = ranking.drop_last();
        lemma_ranked_in(head, entry, count);
        let inner = classes::ranked_in(head, entry);
        assert(inner.push(ranking.last()).drop_last() =~= inner);
    }
}

/// Classes with the same number of traps keep the order in which they were met.
pub proof fn law_ranking_is_stable(tally: Seq<Tally>, count: usize)
    ensures
        classes::ranked(tally).filter(|e: Tally| e.1 == count) == tally.filter(
            |e: Tally| e.1 == count,
        ),
    decreases tally.len(),
{
    reveal(Seq::filter);
    if tally.len() > 0 {
        law_ranking_is_stable(tally.drop_last(), count);
        lemma_ranked_in(classes::ranked(tally.drop_last()), tally.last(), count);
    } else {
        assert(classes::ranked(tally) =~= tally);
    }
}

/// Classes are listed in the order in which they are met: what was met among the
/// first of them stands in front, in the same order.
pub proof fn law_first_met_first(classes: Seq<usize>, n: int)
    requires
        0 <= n <= classes.len(),
    ensures
        ({
            let before = classes::tallied(classes.take(n));
            let all = classes::tallied(classes);
            &&& before.len() <= all.len()
            &&& forall|k: int|
                0 <= k < before.len() ==> (#[trigger] before[k]).0 == all[k].0
        }),
    decreases classes.len(),
{
    if n == classes.len() {
        assert(classes.take(n) =~= classes);
    } else {
        let head = classes.drop_last();
        law_first_met_first(head, n);
        assert(head.take(n) =~= classes.take(n));
        let tally = classes::tallied(head);
        let class = classes.last();
        classes::lemma_bumped(tally, class);
        if exists|k: int| 0 <= k < tally.len() && (#[trigger] tally[k]).0 == class {
            let k = lemma_first_entry(tally, class);
            assert(classes::tallied(classes) == tally.update(
                k,
                (class, (tally[k].1 + 1) as usize),
            ));
        }
    }
}

/// The first entry of a class that has one.
proof fn lemma_first_entry(tally: Seq<Tally>, class: usize) -> (k: int)
    requires
        exists|k: int| 0 <= k < tally.len() && (#[trigger] tally[k]).0 == class,
    ensures
        0 <= k < tally.len(),
        tally[k].0 == class,
        forall|j: int| 0 <= j < k ==> (#[trigger] tally[j]).0 != class,
    decreases tally.len(),
{
    let head = tally.drop_last();
    if exists|k: int| 0 <= k < head.len() && (#[trigger] head[k]).0 == class {
        let k = lemma_first_entry(head, class);
        assert forall|j: int| 0 <= j < k implies (#[trigger] tally[j]).0 != class by {
            assert(head[j] == tally[j]);
        }
        k
    } else {
        assert forall|j: int| 0 <= j < tally.len() - 1 implies (#[trigger] tally[j]).0 != class by {
            assert(head[j] == tally[j]);
        }
        tally.len() - 1
    }
}

/// The classes of a frame are those of its traps: each with the number of its
/// traps, the highest number first.
pub proof fn law_classes_of_a_frame(
    state: OverlayState,
    image: Image,
    tracker: Tracker,
    entry: Tally,
)
    ensures
        state.observed(image, tracker) matches Ok((_, _, after)) ==> {
            &&& after.traps.len() <= usize::MAX ==> (after.classes.contains(entry) <==> entry.1 > 0
                && entry.1 == after.traps.filter(|t: TrapRef| t.class == entry.0).len())
            &&& forall|j: int, k: int|
                0 <= j < k < after.classes.len() ==> (#[trigger] after.classes[j]).1 >= (
                #[trigger] after.classes[k]).1
        },
{
    if let Ok((_, _, after)) = state.observed(image, tracker) {
        if after.traps.len() <= usize::MAX {
            law_ranking_counts_traps(after.traps, entry);
        }
        classes::law_ranking(classes::tallied(classes::classes_of(after.traps)));
    }
}

} // verus!
