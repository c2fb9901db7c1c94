//! Properties of the game objects and of the snapshot of the world.
use vstd::prelude::*;

pub mod frames;
pub mod objects;
pub mod world;

use crate::game::camera;
use crate::game::field;
use crate::game::field::Point;
use crate::game::list;
use crate::game::player;
use crate::game::player::PlayerFacts;
use crate::game::player::Tracker;
use crate::game::rect;
use crate::game::rect::Rect;
use crate::game::stats;
use crate::game::trap;
use crate::gather;
use crate::mem;
use crate::mem::laws;
use crate::mem::Image;
use crate::mem::Memory;
use crate::mem::Need;
use crate::mem::Span;
use crate::offsets;
use crate::offsets::{METHOD_TABLE, MIN_VALID_ADDRESS, PTR_SIZE};
use crate::single::Single;

verus! {

/// No two pictures of one process disagree about a plain field.
pub proof fn law_fields_settled(image: Image, later: Image, addr: int)
    requires
        laws::alike(image, later),
    ensures
        laws::settled(image, field::point_at(image, addr), field::point_at(later, addr)),
        laws::settled(image, field::vector_at(image, addr), field::vector_at(later, addr)),
        laws::settled(image, field::single_at(image, addr), field::single_at(later, addr)),
        laws::settled(image, field::flag_at(image, addr), field::flag_at(later, addr)),
        laws::settled(image, field::text_at(image, addr), field::text_at(later, addr)),
        laws::settled(image, rect::rect_at(image, addr), rect::rect_at(later, addr)),
        laws::settled(image, camera::affine_at(image, addr), camera::affine_at(later, addr)),
{
    laws::law_read_settled(image, later, addr, 8);
    laws::law_read_settled(image, later, addr, 16);
    laws::law_read_settled(image, later, addr, 64);
    if let Ok(Some(at)) = image.ptr(addr) {
        laws::law_string_settled(image, later, at as int);
    }
}

proof fn lemma_player_at_settled(image: Image, later: Image, class: usize, addr: int)
    requires
        laws::alike(image, later),
    ensures
        laws::settled(
            image,
            player::player_at(image, class, addr),
            player::player_at(later, class, addr),
        ),
        laws::settled(image, player::local_flags(image, addr), player::local_flags(later, addr)),
        laws::settled(
            image,
            player::own_player(image, class, addr),
            player::own_player(later, class, addr),
        ),
{
    laws::law_access_settled(image, later, addr, offsets::player::PROBE_SIZE as int, false);
    laws::law_read_settled(image, later, addr + METHOD_TABLE, 4);
    laws::law_read_settled(image, later, addr + offsets::player::IS_LOCAL, 1);
    laws::law_read_settled(image, later, addr + offsets::player::REMOTE_PLAYER, 1);
}

proof fn lemma_shape_settled(image: Image, later: Image, addr: int)
    requires
        laws::alike(image, later),
    ensures
        laws::settled(image, player::player_shape(image, addr), player::player_shape(later, addr)),
{
    laws::law_access_settled(image, later, addr, offsets::player::PROBE_SIZE as int, false);
    laws::law_read_settled(image, later, addr + offsets::player::IS_LOCAL, 1);
    laws::law_read_settled(image, later, addr + offsets::player::GAMEPLAY_SCREEN, 4);
    law_fields_settled(image, later, addr + offsets::player::BOUNDING_RECT);
    if let Ok(Some(at)) = image.ptr(addr + offsets::player::GAMEPLAY_SCREEN) {
        laws::law_access_settled(image, later, at as int, PTR_SIZE as int, false);
    }
}

proof fn lemma_listed_settled(image: Image, later: Image, addr: int)
    requires
        laws::alike(image, later),
    ensures
        laws::settled(image, player::listed(image, addr), player::listed(later, addr)),
{
    laws::law_read_settled(image, later, addr, 4);
    if let Ok(Some(at)) = image.ptr(addr) {
        list::law_list_settled(image, later, at as int, player::MAX_PLAYERS as nat);
    }
}

proof fn lemma_lists_settled(image: Image, later: Image, at: int)
    requires
        laws::alike(image, later),
    ensures
        laws::settled(image, player::lists_of(image, at), player::lists_of(later, at)),
{
    lemma_listed_settled(image, later, at + offsets::screen::PLAYER_LIST);
    lemma_listed_settled(image, later, at + offsets::screen::REMOTE_PLAYER_LIST);
    lemma_listed_settled(image, later, at + offsets::screen::MERGED_PLAYER_LIST);
}

proof fn lemma_proof_settled(image: Image, later: Image, addr: usize)
    requires
        laws::alike(image, later),
    ensures
        laws::settled(image, player::proven_class(image, addr), player::proven_class(later, addr)),
{
    lemma_shape_settled(image, later, addr as int);
    laws::law_read_settled(image, later, addr + offsets::player::GAMEPLAY_SCREEN, 4);
    laws::law_read_settled(image, later, addr + METHOD_TABLE, 4);
    if let Ok(Some(at)) = image.ptr(addr + offsets::player::GAMEPLAY_SCREEN) {
        lemma_lists_settled(image, later, at as int);
    }
}

proof fn lemma_class_settled(image: Image, later: Image, tracker: Tracker, objects: Seq<usize>)
    requires
        laws::alike(image, later),
    ensures
        laws::settled(
            image,
            player::class_of(image, tracker, objects),
            player::class_of(later, tracker, objects),
        ),
{
    let before = player::proofs(image, objects);
    let after = player::proofs(later, objects);
    assert forall|i: int| 0 <= i < before.len() implies laws::settled(
        image,
        #[trigger] before[i],
        after[i],
    ) by {
        lemma_proof_settled(image, later, objects[i]);
    }
    gather::lemma_found_settled(image, before, after);
}

proof fn lemma_local_settled(image: Image, later: Image, tracker: Tracker, objects: Seq<usize>)
    requires
        laws::alike(image, later),
    ensures
        laws::settled(
            image,
            player::local_of(image, tracker, objects),
            player::local_of(later, tracker, objects),
        ),
{
    let class = tracker.player_class;
    let before = objects.map_values(|addr: usize| player::own_address(image, class, addr));
    let after = objects.map_values(|addr: usize| player::own_address(later, class, addr));
    assert forall|i: int| 0 <= i < before.len() implies laws::settled(
        image,
        #[trigger] before[i],
        after[i],
    ) by {
        lemma_player_at_settled(image, later, class, objects[i] as int);
    }
    gather::lemma_found_settled(image, before, after);
    lemma_player_at_settled(image, later, class, tracker.last_local as int);
}

proof fn lemma_facts_settled(image: Image, later: Image, addr: usize)
    requires
        laws::alike(image, later),
    ensures
        laws::settled(image, player::facts_at(image, addr), player::facts_at(later, addr)),
{
    reveal(player::facts_at);
    law_fields_settled(image, later, addr + offsets::player::POSITION);
    law_fields_settled(image, later, addr + offsets::player::NAME);
    law_fields_settled(image, later, addr + offsets::player::BOUNDING_RECT);
    laws::law_read_settled(image, later, addr + offsets::player::UNIQUE_ID, 4);
    laws::law_read_settled(image, later, addr + offsets::player::COLOR, 4);
    lemma_player_at_settled(image, later, 0, addr as int);
}

proof fn lemma_collected_settled(image: Image, later: Image, class: usize, addresses: Seq<usize>)
    requires
        laws::alike(image, later),
    ensures
        laws::settled(
            image,
            player::collected(image, class, addresses),
            player::collected(later, class, addresses),
        ),
{
    let before = player::checks(image, class, addresses);
    let after = player::checks(later, class, addresses);
    assert forall|i: int| 0 <= i < before.len() implies laws::settled(
        image,
        #[trigger] before[i],
        after[i],
    ) by {
        lemma_player_at_settled(image, later, class, addresses[i] as int);
    }
    gather::lemma_gathered_settled(image, before, after);
    if let Ok(unique) = player::players_among(image, class, addresses) {
        let read = player::readings(image, unique);
        let again = player::readings(later, unique);
        assert forall|i: int| 0 <= i < read.len() implies laws::settled(
            image,
            #[trigger] read[i],
            again[i],
        ) by {
            lemma_facts_settled(image, later, unique[i]);
        }
        gather::lemma_gathered_settled(image, read, again);
    }
}

proof fn lemma_frame_players_settled(
    image: Image,
    later: Image,
    class: usize,
    at: usize,
    objects: Seq<usize>,
)
    requires
        laws::alike(image, later),
    ensures
        laws::settled(
            image,
            player::frame_players(image, class, at, objects),
            player::frame_players(later, class, at, objects),
        ),
{
    lemma_lists_settled(image, later, at as int);
    if let Ok(names) = player::lists_of(image, at as int) {
        lemma_collected_settled(image, later, class, names);
    }
    lemma_collected_settled(image, later, class, objects);
}

proof fn lemma_screen_settled(image: Image, later: Image, addr: int)
    requires
        laws::alike(image, later),
    ensures
        laws::settled(image, player::screen_of(image, addr), player::screen_of(later, addr)),
{
    laws::law_read_settled(image, later, addr + offsets::player::GAMEPLAY_SCREEN, 4);
    if let Ok(Some(at)) = image.ptr(addr + offsets::player::GAMEPLAY_SCREEN) {
        laws::law_access_settled(image, later, at as int, PTR_SIZE as int, false);
    }
}

/// No two pictures of one process disagree about the world, and what is missing is
/// never something that was supplied in the call already.
pub proof fn law_world_settled(image: Image, later: Image, tracker: Tracker, objects: Seq<usize>)
    requires
        laws::alike(image, later),
    ensures
        laws::settled(
            image,
            player::world_of(image, tracker, objects),
            player::world_of(later, tracker, objects),
        ),
{
    lemma_class_settled(image, later, tracker, objects);
    if let Ok(class) = player::class_of(image, tracker, objects) {
        let known = Tracker { player_class: class, ..tracker };
        lemma_local_settled(image, later, known, objects);
        if let Ok(Some(local)) = player::local_of(image, known, objects) {
            lemma_screen_settled(image, later, local as int);
            if let Ok(at) = player::screen_of(image, local as int) {
                lemma_frame_players_settled(image, later, class, at, objects);
            }
        }
    }
}

/// No two pictures of one process disagree about the traps.
pub proof fn law_traps_settled(image: Image, later: Image, screen_addr: int)
    requires
        laws::alike(image, later),
    ensures
        laws::settled(
            image,
            trap::traps_of(image, screen_addr),
            trap::traps_of(later, screen_addr),
        ),
{
    laws::law_read_settled(image, later, screen_addr + offsets::screen::TRAP_LIST, 4);
    if let Ok(Some(at)) = image.ptr(screen_addr + offsets::screen::TRAP_LIST) {
        list::law_list_settled(image, later, at as int, trap::MAX_TRAPS as nat);
        if let Ok(addresses) = list::list_at(image, at as int, trap::MAX_TRAPS as nat) {
            let before = trap::trap_readings(image, addresses);
            let after = trap::trap_readings(later, addresses);
            assert forall|i: int| 0 <= i < before.len() implies laws::settled(
                image,
                #[trigger] before[i],
                after[i],
            ) by {
                lemma_trap_settled(image, later, addresses[i]);
            }
            gather::lemma_gathered_settled(image, before, after);
        }
    }
}

proof fn lemma_trap_settled(image: Image, later: Image, addr: usize)
    requires
        laws::alike(image, later),
    ensures
        laws::settled(image, trap::trap_at(image, addr), trap::trap_at(later, addr)),
{
    laws::law_access_settled(image, later, addr as int, offsets::trap::PROBE_SIZE as int, false);
    laws::law_read_settled(image, later, addr + METHOD_TABLE, 4);
    law_fields_settled(image, later, addr + offsets::trap::BOUNDING);
    law_fields_settled(image, later, addr + offsets::trap::SOURCE_RECT);
    law_fields_settled(image, later, addr + offsets::trap::POSITION_X);
    law_fields_settled(image, later, addr + offsets::trap::POSITION);
}

/// No two pictures of one process disagree about the camera or the parameters of a
/// player.
pub proof fn law_camera_and_stats_settled(image: Image, later: Image, addr: usize)
    requires
        laws::alike(image, later),
    ensures
        laws::settled(image, camera::camera_of(image, addr), camera::camera_of(later, addr)),
        laws::settled(image, camera::camera_at(image, addr), camera::camera_at(later, addr)),
        laws::settled(
            image,
            stats::stats_at(image, addr as int),
            stats::stats_at(later, addr as int),
        ),
{
    laws::law_read_settled(image, later, addr + offsets::screen::CAMERA, 4);
    laws::law_access_settled(image, later, addr as int, offsets::camera::PROBE_SIZE as int, false);
    law_fields_settled(image, later, addr + offsets::camera::ZOOM);
    law_fields_settled(image, later, addr + offsets::camera::CAMERA_POSITION);
    laws::law_read_settled(image, later, addr + offsets::camera::VIEWPORT_WIDTH, 4);
    laws::law_read_settled(image, later, addr + offsets::camera::VIEWPORT_HEIGHT, 4);
    law_fields_settled(image, later, addr + offsets::camera::TRANSFORM);
    law_fields_settled(image, later, addr + offsets::player::DELTA_SPEED);
    law_fields_settled(image, later, addr + offsets::player::INITIAL_JUMP_HEIGHT);
    law_fields_settled(image, later, addr + offsets::player::GRAVITY);
}

/// What every list of players that is handed out keeps: only objects of the
/// class, none of them twice, local players before all others.
pub open spec fn orderly(image: Image, class: usize, players: Seq<PlayerFacts>) -> bool {
    &&& forall|i: int|
        0 <= i < players.len() ==> player::player_at(
            image,
            class,
            (#[trigger] players[i]).addr as int,
        ) == Ok::<bool, Need>(true)
    &&& forall|i: int, j: int|
        0 <= i < j < players.len() ==> (#[trigger] players[i]).addr != (#[trigger] players[j]).addr
    &&& forall|i: int, j: int|
        0 <= i < j < players.len() && (#[trigger] players[j]).is_local ==> (
        #[trigger] players[i]).is_local
}

/// Every value that is present stands at a place of its own.
pub(crate) proof fn lemma_present_places<T>(values: Seq<Option<T>>) -> (places: Seq<int>)
    ensures
        places.len() == gather::present(values).len(),
        forall|i: int|
            0 <= i < places.len() ==> {
                &&& 0 <= #[trigger] places[i] < values.len()
                &&& values[places[i]] == Some(gather::present(values)[i])
            },
        forall|i: int, j: int| 0 <= i < j < places.len() ==> places[i] < places[j],
    decreases values.len(),
{
    if values.len() == 0 {
        seq![]
    } else {
        let head = lemma_present_places(values.drop_last());
        match values.last() {
            Some(_) => {
                let places = head.push(values.len() - 1);
                assert forall|i: int| 0 <= i < places.len() implies {
                    &&& 0 <= #[trigger] places[i] < values.len()
                    &&& values[places[i]] == Some(gather::present(values)[i])
                } by {
                    if i < head.len() {
                        assert(places[i] == head[i]);
                    }
                }
                places
            },
            None => {
                assert forall|i: int| 0 <= i < head.len() implies {
                    &&& 0 <= #[trigger] head[i] < values.len()
                    &&& values[head[i]] == Some(gather::present(values)[i])
                } by {
                    assert(values.drop_last()[head[i]] == values[head[i]]);
                }
                head
            },
        }
    }
}

/// The places that the elements of a filtered sequence have in the sequence.
pub(crate) proof fn lemma_filter_places<T>(s: Seq<T>, keep: spec_fn(T) -> bool) -> (places: Seq<int>)
    ensures
        places.len() == s.filter(keep).len(),
        forall|i: int|
            0 <= i < places.len() ==> {
                &&& 0 <= #[trigger] places[i] < s.len()
                &&& s[places[i]] == s.filter(keep)[i]
                &&& keep(s.filter(keep)[i])
            },
        forall|i: int, j: int| 0 <= i < j < places.len() ==> places[i] < places[j],
    decreases s.len(),
{
    reveal(Seq::filter);
    if s.len() == 0 {
        seq![]
    } else {
        let head = lemma_filter_places(s.drop_last(), keep);
        let kept = s.drop_last().filter(keep);
        if keep(s.last()) {
            let places = head.push(s.len() - 1);
            assert(s.filter(keep) =~= kept.push(s.last()));
            assert forall|i: int| 0 <= i < places.len() implies {
                &&& 0 <= #[trigger] places[i] < s.len()
                &&& s[places[i]] == s.filter(keep)[i]
                &&& keep(s.filter(keep)[i])
            } by {
                if i < head.len() {
                    assert(places[i] == head[i]);
                    assert(kept[i] == s.filter(keep)[i]);
                }
            }
            places
        } else {
            assert forall|i: int| 0 <= i < head.len() implies {
                &&& 0 <= #[trigger] head[i] < s.len()
                &&& s[head[i]] == s.filter(keep)[i]
                &&& keep(s.filter(keep)[i])
            } by {
                assert(s.drop_last()[head[i]] == s[head[i]]);
            }
            head
        }
    }
}

/// A player that was read stands where it was looked for.
proof fn lemma_facts_address(image: Image, addr: usize)
    ensures
        player::facts_at(image, addr) matches Ok(Some(p)) ==> p.addr == addr,
{
    reveal(player::facts_at);
}

/// Whatever addresses it starts from, the collection of players is orderly and
/// takes in only what the addresses name.
pub proof fn law_collected_is_orderly(image: Image, class: usize, addresses: Seq<usize>)
    ensures
        player::collected(image, class, addresses) matches Ok(players) ==> {
            &&& orderly(image, class, players)
            &&& forall|i: int|
                0 <= i < players.len() ==> addresses.contains((#[trigger] players[i]).addr)
        },
{
    if let Ok(players) = player::collected(image, class, addresses) {
        let checked = gather::gathered(player::checks(image, class, addresses))->Ok_0;
        let unique = player::players_among(image, class, addresses)->Ok_0;
        let found = gather::gathered(player::readings(image, unique))->Ok_0;
        let read = gather::present(found);
        gather::lemma_gathered_values(player::checks(image, class, addresses));
        gather::lemma_gathered_values(player::readings(image, unique));
        gather::lemma_present(checked);
        list::law_ascending(gather::present(checked));
        let from = lemma_present_places(found);
        assert forall|k: int| 0 <= k < read.len() implies (#[trigger] read[k]).addr
            == unique[from[k]] && 0 <= from[k] < unique.len() by {
            assert(player::readings(image, unique)[from[k]] == player::facts_at(
                image,
                unique[from[k]],
            ));
            lemma_facts_address(image, unique[from[k]]);
        }
        assert forall|k: int| 0 <= k < unique.len() implies player::player_at(
            image,
            class,
            (#[trigger] unique[k]) as int,
        ) == Ok::<bool, Need>(true) && addresses.contains(unique[k]) by {
            assert(unique.contains(unique[k]));
            assert(gather::present(checked).contains(unique[k]));
            assert(checked.contains(Some(unique[k])));
            let m = choose|m: int| 0 <= m < checked.len() && checked[m] == Some(unique[k]);
            assert(player::checks(image, class, addresses)[m] == player::player_address(
                image,
                class,
                addresses[m],
            ));
            assert(addresses[m] == unique[k]);
        }
        let near = |p: PlayerFacts| p.is_local;
        let far = |p: PlayerFacts| !p.is_local;
        let a = lemma_filter_places(read, near);
        let b = lemma_filter_places(read, far);
        let at = a + b;
        assert(players == read.filter(near) + read.filter(far));
        assert forall|i: int| 0 <= i < players.len() implies #[trigger] players[i] == read[at[i]]
            && 0 <= at[i] < read.len() && (i < a.len() <==> players[i].is_local) by {
            if i < a.len() {
                assert(at[i] == a[i]);
                assert(near(read.filter(near)[i]));
            } else {
                let k = i - a.len();
                assert(at[i] == b[k]);
                assert(far(read.filter(far)[k]));
            }
        }
        assert forall|i: int, j: int| 0 <= i < j < players.len() implies (
        #[trigger] players[i]).addr != (#[trigger] players[j]).addr by {
            assert(at[i] != at[j]);
            let x = if at[i] < at[j] {
                at[i]
            } else {
                at[j]
            };
            let y = if at[i] < at[j] {
                at[j]
            } else {
                at[i]
            };
            assert(from[x] < from[y]);
            assert(read[x].addr < read[y].addr);
        }
    }
}

/// A frame hands out an orderly list of players, keeps a class that is known,
/// and remembers only a character that passed every check in this very frame.
/// Without such a character the world is empty.
pub proof fn law_world_is_orderly(image: Image, tracker: Tracker, objects: Seq<usize>)
    ensures
        player::world_of(image, tracker, objects) matches Ok((next, world)) ==> {
            &&& orderly(image, next.player_class, world.players)
            &&& tracker.player_class != 0 ==> next.player_class == tracker.player_class
            &&& next.last_local != 0 ==> player::own_player(
                image,
                next.player_class,
                next.last_local as int,
            ) == Ok::<bool, Need>(true)
            &&& next.last_local == 0 ==> world.screen == 0 && world.players.len() == 0
        },
{
    if let Ok((next, world)) = player::world_of(image, tracker, objects) {
        let class = next.player_class;
        let known = Tracker { player_class: class, ..tracker };
        law_collected_is_orderly(image, class, objects);
        if world.screen != 0 {
            law_collected_is_orderly(
                image,
                class,
                player::lists_of(image, world.screen as int)->Ok_0,
            );
        }
        law_local_is_checked(image, known, objects);
    }
}

/// Our character has passed every check in this frame, wherever its address came
/// from: a hint of an earlier frame is never believed. And it never stands at
/// address 0.
pub proof fn law_local_is_checked(image: Image, tracker: Tracker, objects: Seq<usize>)
    ensures
        player::local_of(image, tracker, objects) matches Ok(Some(addr)) ==> {
            &&& player::own_player(image, tracker.player_class, addr as int) == Ok::<bool, Need>(
                true,
            )
            &&& addr != 0
            &&& addr == tracker.last_local || objects.contains(addr)
        },
{
    let class = tracker.player_class;
    let fetches = objects.map_values(|addr: usize| player::own_address(image, class, addr));
    gather::lemma_found_value(fetches);
    if let Ok(Some(addr)) = gather::first_found(fetches) {
        let i = choose|i: int|
            {
                &&& 0 <= i < fetches.len()
                &&& #[trigger] fetches[i] == Ok::<Option<usize>, Need>(Some(addr))
                &&& forall|j: int|
                    0 <= j < i ==> #[trigger] fetches[j] == Ok::<Option<usize>, Need>(None)
            };
        assert(fetches[i] == player::own_address(image, class, objects[i]));
        assert(objects[i] == addr);
    }
}

/// A class is only learnt from an object of the frame that has the fields of a
/// player and is named in the player lists of its own screen.
pub proof fn law_class_is_proven(image: Image, tracker: Tracker, objects: Seq<usize>)
    requires
        tracker.player_class == 0,
    ensures
        player::class_of(image, tracker, objects) matches Ok(class) ==> class != 0 ==> exists|
            addr: usize,
            at: usize,
        |
            {
                &&& objects.contains(addr)
                &&& player::player_shape(image, addr as int) == Ok::<bool, Need>(true)
                &&& image.ptr(addr + offsets::player::GAMEPLAY_SCREEN) == Ok::<
                    Option<usize>,
                    Need,
                >(Some(at))
                &&& (#[trigger] player::lists_of(image, at as int) matches Ok(names)
                    && names.contains(addr))
                &&& (#[trigger] image.ptr(addr + METHOD_TABLE)) == Ok::<Option<usize>, Need>(
                    Some(class),
                )
                &&& class >= MIN_VALID_ADDRESS
            },
{
    let fetches = player::proofs(image, objects);
    gather::lemma_found_value(fetches);
    if let Ok(Some(class)) = gather::first_found(fetches) {
        let i = choose|i: int|
            {
                &&& 0 <= i < fetches.len()
                &&& #[trigger] fetches[i] == Ok::<Option<usize>, Need>(Some(class))
                &&& forall|j: int|
                    0 <= j < i ==> #[trigger] fetches[j] == Ok::<Option<usize>, Need>(None)
            };
        let addr = objects[i];
        assert(fetches[i] == player::proven_class(image, addr));
        assert(objects.contains(addr));
        let at = image.ptr(addr + offsets::player::GAMEPLAY_SCREEN)->Ok_0->Some_0;
        assert(player::lists_of(image, at as int)->Ok_0.contains(addr));
        assert(image.ptr(addr + METHOD_TABLE) == Ok::<Option<usize>, Need>(Some(class)));
    }
}

/// As long as the class is not known, nothing counts as a player.
pub proof fn law_unknown_class_has_no_players(image: Image, addresses: Seq<usize>)
    ensures
        player::collected(image, 0, addresses) matches Ok(players) && players.len() == 0,
{
    let fetches = player::checks(image, 0, addresses);
    lemma_all_absent(fetches);
    let checked = gather::gathered(fetches)->Ok_0;
    assert(gather::present(checked) =~= seq![]);
    let unique = player::players_among(image, 0, addresses)->Ok_0;
    assert(unique =~= seq![]);
    assert(player::readings(image, unique) =~= seq![]);
    reveal(Seq::filter);
    let near = |p: PlayerFacts| p.is_local;
    let far = |p: PlayerFacts| !p.is_local;
    let none: Seq<PlayerFacts> = seq![];
    assert(none.filter(near) =~= none);
    assert(none.filter(far) =~= none);
    assert(gather::present(seq![]) =~= none);
}

proof fn lemma_all_absent<T>(fetches: Seq<mem::Fetch<Option<T>>>)
    requires
        forall|i: int|
            0 <= i < fetches.len() ==> #[trigger] fetches[i] == Ok::<Option<T>, Need>(None),
    ensures
        gather::gathered(fetches) matches Ok(values) && gather::present(values).len() == 0,
    decreases fetches.len(),
{
    if fetches.len() > 0 {
        let head = fetches.drop_last();
        assert forall|i: int| 0 <= i < head.len() implies #[trigger] head[i] == Ok::<
            Option<T>,
            Need,
        >(None) by {
            assert(head[i] == fetches[i]);
        }
        lemma_all_absent(head);
        let values = gather::gathered(head)->Ok_0;
        assert(values.push(None).drop_last() =~= values);
        assert(fetches[fetches.len() - 1] == Ok::<Option<T>, Need>(None));
    }
}

/// A level never hands out more traps than the bound, and each of them comes out
/// of its list.
pub proof fn law_traps_are_bounded(image: Image, screen_addr: int)
    ensures
        trap::traps_of(image, screen_addr) matches Ok(traps) ==> {
            &&& traps.len() <= trap::MAX_TRAPS
            &&& forall|i: int|
                0 <= i < traps.len() ==> (#[trigger] traps[i]).addr >= MIN_VALID_ADDRESS
                    && traps[i].rect == trap::world_frame(
                    traps[i].bounding_raw,
                    traps[i].source_raw,
                    traps[i].position,
                    traps[i].position_alt,
                )
        },
{
    if let Ok(traps) = trap::traps_of(image, screen_addr) {
        if let Ok(Some(at)) = image.ptr(screen_addr + offsets::screen::TRAP_LIST) {
            let addresses = list::list_at(image, at as int, trap::MAX_TRAPS as nat)->Ok_0;
            list::law_list_is_bounded(image, at as int, trap::MAX_TRAPS as nat);
            let fetches = trap::trap_readings(image, addresses);
            gather::lemma_gathered_values(fetches);
            let found = gather::gathered(fetches)->Ok_0;
            gather::lemma_present(found);
            let from = lemma_present_places(found);
            assert forall|i: int| 0 <= i < traps.len() implies (#[trigger] traps[i]).addr
                >= MIN_VALID_ADDRESS && traps[i].rect == trap::world_frame(
                traps[i].bounding_raw,
                traps[i].source_raw,
                traps[i].position,
                traps[i].position_alt,
            ) by {
                assert(fetches[from[i]] == trap::trap_at(image, addresses[from[i]]));
            }
        }
    }
}

/// The place of the texture frame in its atlas never shows up in the world.
pub proof fn law_atlas_place_is_ignored(
    bounding: Option<Rect>,
    source: Rect,
    position: Option<Point>,
    position_alt: Option<Point>,
    x: i32,
    y: i32,
)
    ensures
        trap::world_frame(bounding, Some(source), position, position_alt) == trap::world_frame(
            bounding,
            Some(Rect { x, y, ..source }),
            position,
            position_alt,
        ),
{
}

/// A number that has been written is read back as long as the change is pending,
/// whatever came in meanwhile.
pub proof fn law_single_round_trip(
    before: Memory,
    after: Memory,
    later: Memory,
    addr: int,
    value: Single,
)
    requires
        mem::put(before, after, Ok(true), addr, mem::le_bytes(value.bits)),
        later.pending() == after.pending(),
        later.wf(),
    ensures
        field::single_at(later@, addr) matches Ok(Some(v)) ==> v == value,
        later@.access(addr, 4, true) == Ok::<bool, Need>(true) ==> (field::single_at(
            later@,
            addr,
        ) matches Ok(r) ==> r == Some(value)),
{
    laws::law_word_round_trip(value.bits);
    laws::law_read_after_write(before, after, later, addr, mem::le_bytes(value.bits));
}

/// A flag that has been written is read back as long as the change is pending,
/// whatever came in meanwhile.
pub proof fn law_flag_round_trip(
    before: Memory,
    after: Memory,
    later: Memory,
    addr: int,
    value: bool,
)
    requires
        mem::put(before, after, Ok(true), addr, seq![trap::flag_byte(value)]),
        later.pending() == after.pending(),
        later.wf(),
    ensures
        field::flag_at(later@, addr) matches Ok(Some(v)) ==> v == value,
        later@.access(addr, 1, true) == Ok::<bool, Need>(true) ==> (field::flag_at(
            later@,
            addr,
        ) matches Ok(r) ==> r == Some(value)),
{
    laws::law_read_after_write(before, after, later, addr, seq![trap::flag_byte(value)]);
}

/// A position that has been written is read back as long as the change is
/// pending, whatever came in meanwhile.
pub proof fn law_point_round_trip(
    before: Memory,
    after: Memory,
    later: Memory,
    addr: int,
    p: Point,
)
    requires
        mem::put(
            before,
            after,
            Ok(true),
            addr,
            mem::le_bytes(p.0.bits) + mem::le_bytes(p.1.bits),
        ),
        later.pending() == after.pending(),
        later.wf(),
    ensures
        field::point_at(later@, addr) matches Ok(Some(q)) ==> q == p,
        later@.access(addr, 8, true) == Ok::<bool, Need>(true) ==> (field::point_at(
            later@,
            addr,
        ) matches Ok(r) ==> r == Some(p)),
{
    let x = mem::le_bytes(p.0.bits);
    let y = mem::le_bytes(p.1.bits);
    laws::law_word_round_trip(p.0.bits);
    laws::law_word_round_trip(p.1.bits);
    laws::law_read_after_write(before, after, later, addr, x + y);
    assert((x + y).subrange(0, 4) =~= x);
    assert((x + y).subrange(4, 8) =~= y);
}

/// Setting one parameter of a player leaves the others as they are, in whatever
/// bytes show them.
pub proof fn law_stats_are_independent(
    span: Span,
    stores: Seq<Span>,
    addr: int,
    value: Single,
    field: int,
)
    requires
        field == offsets::player::DELTA_SPEED || field == offsets::player::INITIAL_JUMP_HEIGHT
            || field == offsets::player::GRAVITY,
        span.covers(addr + field, 4),
    ensures
        ({
            let data = mem::le_bytes(value.bits);
            let speed = Span { start: addr + offsets::player::DELTA_SPEED, bytes: data };
            let jump = Span { start: addr + offsets::player::INITIAL_JUMP_HEIGHT, bytes: data };
            let gravity = Span { start: addr + offsets::player::GRAVITY, bytes: data };
            let default = Span { start: addr + offsets::player::GRAVITY_DEFAULT, bytes: data };
            let before = mem::laid(span, stores).slice(addr + field, 4);
            &&& field != offsets::player::DELTA_SPEED ==> mem::laid(
                span,
                stores.push(speed),
            ).slice(addr + field, 4) == before
            &&& field != offsets::player::INITIAL_JUMP_HEIGHT ==> mem::laid(
                span,
                stores.push(jump),
            ).slice(addr + field, 4) == before
            &&& field != offsets::player::GRAVITY ==> mem::laid(
                span,
                stores.push(gravity).push(default),
            ).slice(addr + field, 4) == before
        }),
{
    let data = mem::le_bytes(value.bits);
    let at = addr + field;
    let speed = Span { start: addr + offsets::player::DELTA_SPEED, bytes: data };
    let jump = Span { start: addr + offsets::player::INITIAL_JUMP_HEIGHT, bytes: data };
    let gravity = Span { start: addr + offsets::player::GRAVITY, bytes: data };
    let default = Span { start: addr + offsets::player::GRAVITY_DEFAULT, bytes: data };
    if field != offsets::player::DELTA_SPEED {
        laws::law_write_leaves_the_rest(span, stores, speed, at, 4);
    }
    if field != offsets::player::INITIAL_JUMP_HEIGHT {
        laws::law_write_leaves_the_rest(span, stores, jump, at, 4);
    }
    if field != offsets::player::GRAVITY {
        laws::law_write_leaves_the_rest(span, stores, gravity, at, 4);
        laws::law_write_leaves_the_rest(span, stores.push(gravity), default, at, 4);
    }
}

/// Two fields that have been written are both read back as long as the changes
/// are pending, whatever came in meanwhile; and the picture stays in order.
pub proof fn law_both_round_trip(
    before: Memory,
    after: Memory,
    later: Memory,
    first: Span,
    second: Span,
)
    requires
        before.wf(),
        field::put_both(before, after, Ok(true), first, second),
        first.start + first.bytes.len() <= second.start || second.start + second.bytes.len()
            <= first.start,
        later.pending() == after.pending(),
        later.wf(),
    ensures
        after.wf(),
        later@.read(first.start, first.bytes.len() as int) matches Ok(Some(b)) ==> b == first.bytes,
        later@.read(second.start, second.bytes.len() as int) matches Ok(Some(b)) ==> b
            == second.bytes,
{
    let n = later.pending().len() as int;
    laws::law_pending_store_is_read(later, n - 1);
    laws::law_pending_store_is_read(later, n - 2);
}

/// Both gravities that have been set are read back as long as the changes are
/// pending.
pub proof fn law_gravity_round_trip(
    before: Memory,
    after: Memory,
    later: Memory,
    addr: int,
    value: Single,
)
    requires
        before.wf(),
        field::put_both(
            before,
            after,
            Ok(true),
            Span { start: addr + offsets::player::GRAVITY, bytes: mem::le_bytes(value.bits) },
            Span {
                start: addr + offsets::player::GRAVITY_DEFAULT,
                bytes: mem::le_bytes(value.bits),
            },
        ),
        later.pending() == after.pending(),
        later.wf(),
    ensures
        field::single_at(later@, addr + offsets::player::GRAVITY) matches Ok(Some(v)) ==> v
            == value,
        field::single_at(later@, addr + offsets::player::GRAVITY_DEFAULT) matches Ok(Some(v))
            ==> v == value,
{
    let bytes = mem::le_bytes(value.bits);
    laws::law_word_round_trip(value.bits);
    law_both_round_trip(
        before,
        after,
        later,
        Span { start: addr + offsets::player::GRAVITY, bytes },
        Span { start: addr + offsets::player::GRAVITY_DEFAULT, bytes },
    );
}

/// The character that a search found is found again without any object, on the
/// same memory, by the hint that the search leaves; and where a search found
/// none, one without a hint and without objects finds none.
pub proof fn law_hint_finds_again(image: Image, tracker: Tracker, objects: Seq<usize>)
    ensures
        player::local_of(image, tracker, objects) matches Ok(Some(addr)) ==> player::local_of(
            image,
            Tracker { last_local: addr, ..tracker },
            seq![],
        ) == Ok::<Option<usize>, Need>(Some(addr)),
        player::local_of(image, tracker, objects) == Ok::<Option<usize>, Need>(None)
            ==> player::local_of(image, Tracker { last_local: 0, ..tracker }, seq![]) == Ok::<
            Option<usize>,
            Need,
        >(None),
{
    law_local_is_checked(image, tracker, objects);
    let class = tracker.player_class;
    let none: Seq<usize> = seq![];
    assert(none.map_values(|addr: usize| player::own_address(image, class, addr)) =~= seq![]);
}

} // verus!
