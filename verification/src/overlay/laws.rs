//! Properties of the user interface.
use vstd::prelude::*;

pub mod effects;
pub mod frames;
pub mod texts;

use crate::game::laws as game_laws;
use crate::game::player;
use crate::game::player::PlayerFacts;
use crate::game::player::Tracker;
use crate::game::trap::TrapRef;
use crate::mem::laws;
use crate::mem::Fetch;
use crate::mem::Image;
use crate::mem::Memory;
use crate::mem::Need;
use crate::offsets;
use crate::overlay;
use crate::overlay::lines;
use crate::overlay::keys::Down;
use crate::overlay::{OverlayState, Start};

verus! {

/// A disabled overlay stays disabled and does nothing, whatever keys are pressed.
pub proof fn law_disabled_for_good(state: OverlayState, focused: bool, down: Down)
    requires
        state.disabled,
    ensures
        state.starts(focused, down) == Start::Silent,
        state.begun(focused, down) == state,
{
}

/// The library is unloaded at most once: the overlay is silent afterwards.
pub proof fn law_ejected_once(
    state: OverlayState,
    focused: bool,
    down: Down,
    again: bool,
    later: Down,
)
    requires
        state.starts(focused, down) == Start::Eject,
    ensures
        state.begun(focused, down).disabled,
        !state.begun(focused, down).menu_open,
        state.begun(focused, down).starts(again, later) == Start::Silent,
{
}

/// A pinned menu is open, and pressing the key twice leaves it as it was.
pub proof fn law_pin_toggles(state: OverlayState, down: Down, up: Down)
    requires
        !state.disabled,
        !state.keys.toggle_down,
        down.toggle,
        !down.eject,
        !up.toggle,
        !up.eject,
    ensures
        ({
            let once = state.begun(true, down);
            let twice = once.begun(true, up).begun(true, down);
            &&& once.menu_pinned == !state.menu_pinned
            &&& once.menu_pinned ==> once.menu_open
            &&& twice.menu_pinned == state.menu_pinned
        }),
{
}

/// Without the focus the menu opens only if it is pinned, and it is neither
/// pinned nor released.
pub proof fn law_keys_need_the_focus(state: OverlayState, down: Down)
    requires
        !state.disabled,
    ensures
        state.begun(false, down).menu_pinned == state.menu_pinned,
        state.begun(false, down).menu_open == state.menu_pinned,
        state.starts(false, down) == Start::Run,
{
}

/// No two pictures of one process disagree about a frame.
pub proof fn law_frame_settled(image: Image, later: Image, state: OverlayState, tracker: Tracker)
    requires
        laws::alike(image, later),
    ensures
        laws::settled(image, state.observed(image, tracker), state.observed(later, tracker)),
{
    game_laws::law_world_settled(image, later, tracker, state.objects);
    if let Ok((_, world)) = player::world_of(image, tracker, state.objects) {
        game_laws::law_traps_settled(image, later, world.screen as int);
    }
}

/// No two pictures of one process disagree about the title of a trap.
pub proof fn law_title_settled(image: Image, later: Image, addr: int, index: nat)
    requires
        laws::alike(image, later),
    ensures
        laws::settled(
            image,
            lines::title_of(image, addr, index),
            lines::title_of(later, addr, index),
        ),
{
    game_laws::law_fields_settled(image, later, addr + offsets::trap::NAME);
}

/// The fields of a `BoomTrap` are only ever written for a trap whose class the
/// user has marked and whose memory is there.
pub proof fn law_boom_fields_need_a_mark(
    state: OverlayState,
    before: Memory,
    after: Memory,
    r: Fetch<bool>,
    item: TrapRef,
    offset: int,
    data: Seq<u8>,
)
    requires
        state.boom_put(before, after, r, item, offset, data),
        after.pending() != before.pending(),
    ensures
        state.boom_classes.contains(item.class),
        before@.access(item.addr as int, offsets::trap::BOOM_PROBE_SIZE as int, false) == Ok::<
            bool,
            Need,
        >(true),
        r == Ok::<bool, Need>(true),
{
}

/// The player that a click moves is one of the players and is a local one, and
/// where there is a local player, one is moved.
pub proof fn law_own_player_is_moved(players: Seq<PlayerFacts>)
    ensures
        overlay::first_local(players) matches Some(addr) ==> exists|i: int|
            0 <= i < players.len() && (#[trigger] players[i]).is_local && players[i].addr == addr,
        overlay::first_local(players) is None ==> forall|i: int|
            0 <= i < players.len() ==> !(#[trigger] players[i]).is_local,
    decreases players.len(),
{
    if players.len() > 0 {
        let head = players.drop_last();
        law_own_player_is_moved(head);
        match overlay::first_local(head) {
            Some(addr) => {
                let i = choose|i: int|
                    0 <= i < head.len() && (#[trigger] head[i]).is_local && head[i].addr == addr;
                assert(players[i].is_local && players[i].addr == addr);
            },
            None => {
                assert forall|i: int| 0 <= i < head.len() implies !(#[trigger] players[i]).is_local
                    by {
                    assert(head[i] == players[i]);
                }
                if players.last().is_local {
                    assert(players[players.len() - 1].is_local);
                }
            },
        }
    }
}

} // verus!
