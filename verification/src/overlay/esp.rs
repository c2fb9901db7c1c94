//! Frames that are drawn over the game.
use vstd::prelude::*;

use crate::game::player;
use crate::game::player::PlayerFacts;
use crate::game::player::PlayerView;
use crate::game::rect;
use crate::game::rect::RectF;
use crate::game::trap::TrapRef;
use crate::gather;
use crate::overlay::color;

verus! {

/// What a frame is drawn with.
#[derive(Clone, Copy, Debug, PartialEq, Eq, Structural)]
pub enum Tint {
    /// A trap, in the hue that its row in the list has too.
    Hue(u32),
    /// Our own character.
    Own,
    /// Another player.
    Other,
}

/// A frame in world coordinates that is to be drawn.
#[derive(Clone, Copy, Debug, PartialEq, Eq, Structural)]
pub struct EspItem {
    pub frame: RectF,
    pub tint: Tint,
}

/// The frame of a trap, if it has one.
pub open spec fn trap_item(trap: TrapRef) -> Option<EspItem> {
    match trap.rect {
        Some(frame) => Some(EspItem { frame, tint: Tint::Hue(color::hue_of(trap.addr)) }),
        None => None,
    }
}

/// The frame of a player, if it has one.
pub open spec fn player_item(p: PlayerFacts) -> Option<EspItem> {
    match p.rect {
        Some(frame) => Some(
            EspItem {
                frame: rect::framed(frame),
                tint: if p.is_local {
                    Tint::Own
                } else {
                    Tint::Other
                },
            },
        ),
        None => None,
    }
}

/// The frames of traps.
pub open spec fn trap_items(traps: Seq<TrapRef>) -> Seq<EspItem> {
    gather::present(traps.map_values(|t: TrapRef| trap_item(t)))
}

/// The frames of players.
pub open spec fn player_items(players: Seq<PlayerFacts>) -> Seq<EspItem> {
    gather::present(players.map_values(|p: PlayerFacts| player_item(p)))
}

/// Adds the frames of traps.
pub fn add_traps(items: &mut Vec<EspItem>, traps: &Vec<TrapRef>)
    ensures
        final(items)@ == old(items)@ + trap_items(traps@),
{
    let ghost f = |t: TrapRef| trap_item(t);
    let ghost all = traps@.map_values(f);
    assert(all.take(0) =~= seq![]);
    assert(items@ =~= old(items)@ + gather::present(all.take(0)));
    for i in 0..traps.len()
        invariant
            all == traps@.map_values(|t: TrapRef| trap_item(t)),
            items@ == old(items)@ + gather::present(all.take(i as int)),
    {
        assert(all.take(i + 1).drop_last() =~= all.take(i as int));
        let trap = traps[i];
        if let Some(frame) = trap.rect {
            items.push(EspItem { frame, tint: Tint::Hue(color::hue(trap.addr)) });
        }
        assert(items@ =~= old(items)@ + gather::present(all.take(i + 1)));
    }
    assert(all.take(traps@.len() as int) =~= all);
}

/// Adds the frames of players.
pub fn add_players(items: &mut Vec<EspItem>, players: &Vec<PlayerView>)
    ensures
        final(items)@ == old(items)@ + player_items(player::facts(players@)),
{
    let ghost all = player::facts(players@).map_values(|p: PlayerFacts| player_item(p));
    assert(all.take(0) =~= seq![]);
    assert(items@ =~= old(items)@ + gather::present(all.take(0)));
    for i in 0..players.len()
        invariant
            all == player::facts(players@).map_values(|p: PlayerFacts| player_item(p)),
            items@ == old(items)@ + gather::present(all.take(i as int)),
    {
        assert(all.take(i + 1).drop_last() =~= all.take(i as int));
        assert(all[i as int] == player_item(players@[i as int]@));
        let p = &players[i];
        if let Some(frame) = p.rect {
            let tint = if p.is_local {
                Tint::Own
            } else {
                Tint::Other
            };
            items.push(EspItem { frame: RectF::from(frame), tint });
        }
        assert(items@ =~= old(items)@ + gather::present(all.take(i + 1)));
    }
    assert(all.take(players@.len() as int) =~= all);
}

} // verus!
