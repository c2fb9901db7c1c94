//! Cheat settings of a player.
use vstd::prelude::*;

use crate::game::field;
use crate::game::stats;
use crate::game::stats::LiveStats;
use crate::mem;
use crate::mem::Fetch;
use crate::mem::Memory;
use crate::mem::Span;
use crate::offsets::player;
use crate::single::Single;

verus! {

/// Cheat settings of one player.
#[derive(Clone, Copy, Debug, PartialEq, Eq, Structural)]
pub struct PlayerConfig {
    pub god_mode: bool,
    pub inf_jump: bool,
    pub override_speed: bool,
    pub speed: Single,
    pub override_jump: bool,
    pub jump_height: Single,
    pub override_gravity: bool,
    pub gravity: Single,
    /// The values were taken from memory, which happens once, when the player is
    /// first met.
    pub seeded: bool,
}

/// Nothing is switched on, and no value is known.
pub open spec fn blank_config() -> PlayerConfig {
    PlayerConfig {
        god_mode: false,
        inf_jump: false,
        override_speed: false,
        speed: Single { bits: 0 },
        override_jump: false,
        jump_height: Single { bits: 0 },
        override_gravity: false,
        gravity: Single { bits: 0 },
        seeded: false,
    }
}

impl PlayerConfig {
    /// Nothing is switched on, and no value is known.
    pub fn new() -> (config: PlayerConfig)
        ensures
            config == blank_config(),
    {
        PlayerConfig {
            god_mode: false,
            inf_jump: false,
            override_speed: false,
            speed: Single { bits: 0 },
            override_jump: false,
            jump_height: Single { bits: 0 },
            override_gravity: false,
            gravity: Single { bits: 0 },
            seeded: false,
        }
    }

    /// The settings after the parameters were looked at. As long as one of them
    /// cannot be read the object is not ready, and nothing is taken over.
    pub open spec fn seeded_with(self, live: LiveStats) -> PlayerConfig {
        match (live.speed, live.jump_height, live.gravity) {
            (Some(speed), Some(jump_height), Some(gravity)) => if self.seeded {
                self
            } else {
                PlayerConfig { speed, jump_height, gravity, seeded: true, ..self }
            },
            _ => self,
        }
    }

    /// Takes the values over from memory, once.
    pub fn seed(&mut self, live: LiveStats)
        ensures
            *final(self) == old(self).seeded_with(live),
    {
        if let (Some(speed), Some(jump_height), Some(gravity)) = (
            live.speed,
            live.jump_height,
            live.gravity,
        ) {
            if !self.seeded {
                self.speed = speed;
                self.jump_height = jump_height;
                self.gravity = gravity;
                self.seeded = true;
            }
        }
    }
}

/// A change that the settings ask for, in every frame.
#[derive(Clone, Copy, Debug, PartialEq, Eq, Structural)]
pub enum Effect {
    GodMode,
    InfiniteJump,
    Speed(Single),
    JumpHeight(Single),
    Gravity(Single),
}

/// A sequence with the effect, if it is wanted.
pub open spec fn wanted(is: bool, effect: Effect) -> Seq<Effect> {
    if is {
        seq![effect]
    } else {
        seq![]
    }
}

/// The effects that settings ask for, in the order in which they are applied.
pub open spec fn effects_of(config: PlayerConfig) -> Seq<Effect> {
    wanted(config.god_mode, Effect::GodMode) + wanted(config.inf_jump, Effect::InfiniteJump)
        + wanted(config.override_speed, Effect::Speed(config.speed)) + wanted(
        config.override_jump,
        Effect::JumpHeight(config.jump_height),
    ) + wanted(config.override_gravity, Effect::Gravity(config.gravity))
}

fn push_wanted(all: &mut Vec<Effect>, is: bool, effect: Effect)
    ensures
        final(all)@ == old(all)@ + wanted(is, effect),
{
    if is {
        all.push(effect);
    }
    assert(all@ =~= old(all)@ + wanted(is, effect));
}

/// The effects that settings ask for.
pub fn effects(config: &PlayerConfig) -> (all: Vec<Effect>)
    ensures
        all@ == effects_of(*config),
{
    let mut all: Vec<Effect> = Vec::new();
    push_wanted(&mut all, config.god_mode, Effect::GodMode);
    push_wanted(&mut all, config.inf_jump, Effect::InfiniteJump);
    push_wanted(&mut all, config.override_speed, Effect::Speed(config.speed));
    push_wanted(&mut all, config.override_jump, Effect::JumpHeight(config.jump_height));
    push_wanted(&mut all, config.override_gravity, Effect::Gravity(config.gravity));
    assert(all@ =~= effects_of(*config));
    all
}

/// What applying an effect to the player at `addr` does.
pub open spec fn applied(
    before: Memory,
    after: Memory,
    r: Fetch<bool>,
    addr: int,
    effect: Effect,
) -> bool {
    match effect {
        Effect::GodMode => mem::put(before, after, r, addr + player::CAN_DIE, seq![0u8]),
        Effect::InfiniteJump => field::put_both(
            before,
            after,
            r,
            Span { start: addr + player::CAN_JUMP, bytes: seq![1u8] },
            Span { start: addr + player::JUMP_BEEN_RELEASED, bytes: seq![1u8] },
        ),
        Effect::Speed(value) => mem::put(
            before,
            after,
            r,
            addr + player::DELTA_SPEED,
            mem::le_bytes(value.bits),
        ),
        Effect::JumpHeight(value) => mem::put(
            before,
            after,
            r,
            addr + player::INITIAL_JUMP_HEIGHT,
            mem::le_bytes(value.bits),
        ),
        Effect::Gravity(value) => field::put_both(
            before,
            after,
            r,
            Span { start: addr + player::GRAVITY, bytes: mem::le_bytes(value.bits) },
            Span { start: addr + player::GRAVITY_DEFAULT, bytes: mem::le_bytes(value.bits) },
        ),
    }
}

/// Applies an effect to the player at `addr`.
pub fn apply(mem: &mut Memory, addr: usize, effect: Effect) -> (r: Fetch<bool>)
    ensures
        applied(*old(mem), *final(mem), r, addr as int, effect),
{
    match effect {
        Effect::GodMode => stats::set_god_mode(mem, addr),
        Effect::InfiniteJump => stats::set_infinite_jump(mem, addr),
        Effect::Speed(value) => stats::set_speed(mem, addr, value),
        Effect::JumpHeight(value) => stats::set_jump_height(mem, addr, value),
        Effect::Gravity(value) => stats::set_gravity(mem, addr, value),
    }
}

/// Once they are filled in, the settings do not follow the memory any more, and
/// they are never filled in with some values missing.
pub proof fn law_seeded_once(config: PlayerConfig, first: LiveStats, second: LiveStats)
    ensures
        config.seeded_with(first).seeded ==> config.seeded_with(first).seeded_with(second)
            == config.seeded_with(first),
        !config.seeded && config.seeded_with(first).seeded ==> first.speed is Some
            && first.jump_height is Some && first.gravity is Some,
{
}

/// Settings that switch nothing on have no effect.
pub proof fn law_blank_config_has_no_effect()
    ensures
        effects_of(blank_config()) == Seq::<Effect>::empty(),
{
    assert(effects_of(blank_config()) =~= seq![]);
}

} // verus!
