//! What the settings of a player change in the game.
use vstd::prelude::*;

use crate::game::field;
use crate::game::stats::LiveStats;
use crate::game::trap::TrapRef;
use crate::mem;
use crate::mem::Fetch;
use crate::mem::Memory;
use crate::mem::Need;
use crate::mem::Span;
use crate::overlay::config;
use crate::overlay::config::{Effect, PlayerConfig};
use crate::overlay::OverlayState;
use crate::single::Single;

verus! {

/// The place of an effect in the order in which effects are applied.
pub open spec fn rank(effect: Effect) -> int {
    match effect {
        Effect::GodMode => 0,
        Effect::InfiniteJump => 1,
        Effect::Speed(_) => 2,
        Effect::JumpHeight(_) => 3,
        Effect::Gravity(_) => 4,
    }
}

proof fn lemma_parts(config: PlayerConfig, effect: Effect)
    ensures
        config::effects_of(config).contains(effect) <==> {
            ||| config::wanted(config.god_mode, Effect::GodMode).contains(effect)
            ||| config::wanted(config.inf_jump, Effect::InfiniteJump).contains(effect)
            ||| config::wanted(config.override_speed, Effect::Speed(config.speed)).contains(effect)
            ||| config::wanted(config.override_jump, Effect::JumpHeight(config.jump_height)).contains(
                effect,
            )
            ||| config::wanted(config.override_gravity, Effect::Gravity(config.gravity)).contains(
                effect,
            )
        },
{
    let a = config::wanted(config.god_mode, Effect::GodMode);
    let b = config::wanted(config.inf_jump, Effect::InfiniteJump);
    let c = config::wanted(config.override_speed, Effect::Speed(config.speed));
    let d = config::wanted(config.override_jump, Effect::JumpHeight(config.jump_height));
    let e = config::wanted(config.override_gravity, Effect::Gravity(config.gravity));
    let all = config::effects_of(config);
    assert(all =~= a + b + c + d + e);
    if a.contains(effect) {
        assert(all[0] == effect);
    }
    if b.contains(effect) {
        assert(all[a.len() as int] == effect);
    }
    if c.contains(effect) {
        assert(all[(a.len() + b.len()) as int] == effect);
    }
    if d.contains(effect) {
        assert(all[(a.len() + b.len() + c.len()) as int] == effect);
    }
    if e.contains(effect) {
        assert(all[(a.len() + b.len() + c.len() + d.len()) as int] == effect);
    }
    if all.contains(effect) {
        let i = choose|i: int| 0 <= i < all.len() && all[i] == effect;
        if i < a.len() {
            assert(a[i] == effect);
        } else if i < a.len() + b.len() {
            assert(b[i - a.len()] == effect);
        } else if i < a.len() + b.len() + c.len() {
            assert(c[i - a.len() - b.len()] == effect);
        } else if i < a.len() + b.len() + c.len() + d.len() {
            assert(d[i - a.len() - b.len() - c.len()] == effect);
        } else {
            assert(e[i - a.len() - b.len() - c.len() - d.len()] == effect);
        }
    }
}

proof fn lemma_wanted(is: bool, effect: Effect, x: Effect)
    ensures
        config::wanted(is, effect).contains(x) <==> is && x == effect,
{
    if is {
        assert(config::wanted(is, effect)[0] == effect);
    }
}

/// Each switch asks for its own effect and for nothing else, and an override
/// carries its own value: the speed for the speed, the jump height for the jump
/// height, the gravity for the gravity.
pub proof fn law_effects(config: PlayerConfig, value: Single)
    ensures
        config::effects_of(config).contains(Effect::GodMode) <==> config.god_mode,
        config::effects_of(config).contains(Effect::InfiniteJump) <==> config.inf_jump,
        config::effects_of(config).contains(Effect::Speed(value)) <==> config.override_speed
            && value == config.speed,
        config::effects_of(config).contains(Effect::JumpHeight(value)) <==> config.override_jump
            && value == config.jump_height,
        config::effects_of(config).contains(Effect::Gravity(value)) <==> config.override_gravity
            && value == config.gravity,
{
    lemma_effect(config, Effect::GodMode);
    lemma_effect(config, Effect::InfiniteJump);
    lemma_effect(config, Effect::Speed(value));
    lemma_effect(config, Effect::JumpHeight(value));
    lemma_effect(config, Effect::Gravity(value));
}

proof fn lemma_effect(config: PlayerConfig, x: Effect)
    ensures
        config::effects_of(config).contains(x) <==> {
            ||| config.god_mode && x == Effect::GodMode
            ||| config.inf_jump && x == Effect::InfiniteJump
            ||| config.override_speed && x == Effect::Speed(config.speed)
            ||| config.override_jump && x == Effect::JumpHeight(config.jump_height)
            ||| config.override_gravity && x == Effect::Gravity(config.gravity)
        },
{
    lemma_parts(config, x);
    lemma_wanted(config.god_mode, Effect::GodMode, x);
    lemma_wanted(config.inf_jump, Effect::InfiniteJump, x);
    lemma_wanted(config.override_speed, Effect::Speed(config.speed), x);
    lemma_wanted(config.override_jump, Effect::JumpHeight(config.jump_height), x);
    lemma_wanted(config.override_gravity, Effect::Gravity(config.gravity), x);
}

/// No effect is asked for twice, and they come in a fixed order.
pub proof fn law_order_of_effects(config: PlayerConfig)
    ensures
        forall|i: int, j: int|
            0 <= i < j < config::effects_of(config).len() ==> rank(
                #[trigger] config::effects_of(config)[i],
            ) < rank(#[trigger] config::effects_of(config)[j]),
        config::effects_of(config).len() <= 5,
{
}

/// Changing the speed of settings changes no effect but the speed; and so for the
/// jump height and the gravity.
pub proof fn law_values_are_independent(config: PlayerConfig, value: Single, x: Effect)
    ensures
        !(x is Speed) ==> (config::effects_of(config).contains(x) <==> config::effects_of(
            PlayerConfig { speed: value, ..config },
        ).contains(x)),
        !(x is JumpHeight) ==> (config::effects_of(config).contains(x) <==> config::effects_of(
            PlayerConfig { jump_height: value, ..config },
        ).contains(x)),
        !(x is Gravity) ==> (config::effects_of(config).contains(x) <==> config::effects_of(
            PlayerConfig { gravity: value, ..config },
        ).contains(x)),
{
    lemma_effect(config, x);
    lemma_effect(PlayerConfig { speed: value, ..config }, x);
    lemma_effect(PlayerConfig { jump_height: value, ..config }, x);
    lemma_effect(PlayerConfig { gravity: value, ..config }, x);
}

/// Where the fields of a player can be written, an effect stores exactly this:
/// god mode 0 at 0x150; the infinite jump 1 at 0x144 and at 0x143; the speed at
/// 0xE0; the jump height at 0xEC; the gravity at 0x110 and at 0x10C.
pub proof fn law_effects_in_memory(
    before: Memory,
    after: Memory,
    r: Fetch<bool>,
    addr: int,
    effect: Effect,
)
    requires
        config::applied(before, after, r, addr, effect),
        r == Ok::<bool, Need>(true),
    ensures
        match effect {
            Effect::GodMode => after.pending() == before.pending().push(
                Span { start: addr + 0x150, bytes: seq![0u8] },
            ),
            Effect::InfiniteJump => after.pending() == before.pending().push(
                Span { start: addr + 0x144, bytes: seq![1u8] },
            ).push(Span { start: addr + 0x143, bytes: seq![1u8] }),
            Effect::Speed(value) => after.pending() == before.pending().push(
                Span { start: addr + 0xE0, bytes: mem::le_bytes(value.bits) },
            ),
            Effect::JumpHeight(value) => after.pending() == before.pending().push(
                Span { start: addr + 0xEC, bytes: mem::le_bytes(value.bits) },
            ),
            Effect::Gravity(value) => after.pending() == before.pending().push(
                Span { start: addr + 0x110, bytes: mem::le_bytes(value.bits) },
            ).push(Span { start: addr + 0x10C, bytes: mem::le_bytes(value.bits) }),
        },
{
}

/// An effect is refused exactly where one of its fields cannot be written, and as
/// long as something is missing nothing is stored.
pub proof fn law_effects_need_the_memory(
    before: Memory,
    after: Memory,
    r: Fetch<bool>,
    addr: int,
    effect: Effect,
)
    requires
        config::applied(before, after, r, addr, effect),
    ensures
        r is Err ==> after == before,
        match effect {
            Effect::GodMode => r == before@.access(addr + 0x150, 1, true),
            Effect::Speed(_) => r == before@.access(addr + 0xE0, 4, true),
            Effect::JumpHeight(_) => r == before@.access(addr + 0xEC, 4, true),
            Effect::InfiniteJump => r == Ok::<bool, Need>(true) <==> before@.access(
                addr + 0x144,
                1,
                true,
            ) == Ok::<bool, Need>(true) && before@.access(addr + 0x143, 1, true) == Ok::<
                bool,
                Need,
            >(true),
            Effect::Gravity(_) => r == Ok::<bool, Need>(true) <==> before@.access(
                addr + 0x110,
                4,
                true,
            ) == Ok::<bool, Need>(true) && before@.access(addr + 0x10C, 4, true) == Ok::<
                bool,
                Need,
            >(true),
        },
{
}

/// Settings that are not filled in yet take each value from the parameter of the
/// same name, once all three are known; no switch changes, and settings that are
/// filled in do not change at all.
pub proof fn law_seed(config: PlayerConfig, live: LiveStats)
    ensures
        ({
            let next = config.seeded_with(live);
            let known = live.speed is Some && live.jump_height is Some && live.gravity is Some;
            &&& config.seeded || !known ==> next == config
            &&& !config.seeded && known ==> {
                &&& Some(next.speed) == live.speed
                &&& Some(next.jump_height) == live.jump_height
                &&& Some(next.gravity) == live.gravity
                &&& next.seeded
            }
            &&& next.god_mode == config.god_mode
            &&& next.inf_jump == config.inf_jump
            &&& next.override_speed == config.override_speed
            &&& next.override_jump == config.override_jump
            &&& next.override_gravity == config.override_gravity
        }),
{
}

/// Two fields are written one after the other: where the second cannot be written
/// the first is, and where the first cannot neither is.
pub proof fn law_two_fields(
    before: Memory,
    after: Memory,
    r: Fetch<bool>,
    first: Span,
    second: Span,
)
    requires
        field::put_both(before, after, r, first, second),
        r is Ok,
    ensures
        ({
            let a = before@.access(first.start, first.bytes.len() as int, true) == Ok::<
                bool,
                Need,
            >(true);
            let b = before@.access(second.start, second.bytes.len() as int, true) == Ok::<
                bool,
                Need,
            >(true);
            &&& r == Ok::<bool, Need>(a && b)
            &&& a && b ==> after.pending() == before.pending().push(first).push(second)
            &&& a && !b ==> after.pending() == before.pending().push(first)
            &&& !a ==> after.pending() == before.pending()
        }),
{
}

/// A field of a `BoomTrap` is stored at its place in the trap, and only where the
/// class of the trap is marked; otherwise nothing is stored at all.
pub proof fn law_boom_fields_in_memory(
    state: OverlayState,
    before: Memory,
    after: Memory,
    r: Fetch<bool>,
    item: TrapRef,
    offset: int,
    data: Seq<u8>,
)
    requires
        state.boom_put(before, after, r, item, offset, data),
    ensures
        r == Ok::<bool, Need>(true) ==> {
            &&& state.boom_classes.contains(item.class)
            &&& after.pending() == before.pending().push(
                Span { start: item.addr + offset, bytes: data },
            )
        },
        r != Ok::<bool, Need>(true) ==> after.pending() == before.pending(),
        !state.boom_classes.contains(item.class) ==> r == Ok::<bool, Need>(false),
        before@.access(item.addr as int, 0xAD, false) == Ok::<bool, Need>(true)
            && state.boom_classes.contains(item.class) ==> r == before@.access(
            item.addr + offset,
            data.len() as int,
            true,
        ),
{
}

} // verus!
