//! Parameters of a player: reading them, and writing them.
use vstd::prelude::*;

use crate::game::field;
use crate::mem;
use crate::mem::Fetch;
use crate::mem::Image;
use crate::mem::Memory;
use crate::mem::Span;
use crate::offsets::player;
use crate::single::Single;

verus! {

/// The parameters as they lie in memory now.
#[derive(Clone, Copy, Debug, PartialEq, Eq, Structural)]
pub struct LiveStats {
    pub speed: Option<Single>,
    pub jump_height: Option<Single>,
    pub gravity: Option<Single>,
}

impl Default for LiveStats {
    /// No parameter is known.
    fn default() -> (stats: LiveStats)
        ensures
            stats == (LiveStats { speed: None, jump_height: None, gravity: None }),
    {
        LiveStats { speed: None, jump_height: None, gravity: None }
    }
}

/// The parameters of the player at `addr`.
pub open spec fn stats_at(image: Image, addr: int) -> Fetch<LiveStats> {
    match field::single_at(image, addr + player::DELTA_SPEED) {
        Err(need) => Err(need),
        Ok(speed) => match field::single_at(image, addr + player::INITIAL_JUMP_HEIGHT) {
            Err(need) => Err(need),
            Ok(jump_height) => match field::single_at(image, addr + player::GRAVITY) {
                Err(need) => Err(need),
                Ok(gravity) => Ok(LiveStats { speed, jump_height, gravity }),
            },
        },
    }
}

/// Reads the parameters of a player.
pub fn read_live_stats(mem: &mut Memory, addr: usize) -> (r: Fetch<LiveStats>)
    ensures
        r == stats_at(old(mem)@, addr as int),
        mem::ended(*old(mem), *final(mem), r),
{
    let r = peek_stats(mem, addr);
    mem.end(&r);
    r
}

fn peek_stats(mem: &Memory, addr: usize) -> (r: Fetch<LiveStats>)
    ensures
        r == stats_at(mem@, addr as int),
{
    let speed = match field::read_single(mem, addr, player::DELTA_SPEED) {
        Err(need) => return Err(need),
        Ok(speed) => speed,
    };
    let jump_height = match field::read_single(mem, addr, player::INITIAL_JUMP_HEIGHT) {
        Err(need) => return Err(need),
        Ok(jump_height) => jump_height,
    };
    match field::read_single(mem, addr, player::GRAVITY) {
        Err(need) => Err(need),
        Ok(gravity) => Ok(LiveStats { speed, jump_height, gravity }),
    }
}

/// Moves a character to a point of the world.
pub fn set_position(mem: &mut Memory, addr: usize, x: Single, y: Single) -> (r: Fetch<bool>)
    ensures
        mem::put(
            *old(mem),
            *final(mem),
            r,
            addr + player::POSITION,
            mem::le_bytes(x.bits) + mem::le_bytes(y.bits),
        ),
        mem::put(
            *old(mem),
            *final(mem),
            r,
            addr + 0x0C,
            mem::le_bytes(x.bits) + mem::le_bytes(y.bits),
        ),
{
    let mut data = field::bytes_of(x.bits);
    let mut rest = field::bytes_of(y.bits);
    data.append(&mut rest);
    field::write_field(mem, addr, player::POSITION, data)
}

/// Clears `canDie`.
pub fn set_god_mode(mem: &mut Memory, addr: usize) -> (r: Fetch<bool>)
    ensures
        mem::put(*old(mem), *final(mem), r, addr + player::CAN_DIE, seq![0u8]),
        mem::put(*old(mem), *final(mem), r, addr + 0x150, seq![0u8]),
{
    let data: Vec<u8> = vec![0];
    assert(data@ =~= seq![0u8]);
    field::write_field(mem, addr, player::CAN_DIE, data)
}

/// Sets `CanJump` and `JumpBeenReleased`.
pub fn set_infinite_jump(mem: &mut Memory, addr: usize) -> (r: Fetch<bool>)
    ensures
        field::put_both(
            *old(mem),
            *final(mem),
            r,
            Span { start: addr + player::CAN_JUMP, bytes: seq![1u8] },
            Span { start: addr + player::JUMP_BEEN_RELEASED, bytes: seq![1u8] },
        ),
        field::put_both(
            *old(mem),
            *final(mem),
            r,
            Span { start: addr + 0x144, bytes: seq![1u8] },
            Span { start: addr + 0x143, bytes: seq![1u8] },
        ),
{
    let first: Vec<u8> = vec![1];
    let second: Vec<u8> = vec![1];
    assert(first@ =~= seq![1u8]);
    assert(second@ =~= seq![1u8]);
    field::write_fields(mem, addr, player::CAN_JUMP, first, player::JUMP_BEEN_RELEASED, second)
}

/// Clears `Alive`: the game notices and spawns the player anew.
pub fn respawn(mem: &mut Memory, addr: usize) -> (r: Fetch<bool>)
    ensures
        mem::put(*old(mem), *final(mem), r, addr + player::ALIVE, seq![0u8]),
        mem::put(*old(mem), *final(mem), r, addr + 0x142, seq![0u8]),
{
    let data: Vec<u8> = vec![0];
    assert(data@ =~= seq![0u8]);
    field::write_field(mem, addr, player::ALIVE, data)
}

/// Sets the speed of a player.
pub fn set_speed(mem: &mut Memory, addr: usize, value: Single) -> (r: Fetch<bool>)
    ensures
        mem::put(
            *old(mem),
            *final(mem),
            r,
            addr + player::DELTA_SPEED,
            mem::le_bytes(value.bits),
        ),
        mem::put(*old(mem), *final(mem), r, addr + 0xE0, mem::le_bytes(value.bits)),
{
    field::write_field(mem, addr, player::DELTA_SPEED, field::bytes_of(value.bits))
}

/// Sets the height of a jump.
pub fn set_jump_height(mem: &mut Memory, addr: usize, value: Single) -> (r: Fetch<bool>)
    ensures
        mem::put(
            *old(mem),
            *final(mem),
            r,
            addr + player::INITIAL_JUMP_HEIGHT,
            mem::le_bytes(value.bits),
        ),
        mem::put(*old(mem), *final(mem), r, addr + 0xEC, mem::le_bytes(value.bits)),
{
    field::write_field(mem, addr, player::INITIAL_JUMP_HEIGHT, field::bytes_of(value.bits))
}

/// Sets the gravity, the current value and the default: with the first alone the
/// game would go back to its own at the next respawn.
pub fn set_gravity(mem: &mut Memory, addr: usize, value: Single) -> (r: Fetch<bool>)
    ensures
        field::put_both(
            *old(mem),
            *final(mem),
            r,
            Span { start: addr + player::GRAVITY, bytes: mem::le_bytes(value.bits) },
            Span { start: addr + player::GRAVITY_DEFAULT, bytes: mem::le_bytes(value.bits) },
        ),
        field::put_both(
            *old(mem),
            *final(mem),
            r,
            Span { start: addr + 0x110, bytes: mem::le_bytes(value.bits) },
            Span { start: addr + 0x10C, bytes: mem::le_bytes(value.bits) },
        ),
{
    field::write_fields(
        mem,
        addr,
        player::GRAVITY,
        field::bytes_of(value.bits),
        player::GRAVITY_DEFAULT,
        field::bytes_of(value.bits),
    )
}

} // verus!
