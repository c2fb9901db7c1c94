//! Traps of a level.
use vstd::prelude::*;

use crate::game::field;
use crate::game::field::Point;
use crate::game::list;
use crate::game::rect;
use crate::game::rect::MAX_TRAP_DIMENSION;
use crate::game::rect::{Rect, RectF, Scalar};
use crate::gather;
use crate::mem;
use crate::mem::Fetch;
use crate::mem::Image;
use crate::mem::Memory;
use crate::offsets::screen;
use crate::offsets::trap;
use crate::offsets::METHOD_TABLE;
use crate::single::Single;

verus! {

/// No level has more traps than this.
pub const MAX_TRAPS: usize = 1024;

/// A trap without its name: names are expensive to read, and only those of the
/// rows that are shown are needed.
#[derive(Clone, Copy, Debug, PartialEq, Eq)]
pub struct TrapRef {
    pub addr: usize,
    /// Method table, which identifies the class of the trap.
    pub class: usize,
    /// Frame in world coordinates, see [`world_rect`].
    pub rect: Option<RectF>,
    /// `m_Bounding` as it is.
    pub bounding_raw: Option<Rect>,
    /// `m_Rectangle` as it is: a frame of the texture atlas and no place in the
    /// world.
    pub source_raw: Option<Rect>,
    /// `PositionX` and `PositionY`.
    pub position: Option<Point>,
    /// `Position`, a second position.
    pub position_alt: Option<Point>,
}

/// The rectangle, if it can be the extent of a trap.
pub open spec fn sized(r: Option<Rect>) -> Option<Rect> {
    match r {
        Some(rect) => if rect.plausible(MAX_TRAP_DIMENSION as int) {
            Some(rect)
        } else {
            None
        },
        None => None,
    }
}

/// The corner of an object: the first position, unless it is missing or the
/// origin; then the second.
pub open spec fn corner(position: Option<Point>, position_alt: Option<Point>) -> Option<Point> {
    match position {
        Some(p) => if p.0.zero() && p.1.zero() {
            position_alt
        } else {
            Some(p)
        },
        None => position_alt,
    }
}

/// The frame of an object in the world.
///
/// The collision rectangle is the most exact source, but some objects leave it
/// empty. The game fills the position of every object, and the size of its
/// texture frame is its size in the world. The place of the texture frame says
/// nothing about the world and is never used.
pub open spec fn world_frame(
    bounding: Option<Rect>,
    source: Option<Rect>,
    position: Option<Point>,
    position_alt: Option<Point>,
) -> Option<RectF> {
    match sized(bounding) {
        Some(rect) => Some(rect::framed(rect)),
        None => match (sized(source), corner(position, position_alt)) {
            (Some(size), Some(p)) => Some(
                RectF {
                    x: Scalar::Exact(p.0),
                    y: Scalar::Exact(p.1),
                    w: Scalar::Whole(size.w),
                    h: Scalar::Whole(size.h),
                },
            ),
            _ => None,
        },
    }
}

/// Picks the frame of an object in the world.
pub fn world_rect(
    bounding: Option<Rect>,
    source: Option<Rect>,
    position: Option<Point>,
    position_alt: Option<Point>,
) -> (r: Option<RectF>)
    ensures
        r == world_frame(bounding, source, position, position_alt),
{
    if let Some(rect) = bounding {
        if rect.is_plausible_within(MAX_TRAP_DIMENSION) {
            return Some(RectF::from(rect));
        }
    }
    let size = match source {
        Some(size) => size,
        None => return None,
    };
    if !size.is_plausible_within(MAX_TRAP_DIMENSION) {
        return None;
    }
    let first = match position {
        Some(p) => if p.0.is_zero() && p.1.is_zero() {
            None
        } else {
            Some(p)
        },
        None => None,
    };
    let chosen = match first {
        Some(p) => Some(p),
        None => position_alt,
    };
    match chosen {
        Some(p) => Some(
            RectF {
                x: Scalar::Exact(p.0),
                y: Scalar::Exact(p.1),
                w: Scalar::Whole(size.w),
                h: Scalar::Whole(size.h),
            },
        ),
        None => None,
    }
}

/// The trap at `addr`. The shared fields and the method table have to be
/// readable.
pub open spec fn trap_at(image: Image, addr: usize) -> Fetch<Option<TrapRef>> {
    match image.access(addr as int, trap::PROBE_SIZE as int, false) {
        Err(need) => Err(need),
        Ok(false) => Ok(None),
        Ok(true) => match image.ptr(addr + METHOD_TABLE) {
            Err(need) => Err(need),
            Ok(None) => Ok(None),
            Ok(Some(class)) => match rect::rect_at(image, addr + trap::BOUNDING) {
                Err(need) => Err(need),
                Ok(bounding_raw) => match rect::rect_at(image, addr + trap::SOURCE_RECT) {
                    Err(need) => Err(need),
                    Ok(source_raw) => match field::vector_at(image, addr + trap::POSITION_X) {
                        Err(need) => Err(need),
                        Ok(position) => match field::vector_at(image, addr + trap::POSITION) {
                            Err(need) => Err(need),
                            Ok(position_alt) => Ok(
                                Some(
                                    TrapRef {
                                        addr,
                                        class,
                                        rect: world_frame(
                                            bounding_raw,
                                            source_raw,
                                            position,
                                            position_alt,
                                        ),
                                        bounding_raw,
                                        source_raw,
                                        position,
                                        position_alt,
                                    },
                                ),
                            ),
                        },
                    },
                },
            },
        },
    }
}

fn read_trap(mem: &Memory, addr: usize) -> (r: Fetch<Option<TrapRef>>)
    ensures
        r == trap_at(mem@, addr),
{
    match mem::check(mem, addr, trap::PROBE_SIZE, false) {
        Err(need) => return Err(need),
        Ok(false) => return Ok(None),
        Ok(true) => {},
    }
    let class: usize = match mem::read_link(mem, addr, METHOD_TABLE) {
        Err(need) => return Err(need),
        Ok(None) => return Ok(None),
        Ok(Some(class)) => class,
    };
    let bounding_raw = match Rect::read(mem, addr, trap::BOUNDING) {
        Err(need) => return Err(need),
        Ok(bounding_raw) => bounding_raw,
    };
    let source_raw = match Rect::read(mem, addr, trap::SOURCE_RECT) {
        Err(need) => return Err(need),
        Ok(source_raw) => source_raw,
    };
    let position = match field::read_vector2(mem, addr, trap::POSITION_X) {
        Err(need) => return Err(need),
        Ok(position) => position,
    };
    let position_alt = match field::read_vector2(mem, addr, trap::POSITION) {
        Err(need) => return Err(need),
        Ok(position_alt) => position_alt,
    };
    Ok(
        Some(
            TrapRef {
                addr,
                class,
                rect: world_rect(bounding_raw, source_raw, position, position_alt),
                bounding_raw,
                source_raw,
                position,
                position_alt,
            },
        ),
    )
}

/// What is read of each element of a trap list.
pub open spec fn trap_readings(image: Image, addresses: Seq<usize>) -> Seq<
    Fetch<Option<TrapRef>>,
> {
    addresses.map_values(|addr: usize| trap_at(image, addr))
}

/// The traps that a screen lists, in the order of its list.
pub open spec fn traps_of(image: Image, screen_addr: int) -> Fetch<Seq<TrapRef>> {
    match image.ptr(screen_addr + screen::TRAP_LIST) {
        Err(need) => Err(need),
        Ok(None) => Ok(seq![]),
        Ok(Some(at)) => match list::list_at(image, at as int, MAX_TRAPS as nat) {
            Err(need) => Err(need),
            Ok(addresses) => match gather::gathered(trap_readings(image, addresses)) {
                Err(need) => Err(need),
                Ok(found) => Ok(gather::present(found)),
            },
        },
    }
}

/// Collects the traps of a level. As long as something is missing, `out` keeps
/// what it held.
pub fn collect_traps(mem: &mut Memory, screen_addr: usize, out: &mut Vec<TrapRef>) -> (r: Fetch<()>)
    ensures
        match traps_of(old(mem)@, screen_addr as int) {
            Err(need) => r == Err::<(), mem::Need>(need) && *final(out) == *old(out),
            Ok(traps) => r is Ok && final(out)@ == traps,
        },
        mem::ended(*old(mem), *final(mem), r),
{
    let r = peek_traps(mem, screen_addr, out);
    mem.end(&r);
    r
}

/// Collects the traps of a level as a part of a call.
pub(crate) fn peek_traps(mem: &Memory, screen_addr: usize, out: &mut Vec<TrapRef>) -> (r: Fetch<()>)
    ensures
        match traps_of(mem@, screen_addr as int) {
            Err(need) => r == Err::<(), mem::Need>(need) && *final(out) == *old(out),
            Ok(traps) => r is Ok && final(out)@ == traps,
        },
{
    let list_addr: usize = match mem::read_link(mem, screen_addr, screen::TRAP_LIST) {
        Err(need) => return Err(need),
        Ok(None) => {
            out.clear();
            return Ok(());
        },
        Ok(Some(list_addr)) => list_addr,
    };
    let addresses = match list::read_list(mem, list_addr, MAX_TRAPS) {
        Err(need) => return Err(need),
        Ok(addresses) => addresses,
    };
    let ghost fetches = trap_readings(mem@, addresses@);
    let ghost mut found: Seq<Option<TrapRef>> = seq![];
    let mut traps: Vec<TrapRef> = Vec::new();
    assert(fetches.take(0) =~= seq![]);
    for i in 0..addresses.len()
        invariant
            *out == *old(out),
            fetches == trap_readings(mem@, addresses@),
            gather::gathered(fetches.take(i as int)) == Ok::<Seq<Option<TrapRef>>, mem::Need>(
                found,
            ),
            traps@ == gather::present(found),
            traps_of(mem@, screen_addr as int) == (match gather::gathered(fetches) {
                Err(need) => Err(need),
                Ok(all) => Ok(gather::present(all)),
            }),
    {
        proof {
            gather::lemma_gathered_step(fetches, i as int);
        }
        match read_trap(mem, addresses[i]) {
            Err(need) => {
                proof {
                    gather::lemma_gathered_stops(fetches, i + 1);
                }
                return Err(need);
            },
            Ok(item) => {
                proof {
                    assert(found.push(item).drop_last() =~= found);
                    found = found.push(item);
                }
                if let Some(trap) = item {
                    traps.push(trap);
                }
            },
        }
    }
    assert(fetches.take(addresses@.len() as int) =~= fetches);
    *out = traps;
    Ok(())
}

/// Reads the name of a trap.
pub fn trap_name(mem: &mut Memory, addr: usize) -> (r: Fetch<Option<String>>)
    ensures
        mem::text_view(r) == field::text_at(old(mem)@, addr + trap::NAME),
        mem::text_view(r) == field::text_at(old(mem)@, addr + 0x20),
        mem::ended(*old(mem), *final(mem), r),
{
    let r = field::read_text(mem, addr, trap::NAME);
    mem.end(&r);
    r
}

/// Reads a flag of a trap.
pub fn trap_flag(mem: &mut Memory, addr: usize, offset: usize) -> (r: Fetch<Option<bool>>)
    ensures
        r == field::flag_at(old(mem)@, addr + offset),
        mem::ended(*old(mem), *final(mem), r),
{
    let r = field::read_flag(mem, addr, offset);
    mem.end(&r);
    r
}

/// The byte that stands for a flag.
pub open spec fn flag_byte(value: bool) -> u8 {
    if value {
        1
    } else {
        0
    }
}

/// Writes a flag of a trap.
pub fn set_trap_flag(mem: &mut Memory, addr: usize, offset: usize, value: bool) -> (r: Fetch<bool>)
    ensures
        mem::put(*old(mem), *final(mem), r, addr + offset, seq![flag_byte(value)]),
        value ==> mem::put(*old(mem), *final(mem), r, addr + offset, seq![1u8]),
        !value ==> mem::put(*old(mem), *final(mem), r, addr + offset, seq![0u8]),
{
    let data: Vec<u8> = vec![
        if value {
            1
        } else {
            0
        },
    ];
    assert(data@ =~= seq![flag_byte(value)]);
    field::write_field(mem, addr, offset, data)
}

/// Whether the object can have the fields of a `BoomTrap`.
///
/// Only the memory is checked. Whether the class is the right one is for the
/// user to say: a plain `Trap` keeps a collision rectangle at the same place.
pub fn supports_boom_fields(mem: &mut Memory, addr: usize) -> (r: Fetch<bool>)
    ensures
        r == old(mem)@.access(addr as int, trap::BOOM_PROBE_SIZE as int, false),
        r == old(mem)@.access(addr as int, 0xAD, false),
        mem::ended(*old(mem), *final(mem), r),
{
    mem::is_readable(mem, addr, trap::BOOM_PROBE_SIZE)
}

/// Reads the speed of a `BoomTrap`.
pub fn trap_speed(mem: &mut Memory, addr: usize) -> (r: Fetch<Option<Single>>)
    ensures
        r == field::single_at(old(mem)@, addr + trap::BOOM_SPEED),
        r == field::single_at(old(mem)@, addr + 0xA4),
        mem::ended(*old(mem), *final(mem), r),
{
    let r = field::read_single(mem, addr, trap::BOOM_SPEED);
    mem.end(&r);
    r
}

/// Sets the speed of a `BoomTrap`.
pub fn set_trap_speed(mem: &mut Memory, addr: usize, value: Single) -> (r: Fetch<bool>)
    ensures
        mem::put(
            *old(mem),
            *final(mem),
            r,
            addr + trap::BOOM_SPEED,
            mem::le_bytes(value.bits),
        ),
        mem::put(*old(mem), *final(mem), r, addr + 0xA4, mem::le_bytes(value.bits)),
{
    field::write_field(mem, addr, trap::BOOM_SPEED, field::bytes_of(value.bits))
}

} // verus!
