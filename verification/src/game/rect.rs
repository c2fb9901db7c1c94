//! Rectangles and colours.
use vstd::prelude::*;

use crate::mem;
use crate::mem::Fetch;
use crate::mem::Image;
use crate::mem::Memory;
use crate::single::Single;

verus! {

/// Largest plausible extent of the frame of a player.
pub const MAX_DIMENSION: i32 = 2000;

/// Largest plausible extent of a trap: elements of a level can be much larger
/// than a character.
pub const MAX_TRAP_DIMENSION: i32 = 10_000;

/// An XNA `Rectangle`: four consecutive `i32`.
#[derive(Clone, Copy, Debug, PartialEq, Eq, Structural)]
pub struct Rect {
    pub x: i32,
    pub y: i32,
    pub w: i32,
    pub h: i32,
}

/// The rectangle that sixteen bytes stand for.
pub open spec fn rect_of(b: Seq<u8>) -> Rect {
    Rect {
        x: mem::signed(mem::le_u32(b.subrange(0, 4))),
        y: mem::signed(mem::le_u32(b.subrange(4, 8))),
        w: mem::signed(mem::le_u32(b.subrange(8, 12))),
        h: mem::signed(mem::le_u32(b.subrange(12, 16))),
    }
}

/// The rectangle at `addr`.
pub open spec fn rect_at(image: Image, addr: int) -> Fetch<Option<Rect>> {
    match image.read(addr, 16) {
        Err(need) => Err(need),
        Ok(None) => Ok(None),
        Ok(Some(b)) => Ok(Some(rect_of(b))),
    }
}

impl Rect {
    /// Both extents are positive and at most `max_dimension`. The position does
    /// not matter: an object may well stand at the origin.
    pub open spec fn plausible(self, max_dimension: int) -> bool {
        0 < self.w <= max_dimension && 0 < self.h <= max_dimension
    }

    /// Reads a rectangle field.
    pub fn read(mem: &Memory, addr: usize, offset: usize) -> (r: Fetch<Option<Rect>>)
        ensures
            r == rect_at(mem@, addr + offset),
    {
        match mem::read_field(mem, addr, offset, 16) {
            Err(need) => Err(need),
            Ok(None) => Ok(None),
            Ok(Some(b)) => {
                proof {
                    mem::lemma_read_len(mem@, addr + offset, 16);
                }
                Ok(
                    Some(
                        Rect {
                            x: mem::to_signed(mem::join(&b, 0)),
                            y: mem::to_signed(mem::join(&b, 4)),
                            w: mem::to_signed(mem::join(&b, 8)),
                            h: mem::to_signed(mem::join(&b, 12)),
                        },
                    ),
                )
            },
        }
    }

    /// Whether this can be the frame of a player.
    pub fn is_plausible(&self) -> (r: bool)
        ensures
            r == self.plausible(MAX_DIMENSION as int),
            r <==> 1 <= self.w <= 2000 && 1 <= self.h <= 2000,
    {
        self.is_plausible_within(MAX_DIMENSION)
    }

    /// The same with a limit of one's own.
    pub fn is_plausible_within(&self, max_dimension: i32) -> (r: bool)
        ensures
            r == self.plausible(max_dimension as int),
    {
        self.w > 0 && self.h > 0 && self.w <= max_dimension && self.h <= max_dimension
    }
}

/// A coordinate or an extent in the world: an integer of the game, or a number
/// that the game keeps in single precision.
#[derive(Clone, Copy, Debug, PartialEq, Eq, Structural)]
pub enum Scalar {
    Whole(i32),
    Exact(Single),
}

/// A frame in world coordinates.
///
/// Moving objects have a position in single precision. Rounding it would make
/// their frames jitter, so it is kept as it is.
#[derive(Clone, Copy, Debug, PartialEq, Eq, Structural)]
pub struct RectF {
    pub x: Scalar,
    pub y: Scalar,
    pub w: Scalar,
    pub h: Scalar,
}

/// The frame with the coordinates of a rectangle.
pub open spec fn framed(rect: Rect) -> RectF {
    RectF {
        x: Scalar::Whole(rect.x),
        y: Scalar::Whole(rect.y),
        w: Scalar::Whole(rect.w),
        h: Scalar::Whole(rect.h),
    }
}

impl vstd::std_specs::convert::FromSpecImpl<Rect> for RectF {
    open spec fn obeys_from_spec() -> bool {
        true
    }

    open spec fn from_spec(rect: Rect) -> RectF {
        framed(rect)
    }
}

impl From<Rect> for RectF {
    fn from(rect: Rect) -> (frame: RectF) {
        RectF {
            x: Scalar::Whole(rect.x),
            y: Scalar::Whole(rect.y),
            w: Scalar::Whole(rect.w),
            h: Scalar::Whole(rect.h),
        }
    }
}

/// Takes a packed XNA colour apart: red, green, blue and alpha, red in the low
/// byte.
pub fn unpack_color(packed: u32) -> (channels: [u8; 4])
    ensures
        channels@ == mem::le_bytes(packed),
        packed == channels[0] + 0x100 * channels[1] + 0x1_0000 * channels[2] + 0x100_0000
            * channels[3],
{
    let channels = mem::split(packed);
    assert(channels@ =~= mem::le_bytes(packed));
    channels
}

} // verus!
