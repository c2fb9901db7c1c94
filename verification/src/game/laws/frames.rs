//! What frames of players and traps are made of.
use vstd::prelude::*;

use crate::game::field;
use crate::game::field::Point;
use crate::game::rect;
use crate::game::rect::{Rect, RectF, Scalar};
use crate::game::trap;
use crate::mem;
use crate::mem::Image;
use crate::mem::Need;
use crate::single::Single;

verus! {

/// The frame made of a rectangle has its position, its width and its height, each
/// in the field of the same name.
pub proof fn law_frame_of_a_rectangle(x: i32, y: i32, w: i32, h: i32)
    ensures
        ({
            let frame = <RectF as vstd::std_specs::convert::FromSpec<Rect>>::from_spec(
                Rect { x, y, w, h },
            );
            &&& frame.x == Scalar::Whole(x)
            &&& frame.y == Scalar::Whole(y)
            &&& frame.w == Scalar::Whole(w)
            &&& frame.h == Scalar::Whole(h)
        }),
        <RectF as vstd::std_specs::convert::FromSpec<Rect>>::obeys_from_spec(),
        rect::framed(Rect { x, y, w, h }) == (RectF {
            x: Scalar::Whole(x),
            y: Scalar::Whole(y),
            w: Scalar::Whole(w),
            h: Scalar::Whole(h),
        }),
{
}

/// A rectangle is plausible exactly if neither extent is below 1 or above the
/// limit, wherever it lies. For a player the limit is 2000, for a trap 10000.
pub proof fn law_plausible(x: i32, y: i32, w: i32, h: i32, limit: int)
    ensures
        (Rect { x, y, w, h }).plausible(limit) <==> 1 <= w && w <= limit && 1 <= h && h <= limit,
        rect::MAX_DIMENSION == 2000,
        rect::MAX_TRAP_DIMENSION == 10000,
{
}

/// Four numbers of four bytes make a rectangle: left, top, width and height.
pub proof fn law_rectangle_in_memory(image: Image, addr: int)
    ensures
        match image.read(addr, 16) {
            Err(need) => rect::rect_at(image, addr) == Err::<Option<Rect>, Need>(need),
            Ok(None) => rect::rect_at(image, addr) == Ok::<Option<Rect>, Need>(None),
            Ok(Some(b)) => rect::rect_at(image, addr) matches Ok(Some(r)) && {
                &&& r.x == mem::signed(mem::le_u32(seq![b[0], b[1], b[2], b[3]]))
                &&& r.y == mem::signed(mem::le_u32(seq![b[4], b[5], b[6], b[7]]))
                &&& r.w == mem::signed(mem::le_u32(seq![b[8], b[9], b[10], b[11]]))
                &&& r.h == mem::signed(mem::le_u32(seq![b[12], b[13], b[14], b[15]]))
            },
        },
{
    if let Ok(Some(b)) = image.read(addr, 16) {
        mem::lemma_read_len(image, addr, 16);
        assert(b.subrange(0, 4) =~= seq![b[0], b[1], b[2], b[3]]);
        assert(b.subrange(4, 8) =~= seq![b[4], b[5], b[6], b[7]]);
        assert(b.subrange(8, 12) =~= seq![b[8], b[9], b[10], b[11]]);
        assert(b.subrange(12, 16) =~= seq![b[12], b[13], b[14], b[15]]);
    }
}

/// Two numbers of four bytes make a point; as a vector it counts only if neither
/// is an infinity or a NaN, that is, if the bits without the sign stay below those
/// of infinity.
pub proof fn law_point_in_memory(image: Image, addr: int)
    ensures
        match image.read(addr, 8) {
            Err(need) => {
                &&& field::point_at(image, addr) == Err::<Option<Point>, Need>(need)
                &&& field::vector_at(image, addr) == Err::<Option<Point>, Need>(need)
            },
            Ok(None) => {
                &&& field::point_at(image, addr) == Ok::<Option<Point>, Need>(None)
                &&& field::vector_at(image, addr) == Ok::<Option<Point>, Need>(None)
            },
            Ok(Some(b)) => {
                let x = mem::le_u32(seq![b[0], b[1], b[2], b[3]]);
                let y = mem::le_u32(seq![b[4], b[5], b[6], b[7]]);
                &&& field::point_at(image, addr) == Ok::<Option<Point>, Need>(
                    Some((Single { bits: x }, Single { bits: y })),
                )
                &&& field::vector_at(image, addr) == Ok::<Option<Point>, Need>(
                    if x % 0x8000_0000 < 0x7F80_0000 && y % 0x8000_0000 < 0x7F80_0000 {
                        Some((Single { bits: x }, Single { bits: y }))
                    } else {
                        None
                    },
                )
            },
        },
{
    if let Ok(Some(b)) = image.read(addr, 8) {
        mem::lemma_read_len(image, addr, 8);
        assert(b.subrange(0, 4) =~= seq![b[0], b[1], b[2], b[3]]);
        assert(b.subrange(4, 8) =~= seq![b[4], b[5], b[6], b[7]]);
        law_finite(Single { bits: mem::le_u32(seq![b[0], b[1], b[2], b[3]]) });
        law_finite(Single { bits: mem::le_u32(seq![b[4], b[5], b[6], b[7]]) });
    }
}

/// A number is finite if its bits without the sign stay below those of infinity,
/// and it is zero if there are no bits besides the sign.
pub proof fn law_finite(value: Single)
    ensures
        value.finite() <==> (value.bits < 0x7F80_0000 || 0x8000_0000 <= value.bits < 0xFF80_0000),
        value.zero() <==> value.bits == 0 || value.bits == 0x8000_0000,
{
}

/// A collision rectangle with extents from 1 to 10000 is the frame of a trap,
/// whatever else is known of the trap.
pub proof fn law_collision_rectangle_is_the_frame(
    x: i32,
    y: i32,
    w: i32,
    h: i32,
    source: Option<Rect>,
    position: Option<Point>,
    position_alt: Option<Point>,
)
    requires
        1 <= w <= 10000,
        1 <= h <= 10000,
    ensures
        trap::world_frame(Some(Rect { x, y, w, h }), source, position, position_alt) == Some(
            RectF {
                x: Scalar::Whole(x),
                y: Scalar::Whole(y),
                w: Scalar::Whole(w),
                h: Scalar::Whole(h),
            },
        ),
{
}

/// The collision rectangle is of no use.
pub open spec fn useless(bounding: Option<Rect>) -> bool {
    bounding matches Some(r) ==> r.w < 1 || r.w > 10000 || r.h < 1 || r.h > 10000
}

/// The point is the origin, with either sign of its zeros.
pub open spec fn at_origin(p: Point) -> bool {
    (p.0.bits == 0 || p.0.bits == 0x8000_0000) && (p.1.bits == 0 || p.1.bits == 0x8000_0000)
}

/// Without a usable collision rectangle a trap has the size of its texture frame,
/// if that has extents from 1 to 10000, and stands at its first position, if that
/// is there and not the origin, else at its second.
pub proof fn law_position_and_size_are_the_frame(
    bounding: Option<Rect>,
    size: Rect,
    position: Option<Point>,
    position_alt: Option<Point>,
)
    requires
        useless(bounding),
        1 <= size.w <= 10000,
        1 <= size.h <= 10000,
    ensures
        position matches Some(p) ==> !at_origin(p) ==> trap::world_frame(
            bounding,
            Some(size),
            position,
            position_alt,
        ) == Some(
            RectF {
                x: Scalar::Exact(p.0),
                y: Scalar::Exact(p.1),
                w: Scalar::Whole(size.w),
                h: Scalar::Whole(size.h),
            },
        ),
        (position matches Some(p) ==> at_origin(p)) ==> (position_alt matches Some(q)
            ==> trap::world_frame(bounding, Some(size), position, position_alt) == Some(
            RectF {
                x: Scalar::Exact(q.0),
                y: Scalar::Exact(q.1),
                w: Scalar::Whole(size.w),
                h: Scalar::Whole(size.h),
            },
        )),
        (position matches Some(p) ==> at_origin(p)) && position_alt is None ==> trap::world_frame(
            bounding,
            Some(size),
            position,
            position_alt,
        ) is None,
{
    if let Some(p) = position {
        law_finite(p.0);
        law_finite(p.1);
    }
}

/// Without a usable collision rectangle and without a texture frame whose extents
/// are from 1 to 10000 a trap has no frame.
pub proof fn law_no_size_no_frame(
    bounding: Option<Rect>,
    source: Option<Rect>,
    position: Option<Point>,
    position_alt: Option<Point>,
)
    requires
        useless(bounding),
        useless(source),
    ensures
        trap::world_frame(bounding, source, position, position_alt) is None,
{
}

} // verus!
