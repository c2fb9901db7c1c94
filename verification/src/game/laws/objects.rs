//! Which fields of the game objects are read, and where they stand.
use vstd::prelude::*;

use crate::game::camera;
use crate::game::camera::CameraView;
use crate::game::field;
use crate::game::player;
use crate::game::player::PlayerFacts;
use crate::game::rect;
use crate::game::rect::Rect;
use crate::game::stats;
use crate::game::trap;
use crate::game::trap::TrapRef;
use crate::mem;
use crate::mem::Image;
use crate::mem::Need;
use crate::single::Single;

verus! {

/// A number in single precision has the bits that stand at its address, a flag is
/// set if its byte is not zero, and a text stands where its pointer leads.
pub proof fn law_plain_fields(image: Image, addr: int)
    ensures
        match image.word(addr) {
            Err(need) => field::single_at(image, addr) == Err::<Option<Single>, Need>(need),
            Ok(None) => field::single_at(image, addr) == Ok::<Option<Single>, Need>(None),
            Ok(Some(bits)) => field::single_at(image, addr) matches Ok(Some(v)) && v.bits == bits,
        },
        match image.byte(addr) {
            Err(need) => field::flag_at(image, addr) == Err::<Option<bool>, Need>(need),
            Ok(None) => field::flag_at(image, addr) == Ok::<Option<bool>, Need>(None),
            Ok(Some(v)) => field::flag_at(image, addr) matches Ok(Some(set)) && (set <==> v > 0),
        },
        match image.ptr(addr) {
            Err(need) => field::text_at(image, addr) == Err::<Option<Seq<char>>, Need>(need),
            Ok(None) => field::text_at(image, addr) == Ok::<Option<Seq<char>>, Need>(None),
            Ok(Some(at)) => field::text_at(image, addr) == image.dotnet_string(at as int),
        },
{
}

/// A player of a class stands at an address exactly if the class is known, the
/// first 0x153 bytes can be read, and the first pointer is the class.
pub proof fn law_player_by_its_class(image: Image, class: usize, addr: int)
    ensures
        player::player_at(image, class, addr) == Ok::<bool, Need>(true) <==> class != 0
            && image.access(addr, 0x153, false) == Ok::<bool, Need>(true) && image.ptr(addr) == Ok::<
            Option<usize>,
            Need,
        >(Some(class)),
        player::player_at(image, class, addr) is Err ==> class != 0 && (image.access(
            addr,
            0x153,
            false,
        ) is Err || image.ptr(addr) is Err),
{
}

/// A player is ours if its flag at 0x152 is 1, or if the flag at 0x6D is 0; with
/// neither it is not. A flag that cannot be read speaks for nothing.
pub proof fn law_our_player(image: Image, addr: int)
    ensures
        image.byte(addr + 0x152) == Ok::<Option<u8>, Need>(Some(1)) ==> player::local_flags(
            image,
            addr,
        ) == Ok::<bool, Need>(true),
        image.byte(addr + 0x152) is Ok && image.byte(addr + 0x6D) == Ok::<Option<u8>, Need>(Some(0))
            ==> player::local_flags(image, addr) == Ok::<bool, Need>(true),
        image.byte(addr + 0x152) is Ok && image.byte(addr + 0x152) != Ok::<Option<u8>, Need>(
            Some(1),
        ) && image.byte(addr + 0x6D) is Ok && image.byte(addr + 0x6D) != Ok::<Option<u8>, Need>(
            Some(0),
        ) ==> player::local_flags(image, addr) == Ok::<bool, Need>(false),
        player::local_flags(image, addr) is Err ==> image.byte(addr + 0x152) is Err || image.byte(
            addr + 0x6D,
        ) is Err,
{
}

/// An object has the shape of a player exactly if its first 0x153 bytes can be
/// read, its flag at 0x152 is 0 or 1, the pointer at 0xAC leads to something
/// readable, and the rectangle at 0x3C has extents from 1 to 2000.
pub proof fn law_shape_of_a_player(image: Image, addr: int, at: usize, frame: Rect)
    requires
        image.access(addr, 0x153, false) is Ok,
        image.byte(addr + 0x152) is Ok,
        image.ptr(addr + 0xAC) == Ok::<Option<usize>, Need>(Some(at)),
        image.access(at as int, 4, false) is Ok,
        rect::rect_at(image, addr + 0x3C) == Ok::<Option<Rect>, Need>(Some(frame)),
    ensures
        player::player_shape(image, addr) == Ok::<bool, Need>(
            {
                &&& image.access(addr, 0x153, false) == Ok::<bool, Need>(true)
                &&& (image.byte(addr + 0x152) == Ok::<Option<u8>, Need>(Some(0)) || image.byte(
                    addr + 0x152,
                ) == Ok::<Option<u8>, Need>(Some(1)))
                &&& image.access(at as int, 4, false) == Ok::<bool, Need>(true)
                &&& 1 <= frame.w <= 2000
                &&& 1 <= frame.h <= 2000
            },
        ),
{
}

/// Without a screen or without a frame an object does not have the shape of a
/// player.
pub proof fn law_no_shape(image: Image, addr: int)
    ensures
        player::player_shape(image, addr) == Ok::<bool, Need>(true) ==> {
            &&& image.access(addr, 0x153, false) == Ok::<bool, Need>(true)
            &&& image.ptr(addr + 0xAC) matches Ok(Some(at)) && image.access(at as int, 4, false)
                == Ok::<bool, Need>(true)
            &&& rect::rect_at(image, addr + 0x3C) matches Ok(Some(frame)) && 1 <= frame.w <= 2000
                && 1 <= frame.h <= 2000
            &&& image.byte(addr + 0x152) matches Ok(Some(flag)) && flag <= 1
        },
{
}

/// Every field of a player that was read is the one at its place: the identifier
/// at 0x04, the position at 0x0C, the colour at 0x38, the frame at 0x3C, the name
/// at 0x54.
pub proof fn law_fields_of_a_player(image: Image, addr: usize)
    ensures
        player::facts_at(image, addr) matches Ok(Some(p)) ==> {
            &&& p.addr == addr
            &&& image.int32(addr + 0x04) == Ok::<Option<i32>, Need>(Some(p.unique_id))
            &&& field::point_at(image, addr + 0x0C) == Ok::<Option<field::Point>, Need>(
                Some(p.position),
            )
            &&& image.word(addr + 0x38) matches Ok(Some(packed)) && p.color.len() == 4
                && p.color[0] == packed % 256 && p.color[1] == packed / 256 % 256 && p.color[2]
                == packed / 65536 % 256 && p.color[3] == packed / 16777216
            &&& match field::text_at(image, addr + 0x54) {
                Ok(Some(name)) => p.name == name,
                Ok(None) => p.name.len() == 0,
                Err(_) => false,
            }
            &&& match rect::rect_at(image, addr + 0x3C) {
                Ok(Some(r)) => if 1 <= r.w <= 2000 && 1 <= r.h <= 2000 {
                    p.rect == Some(r)
                } else {
                    p.rect is None
                },
                Ok(None) => p.rect is None,
                Err(_) => false,
            }
            &&& player::local_flags(image, addr as int) == Ok::<bool, Need>(p.is_local)
        },
        player::facts_at(image, addr) == Ok::<Option<PlayerFacts>, Need>(None) ==> field::point_at(
            image,
            addr + 0x0C,
        ) == Ok::<Option<field::Point>, Need>(None) || image.int32(addr + 0x04) == Ok::<
            Option<i32>,
            Need,
        >(None) || image.word(addr + 0x38) == Ok::<Option<u32>, Need>(None),
{
    reveal(player::facts_at);
}

/// The screen of a player is what the pointer at 0xAC leads to, if that can be
/// read, and 0 otherwise.
pub proof fn law_screen_of_a_player(image: Image, addr: int)
    ensures
        player::screen_of(image, addr) matches Ok(at) ==> match image.ptr(addr + 0xAC) {
            Ok(Some(screen)) => {
                &&& image.access(screen as int, 4, false) == Ok::<bool, Need>(true) ==> at == screen
                &&& image.access(screen as int, 4, false) == Ok::<bool, Need>(false) ==> at == 0
                &&& image.access(screen as int, 4, false) is Ok
            },
            Ok(None) => at == 0,
            Err(_) => false,
        },
        player::screen_of(image, addr) is Err ==> image.ptr(addr + 0xAC) is Err || (image.ptr(
            addr + 0xAC,
        ) matches Ok(Some(screen)) && image.access(screen as int, 4, false) is Err),
{
}

/// The parameters of a player stand at 0xE0, 0xEC and 0x110.
pub proof fn law_parameters_of_a_player(image: Image, addr: int)
    ensures
        stats::stats_at(image, addr) matches Ok(s) ==> {
            &&& field::single_at(image, addr + 0xE0) == Ok::<Option<Single>, Need>(s.speed)
            &&& field::single_at(image, addr + 0xEC) == Ok::<Option<Single>, Need>(s.jump_height)
            &&& field::single_at(image, addr + 0x110) == Ok::<Option<Single>, Need>(s.gravity)
        },
        stats::stats_at(image, addr) is Err ==> field::single_at(image, addr + 0xE0) is Err
            || field::single_at(image, addr + 0xEC) is Err || field::single_at(image, addr + 0x110)
            is Err,
{
}

/// A trap is there exactly if its first 0x90 bytes can be read. Its class is the
/// first pointer; the collision rectangle stands at 0x50, the texture frame at
/// 0x70, the first position at 0x24 and the second at 0x88.
pub proof fn law_fields_of_a_trap(image: Image, addr: usize)
    ensures
        trap::trap_at(image, addr) matches Ok(Some(t)) ==> {
            &&& t.addr == addr
            &&& image.access(addr as int, 0x90, false) == Ok::<bool, Need>(true)
            &&& image.ptr(addr as int) == Ok::<Option<usize>, Need>(Some(t.class))
            &&& rect::rect_at(image, addr + 0x50) == Ok::<Option<Rect>, Need>(t.bounding_raw)
            &&& rect::rect_at(image, addr + 0x70) == Ok::<Option<Rect>, Need>(t.source_raw)
            &&& field::vector_at(image, addr + 0x24) == Ok::<Option<field::Point>, Need>(t.position)
            &&& field::vector_at(image, addr + 0x88) == Ok::<Option<field::Point>, Need>(
                t.position_alt,
            )
            &&& t.rect == trap::world_frame(
                t.bounding_raw,
                t.source_raw,
                t.position,
                t.position_alt,
            )
        },
        trap::trap_at(image, addr) == Ok::<Option<TrapRef>, Need>(None) ==> image.access(
            addr as int,
            0x90,
            false,
        ) == Ok::<bool, Need>(false) || image.ptr(addr as int) == Ok::<Option<usize>, Need>(None),
{
}

/// The camera of a screen is the pointer at 0x4C, if it is 0x10000 or more. A
/// screen of 0 has none.
pub proof fn law_camera_of_a_screen(image: Image, screen_addr: usize)
    ensures
        screen_addr == 0 ==> camera::camera_of(image, screen_addr) == Ok::<Option<usize>, Need>(
            None,
        ),
        screen_addr != 0 ==> match image.ptr(screen_addr + 0x4C) {
            Err(need) => camera::camera_of(image, screen_addr) == Err::<Option<usize>, Need>(need),
            Ok(None) => camera::camera_of(image, screen_addr) == Ok::<Option<usize>, Need>(None),
            Ok(Some(at)) => camera::camera_of(image, screen_addr) == Ok::<Option<usize>, Need>(
                if at >= 0x10000 {
                    Some(at)
                } else {
                    None
                },
            ),
        },
{
}

/// The fields of a camera: the zoom at 0x20, the viewport at 0x28 and 0x2C, the
/// matrix at 0xF0, the position at 0x1D8; and its first 0x1E8 bytes can be read.
/// Only the matrix may be missing.
pub proof fn law_fields_of_a_camera(image: Image, addr: usize)
    ensures
        camera::camera_at(image, addr) matches Ok(Some(c)) ==> {
            &&& c.addr == addr
            &&& image.access(addr as int, 0x1E8, false) == Ok::<bool, Need>(true)
            &&& field::single_at(image, addr + 0x20) == Ok::<Option<Single>, Need>(Some(c.zoom))
            &&& field::point_at(image, addr + 0x1D8) == Ok::<Option<field::Point>, Need>(
                Some(c.position),
            )
            &&& image.int32(addr + 0x28) == Ok::<Option<i32>, Need>(Some(c.viewport.0))
            &&& image.int32(addr + 0x2C) == Ok::<Option<i32>, Need>(Some(c.viewport.1))
            &&& camera::affine_at(image, addr + 0xF0) == Ok::<Option<camera::Affine>, Need>(
                c.matrix,
            )
        },
        camera::camera_at(image, addr) == Ok::<Option<CameraView>, Need>(None) ==> image.access(
            addr as int,
            0x1E8,
            false,
        ) == Ok::<bool, Need>(false) || field::single_at(image, addr + 0x20) == Ok::<
            Option<Single>,
            Need,
        >(None) || field::point_at(image, addr + 0x1D8) == Ok::<Option<field::Point>, Need>(None)
            || image.int32(addr + 0x28) == Ok::<Option<i32>, Need>(None) || image.int32(addr + 0x2C)
            == Ok::<Option<i32>, Need>(None),
{
}

/// Of the sixteen numbers of a matrix those in the first two columns of the first,
/// the second and the fourth row are kept.
pub proof fn law_matrix_in_memory(image: Image, addr: int)
    ensures
        match image.read(addr, 64) {
            Err(need) => camera::affine_at(image, addr) == Err::<Option<camera::Affine>, Need>(
                need,
            ),
            Ok(None) => camera::affine_at(image, addr) == Ok::<Option<camera::Affine>, Need>(None),
            Ok(Some(b)) => camera::affine_at(image, addr) matches Ok(Some(m)) && {
                &&& m.m11.bits == mem::le_u32(seq![b[0], b[1], b[2], b[3]])
                &&& m.m12.bits == mem::le_u32(seq![b[4], b[5], b[6], b[7]])
                &&& m.m21.bits == mem::le_u32(seq![b[16], b[17], b[18], b[19]])
                &&& m.m22.bits == mem::le_u32(seq![b[20], b[21], b[22], b[23]])
                &&& m.m41.bits == mem::le_u32(seq![b[48], b[49], b[50], b[51]])
                &&& m.m42.bits == mem::le_u32(seq![b[52], b[53], b[54], b[55]])
            },
        },
{
    if let Ok(Some(b)) = image.read(addr, 64) {
        mem::lemma_read_len(image, addr, 64);
        assert(b.subrange(4 * 0int, 4 * 0int + 4) =~= seq![b[0], b[1], b[2], b[3]]);
        assert(b.subrange(4 * 1int, 4 * 1int + 4) =~= seq![b[4], b[5], b[6], b[7]]);
        assert(b.subrange(4 * 4int, 4 * 4int + 4) =~= seq![b[16], b[17], b[18], b[19]]);
        assert(b.subrange(4 * 5int, 4 * 5int + 4) =~= seq![b[20], b[21], b[22], b[23]]);
        assert(b.subrange(4 * 12int, 4 * 12int + 4) =~= seq![b[48], b[49], b[50], b[51]]);
        assert(b.subrange(4 * 13int, 4 * 13int + 4) =~= seq![b[52], b[53], b[54], b[55]]);
    }
}

/// A matrix is finite exactly if each of its six numbers is.
pub proof fn law_finite_matrix(m: camera::Affine)
    ensures
        m.finite() <==> m.m11.finite() && m.m12.finite() && m.m21.finite() && m.m22.finite()
            && m.m41.finite() && m.m42.finite(),
{
}

} // verus!
