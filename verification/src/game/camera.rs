//! The camera of the game.
use vstd::prelude::*;

use crate::game::field;
use crate::game::field::Point;
use crate::game::list;
use crate::mem;
use crate::mem::Fetch;
use crate::mem::Image;
use crate::mem::Memory;
use crate::offsets::camera;
use crate::offsets::screen;
use crate::offsets::MIN_VALID_ADDRESS;
use crate::single::Single;

verus! {

/// An affine map of the plane: a matrix of two rows and a translation.
///
/// XNA keeps a `Matrix` by rows, and `Vector2.Transform` takes exactly these six
/// of its sixteen numbers. The others describe the third dimension.
#[derive(Clone, Copy, Debug, PartialEq, Eq, Structural)]
pub struct Affine {
    pub m11: Single,
    pub m12: Single,
    pub m21: Single,
    pub m22: Single,
    pub m41: Single,
    pub m42: Single,
}

/// The number with index `i` of a matrix.
pub open spec fn entry(b: Seq<u8>, i: int) -> Single {
    Single { bits: mem::le_u32(b.subrange(4 * i, 4 * i + 4)) }
}

/// The two-dimensional part of a matrix of sixteen numbers.
pub open spec fn affine_of(b: Seq<u8>) -> Affine {
    Affine {
        m11: entry(b, 0),
        m12: entry(b, 1),
        m21: entry(b, 4),
        m22: entry(b, 5),
        m41: entry(b, 12),
        m42: entry(b, 13),
    }
}

/// The two-dimensional part of the matrix at `addr`.
pub open spec fn affine_at(image: Image, addr: int) -> Fetch<Option<Affine>> {
    match image.read(addr, 64) {
        Err(need) => Err(need),
        Ok(None) => Ok(None),
        Ok(Some(b)) => Ok(Some(affine_of(b))),
    }
}

impl Affine {
    /// No entry is an infinity or a NaN.
    pub open spec fn finite(self) -> bool {
        &&& self.m11.finite()
        &&& self.m12.finite()
        &&& self.m21.finite()
        &&& self.m22.finite()
        &&& self.m41.finite()
        &&& self.m42.finite()
    }

    /// Whether no entry is an infinity or a NaN.
    pub fn is_finite(&self) -> (r: bool)
        ensures
            r == self.finite(),
    {
        self.m11.is_finite() && self.m12.is_finite() && self.m21.is_finite()
            && self.m22.is_finite() && self.m41.is_finite() && self.m42.is_finite()
    }

    /// Reads a `Matrix` and keeps its two-dimensional part.
    pub fn read(mem: &Memory, addr: usize, offset: usize) -> (r: Fetch<Option<Affine>>)
        ensures
            r == affine_at(mem@, addr + offset),
    {
        match mem::read_field(mem, addr, offset, 64) {
            Err(need) => Err(need),
            Ok(None) => Ok(None),
            Ok(Some(b)) => {
                proof {
                    mem::lemma_read_len(mem@, addr + offset, 64);
                }
                Ok(
                    Some(
                        Affine {
                            m11: Single { bits: mem::join(&b, 0) },
                            m12: Single { bits: mem::join(&b, 4) },
                            m21: Single { bits: mem::join(&b, 16) },
                            m22: Single { bits: mem::join(&b, 20) },
                            m41: Single { bits: mem::join(&b, 48) },
                            m42: Single { bits: mem::join(&b, 52) },
                        },
                    ),
                )
            },
        }
    }
}

/// The camera of a screen, as far as it can be an object. No screen has none.
pub open spec fn camera_of(image: Image, screen_addr: usize) -> Fetch<Option<usize>> {
    if screen_addr == 0 {
        Ok(None)
    } else {
        match image.ptr(screen_addr + screen::CAMERA) {
            Err(need) => Err(need),
            Ok(slot) => Ok(list::valid(slot)),
        }
    }
}

/// The address of the camera object.
pub fn camera(mem: &mut Memory, screen_addr: usize) -> (r: Fetch<Option<usize>>)
    ensures
        r == camera_of(old(mem)@, screen_addr),
        mem::ended(*old(mem), *final(mem), r),
{
    let r = peek_camera_address(mem, screen_addr);
    mem.end(&r);
    r
}

fn peek_camera_address(mem: &Memory, screen_addr: usize) -> (r: Fetch<Option<usize>>)
    ensures
        r == camera_of(mem@, screen_addr),
{
    if screen_addr == 0 {
        return Ok(None);
    }
    match mem::read_link(mem, screen_addr, screen::CAMERA) {
        Err(need) => Err(need),
        Ok(None) => Ok(None),
        Ok(Some(addr)) => if addr >= MIN_VALID_ADDRESS {
            Ok(Some(addr))
        } else {
            Ok(None)
        },
    }
}

/// The camera of the game, taken in one frame.
#[derive(Clone, Copy, Debug, PartialEq, Eq)]
pub struct CameraView {
    pub addr: usize,
    /// `m_Transform`, if it could be read.
    pub matrix: Option<Affine>,
    pub zoom: Single,
    pub position: Point,
    /// Width and height of the viewport.
    pub viewport: (i32, i32),
}

/// The camera object at `addr`. Every field but the matrix has to be readable.
pub open spec fn camera_at(image: Image, addr: usize) -> Fetch<Option<CameraView>> {
    match image.access(addr as int, camera::PROBE_SIZE as int, false) {
        Err(need) => Err(need),
        Ok(false) => Ok(None),
        Ok(true) => match field::single_at(image, addr + camera::ZOOM) {
            Err(need) => Err(need),
            Ok(None) => Ok(None),
            Ok(Some(zoom)) => match field::point_at(image, addr + camera::CAMERA_POSITION) {
                Err(need) => Err(need),
                Ok(None) => Ok(None),
                Ok(Some(position)) => match image.int32(addr + camera::VIEWPORT_WIDTH) {
                    Err(need) => Err(need),
                    Ok(None) => Ok(None),
                    Ok(Some(width)) => match image.int32(addr + camera::VIEWPORT_HEIGHT) {
                        Err(need) => Err(need),
                        Ok(None) => Ok(None),
                        Ok(Some(height)) => match affine_at(image, addr + camera::TRANSFORM) {
                            Err(need) => Err(need),
                            Ok(matrix) => Ok(
                                Some(
                                    CameraView {
                                        addr,
                                        matrix,
                                        zoom,
                                        position,
                                        viewport: (width, height),
                                    },
                                ),
                            ),
                        },
                    },
                },
            },
        },
    }
}

/// Reads the camera of a screen.
pub fn read_camera(mem: &mut Memory, screen_addr: usize) -> (r: Fetch<Option<CameraView>>)
    ensures
        r == (match camera_of(old(mem)@, screen_addr) {
            Err(need) => Err(need),
            Ok(None) => Ok(None),
            Ok(Some(addr)) => camera_at(old(mem)@, addr),
        }),
        mem::ended(*old(mem), *final(mem), r),
{
    let r = peek_camera(mem, screen_addr);
    mem.end(&r);
    r
}

fn peek_camera(mem: &Memory, screen_addr: usize) -> (r: Fetch<Option<CameraView>>)
    ensures
        r == (match camera_of(mem@, screen_addr) {
            Err(need) => Err(need),
            Ok(None) => Ok(None),
            Ok(Some(addr)) => camera_at(mem@, addr),
        }),
{
    let addr: usize = match peek_camera_address(mem, screen_addr) {
        Err(need) => return Err(need),
        Ok(None) => return Ok(None),
        Ok(Some(addr)) => addr,
    };
    match mem::check(mem, addr, camera::PROBE_SIZE, false) {
        Err(need) => return Err(need),
        Ok(false) => return Ok(None),
        Ok(true) => {},
    }
    let zoom = match field::read_single(mem, addr, camera::ZOOM) {
        Err(need) => return Err(need),
        Ok(None) => return Ok(None),
        Ok(Some(zoom)) => zoom,
    };
    let position = match field::read_point(mem, addr, camera::CAMERA_POSITION) {
        Err(need) => return Err(need),
        Ok(None) => return Ok(None),
        Ok(Some(position)) => position,
    };
    let width: i32 = match mem::read_int(mem, addr, camera::VIEWPORT_WIDTH) {
        Err(need) => return Err(need),
        Ok(None) => return Ok(None),
        Ok(Some(width)) => width,
    };
    let height: i32 = match mem::read_int(mem, addr, camera::VIEWPORT_HEIGHT) {
        Err(need) => return Err(need),
        Ok(None) => return Ok(None),
        Ok(Some(height)) => height,
    };
    match Affine::read(mem, addr, camera::TRANSFORM) {
        Err(need) => Err(need),
        Ok(matrix) => Ok(
            Some(CameraView { addr, matrix, zoom, position, viewport: (width, height) }),
        ),
    }
}

/// Where the map from the world to the screen comes from.
#[derive(Clone, Copy, Debug, PartialEq, Eq, Structural)]
pub enum Source {
    /// The matrix of the camera.
    Matrix,
    /// Zoom, position and viewport, put together as the game does it.
    Fields,
}

/// Decides where the map comes from. The matrix wins if it is usable; it may not
/// have been computed yet in this frame, and then the fields stand in for it.
/// Where neither is usable there is no map, and the caller falls back to the
/// manual controls.
pub fn transform_source(matrix_is_usable: bool, fields_are_usable: bool) -> (source: Option<Source>)
    ensures
        source == Some(Source::Matrix) <==> matrix_is_usable,
        source == Some(Source::Fields) <==> !matrix_is_usable && fields_are_usable,
        source is None <==> !matrix_is_usable && !fields_are_usable,
{
    if matrix_is_usable {
        Some(Source::Matrix)
    } else if fields_are_usable {
        Some(Source::Fields)
    } else {
        None
    }
}

} // verus!
