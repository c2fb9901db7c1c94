//! Fields of game objects: numbers, flags and names.
use vstd::prelude::*;

use crate::mem;
use crate::mem::Fetch;
use crate::mem::Image;
use crate::mem::Memory;
use crate::mem::Need;
use crate::mem::Span;
use crate::single::Single;

verus! {

/// A pair of numbers in single precision, such as a position.
pub type Point = (Single, Single);

/// The pair of numbers that eight bytes stand for.
pub open spec fn point_of(b: Seq<u8>) -> Point {
    (
        Single { bits: mem::le_u32(b.subrange(0, 4)) },
        Single { bits: mem::le_u32(b.subrange(4, 8)) },
    )
}

/// The pair of numbers at `addr`.
pub open spec fn point_at(image: Image, addr: int) -> Fetch<Option<Point>> {
    match image.read(addr, 8) {
        Err(need) => Err(need),
        Ok(None) => Ok(None),
        Ok(Some(b)) => Ok(Some(point_of(b))),
    }
}

/// Reads a pair of numbers.
pub fn read_point(mem: &Memory, addr: usize, offset: usize) -> (r: Fetch<Option<Point>>)
    ensures
        r == point_at(mem@, addr + offset),
{
    match mem::read_field(mem, addr, offset, 8) {
        Err(need) => Err(need),
        Ok(None) => Ok(None),
        Ok(Some(b)) => {
            proof {
                mem::lemma_read_len(mem@, addr + offset, 8);
            }
            Ok(
                Some(
                    (Single { bits: mem::join(&b, 0) }, Single { bits: mem::join(&b, 4) }),
                ),
            )
        },
    }
}

/// The pair of numbers at `addr`, if both are finite.
pub open spec fn vector_at(image: Image, addr: int) -> Fetch<Option<Point>> {
    match point_at(image, addr) {
        Ok(Some(p)) => if p.0.finite() && p.1.finite() {
            Ok(Some(p))
        } else {
            Ok(None)
        },
        other => other,
    }
}

/// Reads a pair of numbers, discarding infinities and NaNs.
pub fn read_vector2(mem: &Memory, addr: usize, offset: usize) -> (r: Fetch<Option<Point>>)
    ensures
        r == vector_at(mem@, addr + offset),
{
    match read_point(mem, addr, offset) {
        Err(need) => Err(need),
        Ok(None) => Ok(None),
        Ok(Some(p)) => if p.0.is_finite() && p.1.is_finite() {
            Ok(Some(p))
        } else {
            Ok(None)
        },
    }
}

/// The number at `addr`, in single precision.
pub open spec fn single_at(image: Image, addr: int) -> Fetch<Option<Single>> {
    match image.word(addr) {
        Err(need) => Err(need),
        Ok(None) => Ok(None),
        Ok(Some(bits)) => Ok(Some(Single { bits })),
    }
}

/// Reads a number in single precision.
pub fn read_single(mem: &Memory, addr: usize, offset: usize) -> (r: Fetch<Option<Single>>)
    ensures
        r == single_at(mem@, addr + offset),
{
    match mem::read_word(mem, addr, offset) {
        Err(need) => Err(need),
        Ok(None) => Ok(None),
        Ok(Some(bits)) => Ok(Some(Single { bits })),
    }
}

/// Whether the flag at `addr` is set.
pub open spec fn flag_at(image: Image, addr: int) -> Fetch<Option<bool>> {
    match image.byte(addr) {
        Err(need) => Err(need),
        Ok(None) => Ok(None),
        Ok(Some(value)) => Ok(Some(value != 0)),
    }
}

/// Reads a flag.
pub fn read_flag(mem: &Memory, addr: usize, offset: usize) -> (r: Fetch<Option<bool>>)
    ensures
        r == flag_at(mem@, addr + offset),
{
    match mem::read_byte(mem, addr, offset) {
        Err(need) => Err(need),
        Ok(None) => Ok(None),
        Ok(Some(value)) => Ok(Some(value != 0)),
    }
}

/// The text whose pointer stands at `addr`.
pub open spec fn text_at(image: Image, addr: int) -> Fetch<Option<Seq<char>>> {
    match image.ptr(addr) {
        Err(need) => Err(need),
        Ok(None) => Ok(None),
        Ok(Some(at)) => image.dotnet_string(at as int),
    }
}

/// Reads a text field.
pub fn read_text(mem: &Memory, addr: usize, offset: usize) -> (r: Fetch<Option<String>>)
    ensures
        mem::text_view(r) == text_at(mem@, addr + offset),
{
    match mem::read_link(mem, addr, offset) {
        Err(need) => Err(need),
        Ok(None) => Ok(None),
        Ok(Some(at)) => mem::peek_dotnet_string(mem, at),
    }
}

/// What writing `first` and then `second` does. The second is only tried where
/// the first could be written, and nothing is written as long as something is
/// missing for either.
pub open spec fn put_both(
    before: Memory,
    after: Memory,
    r: Fetch<bool>,
    first: Span,
    second: Span,
) -> bool {
    match before@.access(first.start, first.bytes.len() as int, true) {
        Err(need) => r == Err::<bool, Need>(need) && after == before,
        Ok(false) => r == Ok::<bool, Need>(false) && mem::concluded(before, after),
        Ok(true) => match before@.access(second.start, second.bytes.len() as int, true) {
            Err(need) => r == Err::<bool, Need>(need) && after == before,
            Ok(false) => r == Ok::<bool, Need>(false) && mem::written(
                before,
                after,
                first.start,
                first.bytes,
            ),
            Ok(true) => {
                &&& r == Ok::<bool, Need>(true)
                &&& after@ == before@.concluded()
                &&& after.pending() == before.pending().push(first).push(second)
                &&& after.age() == before.age()
            },
        },
    }
}

/// Writes a field. A field beyond the address space cannot be written.
pub fn write_field(mem: &mut Memory, addr: usize, offset: usize, data: Vec<u8>) -> (r: Fetch<bool>)
    ensures
        mem::put(*old(mem), *final(mem), r, addr + offset, data@),
{
    match addr.checked_add(offset) {
        Some(at) => mem::write(mem, at, data),
        None => {
            mem.conclude();
            Ok(false)
        },
    }
}

/// Whether a field may be written.
fn field_is_writable(mem: &Memory, addr: usize, offset: usize, len: usize) -> (r: Fetch<bool>)
    ensures
        r == mem@.access(addr + offset, len as int, true),
{
    match addr.checked_add(offset) {
        Some(at) => mem::check(mem, at, len, true),
        None => Ok(false),
    }
}

/// Writes two fields of one object.
pub fn write_fields(
    mem: &mut Memory,
    addr: usize,
    first: usize,
    first_data: Vec<u8>,
    second: usize,
    second_data: Vec<u8>,
) -> (r: Fetch<bool>)
    ensures
        put_both(
            *old(mem),
            *final(mem),
            r,
            Span { start: addr + first, bytes: first_data@ },
            Span { start: addr + second, bytes: second_data@ },
        ),
{
    match field_is_writable(mem, addr, first, first_data.len()) {
        Err(need) => return Err(need),
        Ok(false) => {
            mem.conclude();
            return Ok(false);
        },
        Ok(true) => {},
    }
    let both = match field_is_writable(mem, addr, second, second_data.len()) {
        Err(need) => return Err(need),
        Ok(both) => both,
    };
    mem.store(addr + first, first_data);
    if both {
        mem.store(addr + second, second_data);
    }
    Ok(both)
}

/// The bytes of a number, low byte first.
pub fn bytes_of(v: u32) -> (b: Vec<u8>)
    ensures
        b@ == mem::le_bytes(v),
{
    let parts = mem::split(v);
    let b = vec![parts[0], parts[1], parts[2], parts[3]];
    assert(b@ =~= mem::le_bytes(v));
    b
}

} // verus!
