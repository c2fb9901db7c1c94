//! What the bytes of the game, its page protections and its regions stand for.
use vstd::prelude::*;

use crate::mem;
use crate::mem::laws;
use crate::mem::laws::Process;
use crate::mem::Image;
use crate::mem::Need;
use crate::mem::Region;
use crate::utf16;
use crate::win32::RegionInfo;

verus! {

/// In a number of four bytes the byte with index `k` counts 256 to the power of
/// `k`: the low byte comes first.
pub proof fn law_low_byte_first(b: Seq<u8>)
    requires
        b.len() == 4,
    ensures
        mem::le_u32(b) % 256 == b[0],
        mem::le_u32(b) / 256 % 256 == b[1],
        mem::le_u32(b) / 65536 % 256 == b[2],
        mem::le_u32(b) / 16777216 == b[3],
{
}

/// A number that is taken apart gives its digits to the base of 256, the lowest
/// first.
pub proof fn law_number_is_taken_apart(v: u32)
    ensures
        mem::le_bytes(v).len() == 4,
        mem::le_bytes(v)[0] == v % 256,
        mem::le_bytes(v)[1] == v / 256 % 256,
        mem::le_bytes(v)[2] == v / 65536 % 256,
        mem::le_bytes(v)[3] == v / 16777216,
{
}

/// A signed number differs from the unsigned one with the same bits by nothing or
/// by 2 to the power of 32, and it is negative exactly from 2 to the power of 31
/// on.
pub proof fn law_sign(v: u32)
    ensures
        mem::signed(v) == v || mem::signed(v) == v - 4294967296,
        mem::signed(v) < 0 <==> v >= 2147483648,
{
}

/// Two bytes make a unit of text, the low byte first.
pub proof fn law_units(b: Seq<u8>, i: int)
    requires
        0 <= i,
        2 * i + 1 < b.len(),
    ensures
        mem::units_of(b).len() == b.len() / 2,
        mem::units_of(b)[i] % 256 == b[2 * i],
        mem::units_of(b)[i] / 256 == b[2 * i + 1],
{
}

proof fn lemma_mask(protect: u32)
    ensures
        protect & 0xFF == protect % 256,
        (protect & 0x100 == 0) == (protect / 256 % 2 == 0),
{
    assert(protect & 0xFF == protect % 256) by (bit_vector);
    assert((protect & 0x100 == 0) == (protect / 256 % 2 == 0)) by (bit_vector);
}

/// Which pages can be read and written: the low byte of the protection is one of
/// six values for reading and one of four for writing, and the guard bit is clear.
/// No other bit matters.
pub proof fn law_protection(protect: u32)
    ensures
        ({
            let kind = protect % 256;
            let guarded = protect / 256 % 2 == 1;
            &&& mem::access_rights(protect).0 <==> !guarded && (kind == 2 || kind == 4 || kind == 8
                || kind == 32 || kind == 64 || kind == 128)
            &&& mem::access_rights(protect).1 <==> !guarded && (kind == 4 || kind == 8 || kind
                == 64 || kind == 128)
        }),
{
    lemma_mask(protect);
}

/// A region goes from its base as far as its size, if that is inside the address
/// space, and has rights only if its pages are committed. A failed query teaches
/// nothing.
pub proof fn law_description(info: RegionInfo)
    ensures
        mem::described(None) is None,
        mem::described(Some(info)) is None <==> info.base + info.size > usize::MAX,
        mem::described(Some(info)) matches Some(r) ==> {
            &&& r.start == info.base
            &&& r.end == info.base + info.size
            &&& r.readable <==> info.state == 0x1000 && mem::access_rights(info.protect).0
            &&& r.writable <==> info.state == 0x1000 && mem::access_rights(info.protect).1
        },
{
}

/// Nothing in the first 64 KiB is ever touched, and no empty range; everything
/// else is for the system to decide.
pub proof fn law_first_pages(image: Image, addr: int, len: int, want_write: bool)
    ensures
        addr < 65536 || len <= 0 || addr + len > usize::MAX ==> image.access(addr, len, want_write)
            == Ok::<bool, Need>(false),
        addr >= 65536 && len > 0 && addr + len <= usize::MAX && image.regions.len() == 0
            && image.replies.len() == 0 ==> image.access(addr, len, want_write) == Err::<
            bool,
            Need,
        >(Need::Region(addr as usize)),
{
}

/// A region that was learnt decides about every range inside it from then on,
/// without another query, as long as the map lives; and learning it makes no
/// other region forgotten while the map has fewer than 64.
pub proof fn law_learnt_region_decides(
    image: Image,
    at: usize,
    region: Region,
    addr: int,
    len: int,
    want_write: bool,
)
    requires
        addr >= 65536,
        len > 0,
        addr + len <= usize::MAX,
        image.regions.len() < 64,
    ensures
        ({
            let next = image.told(at, Some(region)).concluded();
            &&& image.concluded().access(addr, len, want_write) matches Ok(r) ==> next.access(
                addr,
                len,
                want_write,
            ) == Ok::<bool, Need>(r)
            &&& image.concluded().access(addr, len, want_write) is Err && region.start <= addr
                && addr + len <= region.end ==> next.access(addr, len, want_write) == Ok::<
                bool,
                Need,
            >(
                if want_write {
                    region.writable
                } else {
                    region.readable
                },
            )
            &&& image.concluded().access(addr, len, want_write) is Err && !(region.start <= addr
                && addr + len <= region.end) ==> next.access(addr, len, want_write) is Err
        }),
{
    let next = image.told(at, Some(region)).concluded();
    assert(next.regions.drop_last() =~= image.regions);
}

/// Bytes and numbers are those that the process holds, low byte first.
pub proof fn law_numbers_are_true(image: Image, process: Process, addr: int)
    requires
        laws::true_of(image, process),
    ensures
        image.byte(addr) matches Ok(Some(v)) ==> v == process.byte_at(addr),
        image.byte(addr) matches Ok(r) ==> (r is Some <==> process.allows(addr, 1, false)),
        image.word(addr) matches Ok(Some(v)) ==> {
            &&& v % 256 == process.byte_at(addr)
            &&& v / 256 % 256 == process.byte_at(addr + 1)
            &&& v / 65536 % 256 == process.byte_at(addr + 2)
            &&& v / 16777216 == process.byte_at(addr + 3)
        },
        image.word(addr) matches Ok(r) ==> (r is Some <==> process.allows(addr, 4, false)),
        image.ptr(addr) matches Ok(Some(p)) ==> image.word(addr) == Ok::<Option<u32>, Need>(
            Some(p as u32),
        ) && p <= u32::MAX,
        image.int32(addr) matches Ok(Some(n)) ==> exists|v: u32|
            #[trigger] mem::signed(v) == n && image.word(addr) == Ok::<Option<u32>, Need>(Some(v)),
        image.ptr(addr) matches Ok(r) ==> (r is Some <==> process.allows(addr, 4, false)),
        image.int32(addr) matches Ok(r) ==> (r is Some <==> process.allows(addr, 4, false)),
        image.ptr(addr) is Ok <==> image.word(addr) is Ok,
        image.int32(addr) is Ok <==> image.word(addr) is Ok,
{
    laws::law_read_is_true(image, process, addr, 1);
    laws::law_read_is_true(image, process, addr, 4);
    if let Ok(Some(b)) = image.read(addr, 4) {
        law_low_byte_first(b);
        assert(b.len() == 4);
        assert(b[0] == process.byte_at(addr + 0));
        assert(b[1] == process.byte_at(addr + 1));
        assert(b[2] == process.byte_at(addr + 2));
        assert(b[3] == process.byte_at(addr + 3));
        let v = mem::le_u32(b);
        assert(image.word(addr) == Ok::<Option<u32>, Need>(Some(v)));
        assert(image.int32(addr) == Ok::<Option<i32>, Need>(Some(mem::signed(v))));
    }
    if let Ok(Some(b)) = image.read(addr, 1) {
        assert(b.len() == 1);
        assert(b[0] == process.byte_at(addr + 0));
    }
}

/// A string is there exactly if its length, at 4, is from 1 to 256 and all of its
/// units, from 8 on, can be read; and it is the text of these units.
pub proof fn law_string(image: Image, addr: int)
    ensures
        image.dotnet_string(addr) matches Ok(r) ==> {
            match image.int32(addr + 4) {
                Ok(Some(len)) => {
                    if 1 <= len <= 256 {
                        match image.read(addr + 8, 2 * len) {
                            Ok(Some(b)) => r == Some(utf16::decoded(mem::units_of(b))),
                            Ok(None) => r is None,
                            Err(_) => false,
                        }
                    } else {
                        r is None
                    }
                },
                Ok(None) => r is None,
                Err(_) => false,
            }
        },
        image.dotnet_string(addr) is Err ==> image.int32(addr + 4) is Err || (image.int32(
            addr + 4,
        ) matches Ok(Some(len)) && 1 <= len <= 256 && image.read(addr + 8, 2 * len) is Err),
{
}

/// What is stored shows at its place and nowhere else.
pub proof fn law_store_shows_at_its_place(span: mem::Span, addr: int, data: Seq<u8>, at: int)
    requires
        span.start <= at < span.start + span.bytes.len(),
    ensures
        ({
            let after = mem::laid(span, seq![mem::Span { start: addr, bytes: data }]);
            &&& after.start == span.start
            &&& after.bytes.len() == span.bytes.len()
            &&& addr <= at < addr + data.len() ==> after.bytes[at - span.start] == data[at - addr]
            &&& !(addr <= at < addr + data.len()) ==> after.bytes[at - span.start]
                == span.bytes[at - span.start]
        }),
{
    let store = mem::Span { start: addr, bytes: data };
    let none: Seq<mem::Span> = seq![];
    assert(seq![store].drop_last() =~= none);
    assert(mem::laid(span, none) == span);
    assert(mem::laid(span, seq![store]) == span.overlaid(addr, data));
}

/// The region map lives for thirty frames and holds 64 regions.
pub proof fn law_bounds_of_the_map(image: Image, at: usize, region: Region)
    ensures
        mem::CACHE_TTL_FRAMES == 30,
        image.regions.len() < 64 ==> image.told(at, Some(region)).regions
            == image.regions.push(region),
        image.regions.len() >= 64 ==> image.told(at, Some(region)).regions == seq![region],
        image.told(at, None).regions == image.regions,
{
}

} // verus!
