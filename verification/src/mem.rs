//! Checked access to the memory of the game.
//!
//! The garbage collector of the game compacts its heap and moves objects, so a
//! pointer of the previous frame may lead anywhere. Every access is therefore
//! held against a map of the regions of the process first.
//!
//! [`Memory`] is a picture of the address space that is filled in on demand. It
//! keeps the region map, and for the call that is under way the replies to its
//! queries and the bytes fetched for it. A function that runs into something the
//! picture does not hold stops with the [`Need`] it met first. Once the caller
//! has supplied that item, the same call gets further. When it comes to its
//! result the call is over: replies and bytes are forgotten, so that the next
//! call looks at the memory anew, and only the region map stays.
//!
//! Functions that only look at the picture, as parts of a call, take it by shared
//! reference and leave the call open. Where such a part has the same task as a
//! whole call, its name begins with `peek`.
use vstd::prelude::*;

pub mod laws;

use crate::offsets::string;
use crate::offsets::MIN_VALID_ADDRESS;
use crate::utf16;
use crate::win32::RegionInfo;
use crate::win32::{
    MEM_COMMIT, PAGE_EXECUTE_READ, PAGE_EXECUTE_READWRITE, PAGE_EXECUTE_WRITECOPY, PAGE_GUARD,
    PAGE_READONLY, PAGE_READWRITE, PAGE_WRITECOPY, PROTECTION_MASK,
};

verus! {

/// After this many frames the region map counts as stale and is dropped.
pub const CACHE_TTL_FRAMES: u32 = 30;

/// The region map does not grow beyond this: when it is full it starts anew.
pub const MAX_CACHED_REGIONS: usize = 64;

/// A contiguous range of pages with the same access rights.
#[derive(Clone, Copy, Debug, PartialEq, Eq, Structural)]
pub struct Region {
    pub start: usize,
    pub end: usize,
    pub readable: bool,
    pub writable: bool,
}

impl Region {
    /// The range from `addr` up to `end` lies inside the region.
    pub open spec fn holds(self, addr: int, end: int) -> bool {
        self.start <= addr && end <= self.end
    }

    /// What may be written may be read.
    pub open spec fn sound(self) -> bool {
        self.writable ==> self.readable
    }

    /// The right that an access asks for.
    pub open spec fn grants(self, want_write: bool) -> bool {
        if want_write {
            self.writable
        } else {
            self.readable
        }
    }
}

/// A reply to a region query of the call that is under way.
#[derive(Clone, Copy, Debug, PartialEq, Eq, Structural)]
pub struct Reply {
    /// The address that was asked about.
    pub addr: usize,
    /// The region found there, if there is one.
    pub region: Option<Region>,
}

impl Reply {
    /// What the reply says about a range that ends at `end`. A range that runs
    /// past the region is refused.
    pub open spec fn verdict(self, end: int, want_write: bool) -> bool {
        match self.region {
            Some(r) => end <= r.end && r.grants(want_write),
            None => false,
        }
    }
}

/// A run of bytes in spec code.
#[verifier::ext_equal]
pub struct Span {
    pub start: int,
    pub bytes: Seq<u8>,
}

impl Span {
    /// The `len` bytes at `addr` all belong to the span.
    pub open spec fn covers(self, addr: int, len: int) -> bool {
        self.start <= addr && addr + len <= self.start + self.bytes.len()
    }

    /// The `len` bytes at `addr`.
    pub open spec fn slice(self, addr: int, len: int) -> Seq<u8> {
        self.bytes.subrange(addr - self.start, addr - self.start + len)
    }

    /// The span after `data` has been stored at `addr`.
    pub open spec fn overlaid(self, addr: int, data: Seq<u8>) -> Span {
        Span {
            start: self.start,
            bytes: Seq::new(
                self.bytes.len(),
                |i: int|
                    if addr <= self.start + i < addr + data.len() {
                        data[self.start + i - addr]
                    } else {
                        self.bytes[i]
                    },
            ),
        }
    }
}

/// The span after stores have been carried out, one after the other.
pub open spec fn laid(span: Span, stores: Seq<Span>) -> Span
    decreases stores.len(),
{
    if stores.len() == 0 {
        span
    } else {
        laid(span, stores.drop_last()).overlaid(stores.last().start, stores.last().bytes)
    }
}

/// Bytes of the game that were fetched for the call that is under way.
pub struct Chunk {
    pub start: usize,
    pub bytes: Vec<u8>,
}

impl View for Chunk {
    type V = Span;

    open spec fn view(&self) -> Span {
        Span { start: self.start as int, bytes: self.bytes@ }
    }
}

/// What a call has to be told before it can go on.
#[derive(Clone, Copy, Debug, PartialEq, Eq, Structural)]
pub enum Need {
    /// The region that holds an address.
    Region(usize),
    /// A number of bytes at an address. The range is readable.
    Bytes(usize, usize),
}

/// A result that may have to wait for a [`Need`].
pub type Fetch<T> = Result<T, Need>;

/// The picture of the address space in spec code.
#[verifier::ext_equal]
pub struct Image {
    /// The region map, in the order in which the regions were learnt.
    pub regions: Seq<Region>,
    /// Replies to the queries of the call, in the order in which they came.
    pub replies: Seq<Reply>,
    /// Bytes fetched for the call, in the order in which they came.
    pub chunks: Seq<Span>,
}

/// The earliest region that covers the range from `addr` up to `end`.
pub open spec fn first_holding(regions: Seq<Region>, addr: int, end: int) -> Option<Region>
    decreases regions.len(),
{
    if regions.len() == 0 {
        None
    } else {
        match first_holding(regions.drop_last(), addr, end) {
            Some(r) => Some(r),
            None => if regions.last().holds(addr, end) {
                Some(regions.last())
            } else {
                None
            },
        }
    }
}

/// The earliest reply to a query for `addr`.
pub open spec fn reply_to(replies: Seq<Reply>, addr: int) -> Option<Reply>
    decreases replies.len(),
{
    if replies.len() == 0 {
        None
    } else {
        match reply_to(replies.drop_last(), addr) {
            Some(r) => Some(r),
            None => if replies.last().addr == addr {
                Some(replies.last())
            } else {
                None
            },
        }
    }
}

/// The `len` bytes at `addr`, out of the earliest span that has them all.
pub open spec fn first_covering(chunks: Seq<Span>, addr: int, len: int) -> Option<Seq<u8>>
    decreases chunks.len(),
{
    if chunks.len() == 0 {
        None
    } else {
        match first_covering(chunks.drop_last(), addr, len) {
            Some(b) => Some(b),
            None => if chunks.last().covers(addr, len) {
                Some(chunks.last().slice(addr, len))
            } else {
                None
            },
        }
    }
}

/// The number that four bytes stand for, low byte first.
pub open spec fn le_u32(b: Seq<u8>) -> u32 {
    (b[0] + 0x100 * b[1] + 0x1_0000 * b[2] + 0x100_0000 * b[3]) as u32
}

/// The four bytes of a number, low byte first.
pub open spec fn le_bytes(v: u32) -> Seq<u8> {
    seq![
        (v % 0x100) as u8,
        (v / 0x100 % 0x100) as u8,
        (v / 0x1_0000 % 0x100) as u8,
        (v / 0x100_0000) as u8,
    ]
}

/// The 16-bit units that a run of bytes holds, low byte first.
pub open spec fn units_of(b: Seq<u8>) -> Seq<u16> {
    Seq::new(b.len() / 2, |i: int| (b[2 * i] + 0x100 * b[2 * i + 1]) as u16)
}

/// The signed number with the same bits.
pub open spec fn signed(v: u32) -> i32 {
    if v < 0x8000_0000 {
        v as i32
    } else {
        (v - 0x1_0000_0000) as i32
    }
}

impl Image {
    /// Whether an access to the `len` bytes at `addr` is allowed.
    ///
    /// Low addresses, empty ranges and ranges that leave the address space are
    /// refused. Otherwise a region of the map that covers the range decides, and
    /// failing that the system is asked about `addr`.
    pub open spec fn access(self, addr: int, len: int, want_write: bool) -> Fetch<bool> {
        if addr < MIN_VALID_ADDRESS || len <= 0 || addr + len > usize::MAX {
            Ok(false)
        } else {
            match first_holding(self.regions, addr, addr + len) {
                Some(r) => Ok(r.grants(want_write)),
                None => match reply_to(self.replies, addr) {
                    Some(reply) => Ok(reply.verdict(addr + len, want_write)),
                    None => Err(Need::Region(addr as usize)),
                },
            }
        }
    }

    /// The `len` bytes at `addr`, or `None` if they are not readable.
    pub open spec fn read(self, addr: int, len: int) -> Fetch<Option<Seq<u8>>> {
        match self.access(addr, len, false) {
            Err(need) => Err(need),
            Ok(false) => Ok(None),
            Ok(true) => match first_covering(self.chunks, addr, len) {
                Some(b) => Ok(Some(b)),
                None => Err(Need::Bytes(addr as usize, len as usize)),
            },
        }
    }

    /// The byte at `addr`.
    pub open spec fn byte(self, addr: int) -> Fetch<Option<u8>> {
        match self.read(addr, 1) {
            Err(need) => Err(need),
            Ok(None) => Ok(None),
            Ok(Some(b)) => Ok(Some(b[0])),
        }
    }

    /// The 32-bit number at `addr`.
    pub open spec fn word(self, addr: int) -> Fetch<Option<u32>> {
        match self.read(addr, 4) {
            Err(need) => Err(need),
            Ok(None) => Ok(None),
            Ok(Some(b)) => Ok(Some(le_u32(b))),
        }
    }

    /// The signed 32-bit number at `addr`.
    pub open spec fn int32(self, addr: int) -> Fetch<Option<i32>> {
        match self.word(addr) {
            Err(need) => Err(need),
            Ok(None) => Ok(None),
            Ok(Some(v)) => Ok(Some(signed(v))),
        }
    }

    /// The pointer of the game at `addr`.
    pub open spec fn ptr(self, addr: int) -> Fetch<Option<usize>> {
        match self.word(addr) {
            Err(need) => Err(need),
            Ok(None) => Ok(None),
            Ok(Some(v)) => Ok(Some(v as usize)),
        }
    }

    /// The `System.String` at `addr`, or `None` if no string can live there.
    pub open spec fn dotnet_string(self, addr: int) -> Fetch<Option<Seq<char>>> {
        match self.int32(addr + string::LENGTH) {
            Err(need) => Err(need),
            Ok(None) => Ok(None),
            Ok(Some(len)) => if len <= 0 || len > string::MAX_CHARS {
                Ok(None)
            } else {
                match self.read(addr + string::FIRST_CHAR, 2 * len) {
                    Err(need) => Err(need),
                    Ok(None) => Ok(None),
                    Ok(Some(b)) => Ok(Some(utf16::decoded(units_of(b)))),
                }
            },
        }
    }

    /// The image after the system has answered a query for `addr`.
    pub open spec fn told(self, addr: usize, region: Option<Region>) -> Image {
        Image {
            regions: learnt(self.regions, region),
            replies: self.replies.push(Reply { addr, region }),
            ..self
        }
    }

    /// The image when a call is over.
    pub open spec fn concluded(self) -> Image {
        Image { regions: self.regions, replies: seq![], chunks: seq![] }
    }

    /// Everything that is known of regions is sound.
    pub open spec fn sound(self) -> bool {
        &&& forall|i: int| 0 <= i < self.regions.len() ==> (#[trigger] self.regions[i]).sound()
        &&& forall|i: int|
            0 <= i < self.replies.len() ==> ((#[trigger] self.replies[i]).region matches Some(r)
                ==> r.sound())
    }

    /// The stores have been carried out on all the bytes that are known.
    pub open spec fn shows(self, stores: Seq<Span>) -> bool {
        forall|i: int|
            0 <= i < self.chunks.len() ==> laid(#[trigger] self.chunks[i], stores)
                == self.chunks[i]
    }

    /// The image already answers the need.
    pub open spec fn answers(self, need: Need) -> bool {
        match need {
            Need::Region(addr) => exists|i: int|
                0 <= i < self.replies.len() && (#[trigger] self.replies[i]).addr == addr,
            Need::Bytes(addr, len) => first_covering(self.chunks, addr as int, len as int) is Some,
        }
    }
}

/// The region map after a reply. A map that is full starts anew.
pub open spec fn learnt(regions: Seq<Region>, region: Option<Region>) -> Seq<Region> {
    match region {
        None => regions,
        Some(r) => if regions.len() >= MAX_CACHED_REGIONS {
            seq![r]
        } else {
            regions.push(r)
        },
    }
}

/// The rights that a protection value grants: reading and writing.
pub open spec fn access_rights(protect: u32) -> (bool, bool) {
    let base = protect & PROTECTION_MASK;
    let writable = base == PAGE_READWRITE || base == PAGE_WRITECOPY || base
        == PAGE_EXECUTE_READWRITE || base == PAGE_EXECUTE_WRITECOPY;
    if protect & PAGE_GUARD != 0 {
        (false, false)
    } else {
        (writable || base == PAGE_READONLY || base == PAGE_EXECUTE_READ, writable)
    }
}

/// The region that a reply of `VirtualQuery` describes. A failed query and a
/// region that leaves the address space give none.
pub open spec fn described(info: Option<RegionInfo>) -> Option<Region> {
    match info {
        None => None,
        Some(info) => if info.base + info.size > usize::MAX {
            None
        } else {
            let rights = if info.state == MEM_COMMIT {
                access_rights(info.protect)
            } else {
                (false, false)
            };
            Some(
                Region {
                    start: info.base,
                    end: (info.base + info.size) as usize,
                    readable: rights.0,
                    writable: rights.1,
                },
            )
        },
    }
}

/// A change of the memory of the game that is still to be carried out.
pub struct Store {
    pub addr: usize,
    pub bytes: Vec<u8>,
}

impl View for Store {
    type V = Span;

    open spec fn view(&self) -> Span {
        Span { start: self.addr as int, bytes: self.bytes@ }
    }
}

/// The picture of the address space.
pub struct Memory {
    regions: Vec<Region>,
    frames: u32,
    replies: Vec<Reply>,
    chunks: Vec<Chunk>,
    stores: Vec<Store>,
}

impl View for Memory {
    type V = Image;

    closed spec fn view(&self) -> Image {
        Image {
            regions: self.regions@,
            replies: self.replies@,
            chunks: self.chunks@.map_values(|c: Chunk| c@),
        }
    }
}

impl Memory {
    /// Frames since the region map was last dropped.
    pub closed spec fn age(&self) -> int {
        self.frames as int
    }

    /// The changes that are still to be carried out, oldest first.
    pub closed spec fn pending(&self) -> Seq<Span> {
        self.stores@.map_values(|s: Store| s@)
    }

    /// What every picture keeps: the region map is bounded and is dropped before
    /// it gets too old, what may be written may be read, and the bytes are what
    /// they are once the pending changes have been carried out.
    pub open spec fn wf(&self) -> bool {
        &&& self@.regions.len() <= MAX_CACHED_REGIONS
        &&& 0 <= self.age() < CACHE_TTL_FRAMES
        &&& self@.sound()
        &&& self@.shows(self.pending())
    }

    /// A picture that holds nothing yet.
    pub fn new() -> (mem: Memory)
        ensures
            mem.wf(),
            mem@ == (Image { regions: seq![], replies: seq![], chunks: seq![] }),
            mem.age() == 0,
            mem.pending() == Seq::<Span>::empty(),
    {
        Memory {
            regions: Vec::new(),
            frames: 0,
            replies: Vec::new(),
            chunks: Vec::new(),
            stores: Vec::new(),
        }
    }

    /// Takes in the reply to [`Need::Region`].
    pub fn supply_region(&mut self, addr: usize, info: Option<RegionInfo>)
        ensures
            final(self)@ == old(self)@.told(addr, described(info)),
            final(self).age() == old(self).age(),
            final(self).pending() == old(self).pending(),
            old(self).wf() ==> final(self).wf(),
            final(self)@.answers(Need::Region(addr)),
    {
        let region = describe(info);
        if let Some(known) = region {
            if self.regions.len() >= MAX_CACHED_REGIONS {
                self.regions.clear();
            }
            self.regions.push(known);
        }
        self.replies.push(Reply { addr, region });
        proof {
            laws::lemma_described_is_sound(info);
        }
        assert(self@.regions =~= learnt(old(self)@.regions, region));
        assert(self@.replies[old(self)@.replies.len() as int].addr == addr);
        assert(self@.chunks =~= old(self)@.chunks);
    }

    /// Takes in the reply to [`Need::Bytes`]: bytes of the game from `start` on.
    /// The bytes do not have the pending changes yet, so these are laid over them.
    pub fn supply_bytes(&mut self, start: usize, bytes: Vec<u8>)
        ensures
            final(self)@ == (Image {
                chunks: old(self)@.chunks.push(
                    laid(Span { start: start as int, bytes: bytes@ }, old(self).pending()),
                ),
                ..old(self)@
            }),
            final(self).age() == old(self).age(),
            final(self).pending() == old(self).pending(),
            old(self).wf() ==> final(self).wf(),
            forall|addr: usize, len: usize|
                start <= addr && addr + len <= start + bytes@.len()
                    ==> #[trigger] final(self)@.answers(Need::Bytes(addr, len)),
    {
        let ghost span = Span { start: start as int, bytes: bytes@ };
        let ghost stores = self.pending();
        let mut chunk = Chunk { start, bytes };
        assert(stores.take(0) =~= seq![]);
        for i in 0..self.stores.len()
            invariant
                stores == self.stores@.map_values(|s: Store| s@),
                chunk@ == laid(span, stores.take(i as int)),
        {
            assert(stores.take(i + 1).drop_last() =~= stores.take(i as int));
            assert(stores.take(i + 1).last() == self.stores@[i as int]@);
            overlay(&mut chunk, self.stores[i].addr, &self.stores[i].bytes);
        }
        assert(stores.take(stores.len() as int) =~= stores);
        self.chunks.push(chunk);
        assert(self@.chunks =~= old(self)@.chunks.push(laid(span, stores)));
        proof {
            laws::lemma_laid_extent(span, stores);
            laws::lemma_laid_again(span, stores);
        }
        assert forall|addr: usize, len: usize|
            start <= addr && addr + len <= start + bytes@.len() implies #[trigger] self@.answers(
            Need::Bytes(addr, len),
        ) by {
            assert(self@.chunks.last() == laid(span, stores));
        }
    }

    /// Hands out the changes that are to be carried out.
    pub fn take_stores(&mut self) -> (stores: Vec<Store>)
        ensures
            stores@.map_values(|s: Store| s@) == old(self).pending(),
            final(self).pending() == Seq::<Span>::empty(),
            final(self)@ == old(self)@,
            final(self).age() == old(self).age(),
            old(self).wf() ==> final(self).wf(),
    {
        let mut stores: Vec<Store> = Vec::new();
        std::mem::swap(&mut stores, &mut self.stores);
        stores
    }

    /// Ends the call that is under way.
    pub fn conclude(&mut self)
        ensures
            concluded(*old(self), *final(self)),
            old(self).wf() ==> final(self).wf(),
    {
        self.replies.clear();
        self.chunks.clear();
        assert(self@ =~= old(self)@.concluded());
    }

    /// Ends the call that is under way if it has come to its result.
    pub(crate) fn end<T>(&mut self, r: &Fetch<T>)
        ensures
            ended(*old(self), *final(self), *r),
            old(self).wf() ==> final(self).wf(),
    {
        if let Ok(_) = r {
            self.conclude();
        }
    }

    /// Notes a change, and ends the call that asked for it.
    pub(crate) fn store(&mut self, addr: usize, data: Vec<u8>)
        ensures
            written(*old(self), *final(self), addr as int, data@),
            old(self).wf() ==> final(self).wf(),
    {
        let ghost span = Span { start: addr as int, bytes: data@ };
        self.stores.push(Store { addr, bytes: data });
        assert(self.pending() =~= old(self).pending().push(span));
        self.replies.clear();
        self.chunks.clear();
        assert(self@ =~= old(self)@.concluded());
    }
}

/// The call is over, and nothing has been changed.
pub open spec fn concluded(before: Memory, after: Memory) -> bool {
    &&& after@ == before@.concluded()
    &&& after.pending() == before.pending()
    &&& after.age() == before.age()
}

/// The call is over if it has come to its result. As long as something is missing
/// it stays open.
pub open spec fn ended<T>(before: Memory, after: Memory, r: Fetch<T>) -> bool {
    if r is Ok {
        concluded(before, after)
    } else {
        after == before
    }
}

/// The call is over, and `data` is to be stored at `addr`.
pub open spec fn written(before: Memory, after: Memory, addr: int, data: Seq<u8>) -> bool {
    &&& after@ == before@.concluded()
    &&& after.pending() == before.pending().push(Span { start: addr, bytes: data })
    &&& after.age() == before.age()
}

/// What writing `data` to `addr` does: a change is noted where the range may be
/// written, and only there.
pub open spec fn put(
    before: Memory,
    after: Memory,
    r: Fetch<bool>,
    addr: int,
    data: Seq<u8>,
) -> bool {
    &&& r == before@.access(addr, data.len() as int, true)
    &&& if r == Ok::<bool, Need>(true) {
        written(before, after, addr, data)
    } else {
        ended(before, after, r)
    }
}

/// Which of reading and writing a page protection allows.
///
/// A guard page is valid, but the first access to it raises an exception, so it
/// allows neither.
pub fn access_of(protect: u32) -> (r: (bool, bool))
    ensures
        r == access_rights(protect),
{
    if protect & PAGE_GUARD != 0 {
        return (false, false);
    }
    let base: u32 = protect & PROTECTION_MASK;
    let readable = base == PAGE_READONLY || base == PAGE_READWRITE || base == PAGE_WRITECOPY || base
        == PAGE_EXECUTE_READ || base == PAGE_EXECUTE_READWRITE || base == PAGE_EXECUTE_WRITECOPY;
    let writable = base == PAGE_READWRITE || base == PAGE_WRITECOPY || base
        == PAGE_EXECUTE_READWRITE || base == PAGE_EXECUTE_WRITECOPY;
    (readable, writable)
}

/// The region that a reply of `VirtualQuery` describes.
fn describe(info: Option<RegionInfo>) -> (r: Option<Region>)
    ensures
        r == described(info),
{
    let info = match info {
        Some(info) => info,
        None => return None,
    };
    let end: usize = match info.base.checked_add(info.size) {
        Some(end) => end,
        None => return None,
    };
    let (readable, writable) = if info.state == MEM_COMMIT {
        access_of(info.protect)
    } else {
        (false, false)
    };
    Some(Region { start: info.base, end, readable, writable })
}

fn find_region(regions: &Vec<Region>, addr: usize, end: usize) -> (r: Option<Region>)
    ensures
        r == first_holding(regions@, addr as int, end as int),
{
    for i in 0..regions.len()
        invariant
            first_holding(regions@.take(i as int), addr as int, end as int) is None,
    {
        assert(regions@.take(i + 1).drop_last() =~= regions@.take(i as int));
        let region = regions[i];
        if region.start <= addr && end <= region.end {
            proof {
                lemma_first_holding_prefix(
                    regions@.take(i + 1),
                    regions@,
                    addr as int,
                    end as int,
                );
            }
            return Some(region);
        }
    }
    assert(regions@.take(regions@.len() as int) =~= regions@);
    None
}

fn find_reply(replies: &Vec<Reply>, addr: usize) -> (r: Option<Reply>)
    ensures
        r == reply_to(replies@, addr as int),
{
    for i in 0..replies.len()
        invariant
            reply_to(replies@.take(i as int), addr as int) is None,
    {
        assert(replies@.take(i + 1).drop_last() =~= replies@.take(i as int));
        let reply = replies[i];
        if reply.addr == addr {
            proof {
                lemma_reply_to_prefix(replies@.take(i + 1), replies@, addr as int);
            }
            return Some(reply);
        }
    }
    assert(replies@.take(replies@.len() as int) =~= replies@);
    None
}

/// What an earlier region map decides, a longer one decides too.
proof fn lemma_first_holding_prefix(
    regions: Seq<Region>,
    longer: Seq<Region>,
    addr: int,
    end: int,
)
    requires
        regions.is_prefix_of(longer),
        first_holding(regions, addr, end) is Some,
    ensures
        first_holding(longer, addr, end) == first_holding(regions, addr, end),
    decreases longer.len(),
{
    if regions.len() < longer.len() {
        assert(regions.is_prefix_of(longer.drop_last()));
        lemma_first_holding_prefix(regions, longer.drop_last(), addr, end);
    } else {
        assert(regions =~= longer);
    }
}

/// A reply that has been given is not changed by later ones.
proof fn lemma_reply_to_prefix(replies: Seq<Reply>, longer: Seq<Reply>, addr: int)
    requires
        replies.is_prefix_of(longer),
        reply_to(replies, addr) is Some,
    ensures
        reply_to(longer, addr) == reply_to(replies, addr),
    decreases longer.len(),
{
    if replies.len() < longer.len() {
        assert(replies.is_prefix_of(longer.drop_last()));
        lemma_reply_to_prefix(replies, longer.drop_last(), addr);
    } else {
        assert(replies =~= longer);
    }
}

/// Bytes that are known stay what they are when more bytes come in.
proof fn lemma_first_covering_prefix(
    chunks: Seq<Span>,
    longer: Seq<Span>,
    addr: int,
    len: int,
)
    requires
        chunks.is_prefix_of(longer),
        first_covering(chunks, addr, len) is Some,
    ensures
        first_covering(longer, addr, len) == first_covering(chunks, addr, len),
    decreases longer.len(),
{
    if chunks.len() < longer.len() {
        assert(chunks.is_prefix_of(longer.drop_last()));
        lemma_first_covering_prefix(chunks, longer.drop_last(), addr, len);
    } else {
        assert(chunks =~= longer);
    }
}

fn find_bytes(chunks: &Vec<Chunk>, addr: usize, len: usize) -> (r: Option<Vec<u8>>)
    ensures
        r matches Some(b) ==> first_covering(
            chunks@.map_values(|c: Chunk| c@),
            addr as int,
            len as int,
        ) == Some(b@),
        r is None ==> first_covering(
            chunks@.map_values(|c: Chunk| c@),
            addr as int,
            len as int,
        ) is None,
{
    let ghost spans = chunks@.map_values(|c: Chunk| c@);
    for i in 0..chunks.len()
        invariant
            spans == chunks@.map_values(|c: Chunk| c@),
            first_covering(spans.take(i as int), addr as int, len as int) is None,
    {
        assert(spans.take(i + 1).drop_last() =~= spans.take(i as int));
        assert(spans.take(i + 1).last() == chunks@[i as int]@);
        let chunk = &chunks[i];
        if chunk.start <= addr && addr - chunk.start <= chunk.bytes.len() && len
            <= chunk.bytes.len() - (addr - chunk.start) {
            let from: usize = addr - chunk.start;
            let mut bytes: Vec<u8> = Vec::new();
            for k in 0..len
                invariant
                    from + len <= chunk.bytes.len(),
                    bytes@ == chunk.bytes@.subrange(from as int, from + k),
            {
                bytes.push(chunk.bytes[from + k]);
                assert(bytes@ =~= chunk.bytes@.subrange(from as int, from + k + 1));
            }
            proof {
                lemma_first_covering_prefix(spans.take(i + 1), spans, addr as int, len as int);
            }
            return Some(bytes);
        }
    }
    assert(spans.take(spans.len() as int) =~= spans);
    None
}

/// Whether an access to the `len` bytes at `addr` is allowed. A part of a call.
pub fn check(mem: &Memory, addr: usize, len: usize, want_write: bool) -> (r: Fetch<bool>)
    ensures
        r == mem@.access(addr as int, len as int, want_write),
{
    if addr < MIN_VALID_ADDRESS || len == 0 {
        return Ok(false);
    }
    let end: usize = match addr.checked_add(len) {
        Some(end) => end,
        None => return Ok(false),
    };
    if let Some(region) = find_region(&mem.regions, addr, end) {
        return Ok(
            if want_write {
                region.writable
            } else {
                region.readable
            },
        );
    }
    match find_reply(&mem.replies, addr) {
        Some(reply) => match reply.region {
            Some(region) => Ok(
                end <= region.end && if want_write {
                    region.writable
                } else {
                    region.readable
                },
            ),
            None => Ok(false),
        },
        None => Err(Need::Region(addr)),
    }
}

/// Whether the `len` bytes at `addr` may be read.
pub fn is_readable(mem: &mut Memory, addr: usize, len: usize) -> (r: Fetch<bool>)
    ensures
        r == old(mem)@.access(addr as int, len as int, false),
        ended(*old(mem), *final(mem), r),
{
    let r = check(mem, addr, len, false);
    mem.end(&r);
    r
}

/// Whether the `len` bytes at `addr` may be written.
pub fn is_writable(mem: &mut Memory, addr: usize, len: usize) -> (r: Fetch<bool>)
    ensures
        r == old(mem)@.access(addr as int, len as int, true),
        ended(*old(mem), *final(mem), r),
{
    let r = check(mem, addr, len, true);
    mem.end(&r);
    r
}

/// The result of a read in spec code.
pub open spec fn bytes_view(r: Fetch<Option<Vec<u8>>>) -> Fetch<Option<Seq<u8>>> {
    match r {
        Err(need) => Err(need),
        Ok(None) => Ok(None),
        Ok(Some(b)) => Ok(Some(b@)),
    }
}

/// Reads `len` bytes at `addr`, if they may be read.
pub fn read(mem: &mut Memory, addr: usize, len: usize) -> (r: Fetch<Option<Vec<u8>>>)
    ensures
        bytes_view(r) == old(mem)@.read(addr as int, len as int),
        ended(*old(mem), *final(mem), r),
{
    let r = peek(mem, addr, len);
    mem.end(&r);
    r
}

/// The `len` bytes at `addr`, if they may be read.
pub fn peek(mem: &Memory, addr: usize, len: usize) -> (r: Fetch<Option<Vec<u8>>>)
    ensures
        bytes_view(r) == mem@.read(addr as int, len as int),
{
    match check(mem, addr, len, false) {
        Err(need) => Err(need),
        Ok(false) => Ok(None),
        Ok(true) => match find_bytes(&mem.chunks, addr, len) {
            Some(bytes) => Ok(Some(bytes)),
            None => Err(Need::Bytes(addr, len)),
        },
    }
}

/// Reads `len` bytes of a field. A field beyond the address space is not
/// readable.
pub fn read_field(mem: &Memory, addr: usize, offset: usize, len: usize) -> (r: Fetch<
    Option<Vec<u8>>,
>)
    ensures
        bytes_view(r) == mem@.read(addr + offset, len as int),
{
    match addr.checked_add(offset) {
        Some(at) => peek(mem, at, len),
        None => Ok(None),
    }
}

/// Reads a byte field.
pub fn read_byte(mem: &Memory, addr: usize, offset: usize) -> (r: Fetch<Option<u8>>)
    ensures
        r == mem@.byte(addr + offset),
{
    match read_field(mem, addr, offset, 1) {
        Err(need) => Err(need),
        Ok(None) => Ok(None),
        Ok(Some(b)) => {
            proof {
                lemma_read_len(mem@, addr + offset, 1);
            }
            Ok(Some(b[0]))
        },
    }
}

/// The number that four bytes stand for, low byte first.
pub fn join(b: &Vec<u8>, at: usize) -> (v: u32)
    requires
        at + 4 <= b@.len(),
    ensures
        v == le_u32(b@.subrange(at as int, at + 4)),
{
    assert(b.len() <= usize::MAX);
    b[at] as u32 + 0x100 * (b[at + 1] as u32) + 0x1_0000 * (b[at + 2] as u32) + 0x100_0000 * (b[at
        + 3] as u32)
}

/// The four bytes of a number, low byte first.
pub fn split(v: u32) -> (b: [u8; 4])
    ensures
        b@ == le_bytes(v),
{
    let b = [
        (v % 0x100) as u8,
        (v / 0x100 % 0x100) as u8,
        (v / 0x1_0000 % 0x100) as u8,
        (v / 0x100_0000) as u8,
    ];
    assert(b@ =~= le_bytes(v));
    b
}

/// The signed number with the same bits.
pub fn to_signed(v: u32) -> (r: i32)
    ensures
        r == signed(v),
{
    if v < 0x8000_0000 {
        v as i32
    } else {
        (v as i64 - 0x1_0000_0000) as i32
    }
}

/// Reads a 32-bit field.
pub fn read_word(mem: &Memory, addr: usize, offset: usize) -> (r: Fetch<Option<u32>>)
    ensures
        r == mem@.word(addr + offset),
{
    match read_field(mem, addr, offset, 4) {
        Err(need) => Err(need),
        Ok(None) => Ok(None),
        Ok(Some(b)) => {
            proof {
                lemma_read_len(mem@, addr + offset, 4);
                assert(b@.subrange(0, 4) =~= b@);
            }
            Ok(Some(join(&b, 0)))
        },
    }
}

/// Reads a signed 32-bit field.
pub fn read_int(mem: &Memory, addr: usize, offset: usize) -> (r: Fetch<Option<i32>>)
    ensures
        r == mem@.int32(addr + offset),
{
    match read_word(mem, addr, offset) {
        Err(need) => Err(need),
        Ok(None) => Ok(None),
        Ok(Some(v)) => Ok(Some(to_signed(v))),
    }
}

/// Reads a pointer field.
pub fn read_link(mem: &Memory, addr: usize, offset: usize) -> (r: Fetch<Option<usize>>)
    ensures
        r == mem@.ptr(addr + offset),
{
    match read_word(mem, addr, offset) {
        Err(need) => Err(need),
        Ok(None) => Ok(None),
        Ok(Some(v)) => Ok(Some(v as usize)),
    }
}

/// Reads a pointer of the game.
pub fn read_ptr(mem: &mut Memory, addr: usize) -> (r: Fetch<Option<usize>>)
    ensures
        r == old(mem)@.ptr(addr as int),
        ended(*old(mem), *final(mem), r),
{
    let r = read_link(mem, addr, 0);
    mem.end(&r);
    r
}

/// A read gives exactly as many bytes as were asked for.
pub(crate) proof fn lemma_covering_len(chunks: Seq<Span>, addr: int, len: int)
    requires
        len >= 0,
    ensures
        first_covering(chunks, addr, len) matches Some(b) ==> b.len() == len,
    decreases chunks.len(),
{
    if chunks.len() > 0 {
        lemma_covering_len(chunks.drop_last(), addr, len);
    }
}

/// A read gives exactly as many bytes as were asked for.
pub proof fn lemma_read_len(image: Image, addr: int, len: int)
    ensures
        image.read(addr, len) matches Ok(Some(b)) ==> b.len() == len,
{
    if len > 0 {
        lemma_covering_len(image.chunks, addr, len);
    }
}

/// Reads a `System.String`.
///
/// A length that no name has means that something else lives at the address.
pub fn read_dotnet_string(mem: &mut Memory, addr: usize) -> (r: Fetch<Option<String>>)
    ensures
        text_view(r) == old(mem)@.dotnet_string(addr as int),
        ended(*old(mem), *final(mem), r),
{
    let r = peek_dotnet_string(mem, addr);
    mem.end(&r);
    r
}

/// The `System.String` at `addr`, if one can live there.
pub fn peek_dotnet_string(mem: &Memory, addr: usize) -> (r: Fetch<Option<String>>)
    ensures
        text_view(r) == mem@.dotnet_string(addr as int),
{
    let len: i32 = match read_int(mem, addr, string::LENGTH) {
        Err(need) => return Err(need),
        Ok(None) => return Ok(None),
        Ok(Some(len)) => len,
    };
    if len <= 0 || len > string::MAX_CHARS {
        return Ok(None);
    }
    let count: usize = len as usize;
    match read_field(mem, addr, string::FIRST_CHAR, 2 * count) {
        Err(need) => Err(need),
        Ok(None) => Ok(None),
        Ok(Some(bytes)) => {
            proof {
                lemma_read_len(mem@, addr + string::FIRST_CHAR, 2 * len);
            }
            let mut units: Vec<u16> = Vec::new();
            for i in 0..count
                invariant
                    0 < count <= 256,
                    bytes@.len() == 2 * count,
                    units@ == units_of(bytes@).take(i as int),
            {
                let unit: u16 = bytes[2 * i] as u16 + 0x100 * (bytes[2 * i + 1] as u16);
                units.push(unit);
                assert(units@ =~= units_of(bytes@).take(i + 1));
            }
            assert(units@ =~= units_of(bytes@));
            Ok(Some(utf16::decode_lossy(&units)))
        },
    }
}

/// The result of reading a string in spec code.
pub open spec fn text_view(r: Fetch<Option<String>>) -> Fetch<Option<Seq<char>>> {
    match r {
        Err(need) => Err(need),
        Ok(None) => Ok(None),
        Ok(Some(text)) => Ok(Some(text@)),
    }
}

fn overlay(chunk: &mut Chunk, addr: usize, data: &Vec<u8>)
    ensures
        final(chunk)@ == old(chunk)@.overlaid(addr as int, data@),
{
    let ghost before = chunk.bytes@;
    for k in 0..data.len()
        invariant
            chunk.start == old(chunk).start,
            before == old(chunk).bytes@,
            chunk.bytes@.len() == before.len(),
            forall|j: int|
                0 <= j < before.len() ==> #[trigger] chunk.bytes@[j] == (if addr <= chunk.start + j
                    < addr + k {
                    data@[chunk.start + j - addr]
                } else {
                    before[j]
                }),
    {
        if addr >= chunk.start {
            let from: usize = addr - chunk.start;
            if from < chunk.bytes.len() && k < chunk.bytes.len() - from {
                chunk.bytes.set(from + k, data[k]);
            }
        } else {
            let skipped: usize = chunk.start - addr;
            if k >= skipped && k - skipped < chunk.bytes.len() {
                chunk.bytes.set(k - skipped, data[k]);
            }
        }
    }
    assert(chunk@ =~= old(chunk)@.overlaid(addr as int, data@));
}

/// Stores bytes at `addr`, if that range may be written.
///
/// `Ok(false)` tells the caller that the object is gone.
pub fn write(mem: &mut Memory, addr: usize, data: Vec<u8>) -> (r: Fetch<bool>)
    ensures
        put(*old(mem), *final(mem), r, addr as int, data@),
{
    match check(mem, addr, data.len(), true) {
        Err(need) => Err(need),
        Ok(false) => {
            mem.conclude();
            Ok(false)
        },
        Ok(true) => {
            mem.store(addr, data);
            Ok(true)
        },
    }
}

/// Starts a frame, and drops the region map when it has become stale.
pub fn tick(mem: &mut Memory)
    ensures
        final(mem)@ == (if old(mem).age() + 1 >= CACHE_TTL_FRAMES {
            Image { regions: seq![], replies: seq![], chunks: seq![] }
        } else {
            old(mem)@.concluded()
        }),
        final(mem).age() == (if old(mem).age() + 1 >= CACHE_TTL_FRAMES {
            0
        } else {
            old(mem).age() + 1
        }),
        final(mem).pending() == old(mem).pending(),
        old(mem).wf() ==> final(mem).wf(),
{
    if mem.frames >= CACHE_TTL_FRAMES - 1 {
        mem.frames = 0;
        mem.regions.clear();
    } else {
        mem.frames = mem.frames + 1;
    }
    mem.replies.clear();
    mem.chunks.clear();
    assert(mem@.regions =~= (if old(mem).age() + 1 >= CACHE_TTL_FRAMES {
        seq![]
    } else {
        old(mem)@.regions
    }));
    assert(mem@.chunks =~= seq![]);
}

/// Drops everything that is known of the address space.
pub fn invalidate(mem: &mut Memory)
    ensures
        final(mem)@ == (Image { regions: seq![], replies: seq![], chunks: seq![] }),
        final(mem).age() == 0,
        final(mem).pending() == old(mem).pending(),
        final(mem).wf(),
{
    mem.frames = 0;
    mem.regions.clear();
    mem.replies.clear();
    mem.chunks.clear();
    assert(mem@.chunks =~= seq![]);
}

} // verus!
