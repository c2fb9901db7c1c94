//! Properties of the picture of the address space.
use vstd::prelude::*;

pub mod values;

use crate::mem;
use crate::mem::Fetch;
use crate::mem::Image;
use crate::mem::Memory;
use crate::mem::Need;
use crate::mem::Region;
use crate::mem::Reply;
use crate::mem::Span;
use crate::mem::{CACHE_TTL_FRAMES, MAX_CACHED_REGIONS};
use crate::offsets::string;
use crate::offsets::MIN_VALID_ADDRESS;
use crate::win32::RegionInfo;
use crate::win32::{MEM_COMMIT, PAGE_GUARD};

verus! {

/// The process at one moment, with the pending changes carried out.
#[verifier::ext_equal]
pub struct Process {
    /// What the system says of an address.
    pub regions: spec_fn(int) -> Option<Region>,
    pub bytes: spec_fn(int) -> u8,
}

impl Process {
    /// The region that holds an address, if there is one.
    pub open spec fn region_at(self, addr: int) -> Option<Region> {
        (self.regions)(addr)
    }

    /// The byte at an address.
    pub open spec fn byte_at(self, addr: int) -> u8 {
        (self.bytes)(addr)
    }

    /// All addresses of a region lie in that region.
    pub open spec fn consistent(self) -> bool {
        forall|a: int, b: int|
            #![trigger self.region_at(a), self.region_at(b)]
            self.region_at(a) matches Some(r) ==> (r.start <= b < r.end ==> self.region_at(b)
                == Some(r))
    }

    /// Whether an access to the `len` bytes at `addr` is allowed.
    pub open spec fn allows(self, addr: int, len: int, want_write: bool) -> bool {
        &&& MIN_VALID_ADDRESS <= addr
        &&& len > 0
        &&& addr + len <= usize::MAX
        &&& self.region_at(addr) matches Some(r) && addr + len <= r.end && r.grants(want_write)
    }

    /// The `len` bytes at `addr`, if they may be read.
    pub open spec fn contents(self, addr: int, len: int) -> Option<Seq<u8>> {
        if self.allows(addr, len, false) {
            Some(Seq::new(len as nat, |i: int| self.byte_at(addr + i)))
        } else {
            None
        }
    }
}

/// What the image holds is true of the process.
pub open spec fn true_of(image: Image, process: Process) -> bool {
    &&& forall|i: int, b: int|
        #![trigger image.regions[i], process.region_at(b)]
        0 <= i < image.regions.len() && image.regions[i].start <= b < image.regions[i].end
            ==> process.region_at(b) == Some(image.regions[i])
    &&& forall|i: int|
        0 <= i < image.replies.len() ==> (#[trigger] image.replies[i]).region == process.region_at(
            image.replies[i].addr as int,
        )
    &&& forall|i: int, k: int|
        0 <= i < image.chunks.len() && 0 <= k < image.chunks[i].bytes.len()
            ==> #[trigger] image.chunks[i].bytes[k] == process.byte_at(image.chunks[i].start + k)
}

/// Two images show the same process at the same moment, each as far as it goes.
pub open spec fn alike(image: Image, other: Image) -> bool {
    exists|process: Process| #[trigger] true_of(image, process) && true_of(other, process)
}

/// How a result relates to the result on another image of the same process: an
/// answer is never contradicted, and a need is always for something that was not
/// supplied in this call yet. Bytes are only ever asked for where the whole range
/// is known to be readable.
pub open spec fn settled<T>(image: Image, result: Fetch<T>, other: Fetch<T>) -> bool {
    match result {
        Ok(value) => other matches Ok(same) ==> same == value,
        Err(need) => {
            &&& !image.answers(need)
            &&& need matches Need::Bytes(addr, len) ==> image.access(addr as int, len as int, false)
                == Ok::<bool, Need>(true)
        },
    }
}

proof fn lemma_reply_to(replies: Seq<Reply>, addr: int)
    ensures
        match mem::reply_to(replies, addr) {
            Some(reply) => reply.addr == addr && replies.contains(reply),
            None => forall|i: int| 0 <= i < replies.len() ==> (#[trigger] replies[i]).addr != addr,
        },
    decreases replies.len(),
{
    if replies.len() > 0 {
        let head = replies.drop_last();
        lemma_reply_to(head, addr);
        match mem::reply_to(head, addr) {
            Some(reply) => {
                let i = choose|i: int| 0 <= i < head.len() && head[i] == reply;
                assert(replies[i] == reply);
            },
            None => {
                assert forall|i: int|
                    0 <= i < replies.len() && replies.last().addr != addr implies (
                #[trigger] replies[i]).addr != addr by {
                    if i < head.len() {
                        assert(head[i] == replies[i]);
                    }
                }
                assert(replies[replies.len() - 1] == replies.last());
            },
        }
    }
}

proof fn lemma_first_holding(regions: Seq<Region>, addr: int, end: int)
    ensures
        mem::first_holding(regions, addr, end) matches Some(r) ==> r.holds(addr, end)
            && regions.contains(r),
    decreases regions.len(),
{
    if regions.len() > 0 {
        let head = regions.drop_last();
        lemma_first_holding(head, addr, end);
        match mem::first_holding(head, addr, end) {
            Some(r) => {
                let i = choose|i: int| 0 <= i < head.len() && head[i] == r;
                assert(regions[i] == r);
            },
            None => {
                assert(regions[regions.len() - 1] == regions.last());
            },
        }
    }
}

/// An answer about an access is the one that the process gives, whatever part of
/// it the image shows.
pub proof fn law_access_is_true(
    image: Image,
    process: Process,
    addr: int,
    len: int,
    want_write: bool,
)
    requires
        true_of(image, process),
    ensures
        image.access(addr, len, want_write) matches Ok(r) ==> r == process.allows(
            addr,
            len,
            want_write,
        ),
{
    lemma_first_holding(image.regions, addr, addr + len);
    lemma_reply_to(image.replies, addr);
    if MIN_VALID_ADDRESS <= addr && len > 0 && addr + len <= usize::MAX {
        if let Some(r) = mem::first_holding(image.regions, addr, addr + len) {
            let i = choose|i: int| 0 <= i < image.regions.len() && image.regions[i] == r;
            assert(process.region_at(addr) == Some(image.regions[i]));
        } else if let Some(reply) = mem::reply_to(image.replies, addr) {
            let i = choose|i: int| 0 <= i < image.replies.len() && image.replies[i] == reply;
            assert(image.replies[i].region == process.region_at(addr));
        }
    }
}

/// What is read is what the process holds.
pub proof fn law_read_is_true(image: Image, process: Process, addr: int, len: int)
    requires
        true_of(image, process),
    ensures
        image.read(addr, len) matches Ok(r) ==> r == process.contents(addr, len),
{
    law_access_is_true(image, process, addr, len, false);
    if let Ok(Some(b)) = image.read(addr, len) {
        let j = lemma_covering_chunk(image.chunks, addr, len);
        let chunk = image.chunks[j];
        assert forall|i: int| 0 <= i < len implies b[i] == process.byte_at(addr + i) by {
            assert(chunk.bytes[addr - chunk.start + i] == process.byte_at(
                chunk.start + (addr - chunk.start + i),
            ));
        }
        assert(b =~= process.contents(addr, len)->0);
    }
}

/// True replies of the system and true bytes keep an image true.
pub proof fn law_supplies_keep_truth(
    image: Image,
    process: Process,
    addr: usize,
    region: Option<Region>,
    span: Span,
)
    requires
        true_of(image, process),
        process.consistent(),
    ensures
        region == process.region_at(addr as int) ==> true_of(image.told(addr, region), process),
        (forall|k: int|
            0 <= k < span.bytes.len() ==> #[trigger] span.bytes[k] == process.byte_at(
                span.start + k,
            )) ==> true_of(Image { chunks: image.chunks.push(span), ..image }, process),
        true_of(image.concluded(), process),
{
    if region == process.region_at(addr as int) {
        let later = image.told(addr, region);
        assert forall|i: int, b: int|
            #![trigger later.regions[i], process.region_at(b)]
            0 <= i < later.regions.len() && later.regions[i].start <= b
                < later.regions[i].end implies process.region_at(b) == Some(later.regions[i]) by {
            if i < image.regions.len() && later.regions[i] == image.regions[i] {
                assert(process.region_at(b) == Some(image.regions[i]));
            } else {
                assert(Some(later.regions[i]) == process.region_at(addr as int));
            }
        }
    }
}

/// What was supplied in a call stays supplied: nothing is asked for twice.
pub proof fn law_answers_accumulate(
    image: Image,
    need: Need,
    addr: usize,
    region: Option<Region>,
    span: Span,
)
    requires
        image.answers(need),
    ensures
        image.told(addr, region).answers(need),
        (Image { chunks: image.chunks.push(span), ..image }).answers(need),
{
    let told = image.told(addr, region);
    let longer = Image { chunks: image.chunks.push(span), ..image };
    assert(longer.chunks.drop_last() =~= image.chunks);
    if let Need::Region(at) = need {
        let i = choose|i: int|
            0 <= i < image.replies.len() && (#[trigger] image.replies[i]).addr == at;
        assert(told.replies[i].addr == at);
        assert(longer.replies[i].addr == at);
    }
}

/// No two images of one process disagree about an access, and a region is only
/// asked for when no reply was given for its address yet.
pub proof fn law_access_settled(
    image: Image,
    later: Image,
    addr: int,
    len: int,
    want_write: bool,
)
    requires
        alike(image, later),
    ensures
        settled(image, image.access(addr, len, want_write), later.access(addr, len, want_write)),
{
    let process = choose|process: Process|
        #[trigger] true_of(image, process) && true_of(later, process);
    law_access_is_true(image, process, addr, len, want_write);
    law_access_is_true(later, process, addr, len, want_write);
    lemma_reply_to(image.replies, addr);
}

/// No two images of one process disagree about what is read, and only unknown
/// bytes are asked for.
pub proof fn law_read_settled(image: Image, later: Image, addr: int, len: int)
    requires
        alike(image, later),
    ensures
        settled(image, image.read(addr, len), later.read(addr, len)),
        settled(image, image.byte(addr), later.byte(addr)),
        settled(image, image.word(addr), later.word(addr)),
        settled(image, image.int32(addr), later.int32(addr)),
        settled(image, image.ptr(addr), later.ptr(addr)),
{
    lemma_read_settled(image, later, addr, len);
    lemma_read_settled(image, later, addr, 1);
    lemma_read_settled(image, later, addr, 4);
}

proof fn lemma_read_settled(image: Image, later: Image, addr: int, len: int)
    requires
        alike(image, later),
    ensures
        settled(image, image.read(addr, len), later.read(addr, len)),
{
    let process = choose|process: Process|
        #[trigger] true_of(image, process) && true_of(later, process);
    law_access_settled(image, later, addr, len, false);
    law_read_is_true(image, process, addr, len);
    law_read_is_true(later, process, addr, len);
}

/// The same for strings.
pub proof fn law_string_settled(image: Image, later: Image, addr: int)
    requires
        alike(image, later),
    ensures
        settled(image, image.dotnet_string(addr), later.dotnet_string(addr)),
{
    law_read_settled(image, later, addr + string::LENGTH, 4);
    if let Ok(Some(len)) = image.int32(addr + string::LENGTH) {
        law_read_settled(image, later, addr + string::FIRST_CHAR, 2 * len);
    }
}

/// The reply to a region need settles the access that asked for it.
pub proof fn law_reply_settles_access(
    image: Image,
    addr: int,
    len: int,
    want_write: bool,
    info: Option<RegionInfo>,
)
    requires
        image.access(addr, len, want_write) == Err::<bool, Need>(Need::Region(addr as usize)),
    ensures
        ({
            let region = mem::described(info);
            let reply = Reply { addr: addr as usize, region };
            image.told(addr as usize, region).access(addr, len, want_write) == Ok::<bool, Need>(
                reply.verdict(addr + len, want_write),
            )
        }),
{
    let region = mem::described(info);
    let later = image.told(addr as usize, region);
    assert(later.replies.drop_last() =~= image.replies);
    if let Some(r) = region {
        assert(later.regions.last() == r);
        if image.regions.len() < MAX_CACHED_REGIONS {
            assert(later.regions.drop_last() =~= image.regions);
        } else {
            assert(later.regions.drop_last() =~= seq![]);
        }
        assert(mem::first_holding(later.regions.drop_last(), addr, addr + len) is None);
    }
}

/// A full region map is empty but for the new region as soon as one is learnt:
/// whatever it decided before, the system is asked again.
pub proof fn law_full_map_starts_anew(
    image: Image,
    at: usize,
    region: Region,
    addr: int,
    len: int,
    want_write: bool,
)
    requires
        image.regions.len() >= MAX_CACHED_REGIONS,
        !region.holds(addr, addr + len),
        MIN_VALID_ADDRESS <= addr,
        len > 0,
        addr + len <= usize::MAX,
        addr != at,
        !image.answers(Need::Region(addr as usize)),
    ensures
        image.told(at, Some(region)).regions == seq![region],
        image.told(at, Some(region)).access(addr, len, want_write) == Err::<bool, Need>(
            Need::Region(addr as usize),
        ),
{
    let later = image.told(at, Some(region));
    assert(later.regions =~= seq![region]);
    assert(later.regions.drop_last() =~= seq![]);
    assert(mem::first_holding(later.regions.drop_last(), addr, addr + len) is None);
    lemma_reply_to(later.replies, addr);
    if let Some(reply) = mem::reply_to(later.replies, addr) {
        let i = choose|i: int| 0 <= i < later.replies.len() && later.replies[i] == reply;
        assert(i < image.replies.len());
        assert(image.replies[i].addr == addr as usize);
    }
}

/// When a call is over only the region map is left of it: what the map does not
/// cover is asked for again, and so are all bytes.
pub proof fn law_nothing_outlives_a_call(image: Image, addr: int, len: int, want_write: bool)
    requires
        MIN_VALID_ADDRESS <= addr,
        len > 0,
        addr + len <= usize::MAX,
    ensures
        image.concluded().access(addr, len, want_write) == (match mem::first_holding(
            image.regions,
            addr,
            addr + len,
        ) {
            Some(r) => Ok::<bool, Need>(r.grants(want_write)),
            None => Err(Need::Region(addr as usize)),
        }),
        image.concluded().read(addr, len) !is Ok || image.concluded().read(addr, len) == Ok::<
            Option<Seq<u8>>,
            Need,
        >(None),
{
}

/// The byte at a place after stores have been carried out on it.
pub open spec fn byte_under(stores: Seq<Span>, at: int, byte: u8) -> u8
    decreases stores.len(),
{
    if stores.len() == 0 {
        byte
    } else if stores.last().covers(at, 1) {
        stores.last().bytes[at - stores.last().start]
    } else {
        byte_under(stores.drop_last(), at, byte)
    }
}

/// Stores change no span's extent, and each byte as far as it is stored to.
pub(crate) proof fn lemma_laid_extent(span: Span, stores: Seq<Span>)
    ensures
        mem::laid(span, stores).start == span.start,
        mem::laid(span, stores).bytes.len() == span.bytes.len(),
        forall|i: int|
            0 <= i < span.bytes.len() ==> #[trigger] mem::laid(span, stores).bytes[i] == byte_under(
                stores,
                span.start + i,
                span.bytes[i],
            ),
    decreases stores.len(),
{
    if stores.len() > 0 {
        lemma_laid_extent(span, stores.drop_last());
    }
}

/// What was stored to is stored to, whatever the byte was.
proof fn lemma_byte_again(stores: Seq<Span>, at: int, byte: u8)
    ensures
        byte_under(stores, at, byte_under(stores, at, byte)) == byte_under(stores, at, byte),
    decreases stores.len(),
{
    if stores.len() > 0 {
        lemma_byte_again(stores.drop_last(), at, byte);
    }
}

/// Carrying out stores a second time changes nothing.
pub(crate) proof fn lemma_laid_again(span: Span, stores: Seq<Span>)
    ensures
        mem::laid(mem::laid(span, stores), stores) == mem::laid(span, stores),
{
    let once = mem::laid(span, stores);
    let twice = mem::laid(once, stores);
    lemma_laid_extent(span, stores);
    lemma_laid_extent(once, stores);
    assert forall|i: int| 0 <= i < span.bytes.len() implies once.bytes[i] == twice.bytes[i] by {
        lemma_byte_again(stores, span.start + i, span.bytes[i]);
    }
    assert(twice =~= once);
}

/// A picture that is in order stays so when a call ends, with a change or without.
pub proof fn law_calls_keep_order(before: Memory, after: Memory, addr: int, data: Seq<u8>)
    requires
        before.wf(),
        mem::concluded(before, after) || mem::written(before, after, addr, data),
    ensures
        after.wf(),
{
}

/// A store that no later one touches is what stands at its place.
proof fn lemma_byte_of_store(stores: Seq<Span>, k: int, at: int, byte: u8)
    requires
        0 <= k < stores.len(),
        stores[k].covers(at, 1),
        forall|j: int| k < j < stores.len() ==> !(#[trigger] stores[j]).covers(at, 1),
    ensures
        byte_under(stores, at, byte) == stores[k].bytes[at - stores[k].start],
    decreases stores.len(),
{
    if k < stores.len() - 1 {
        assert(!stores[stores.len() - 1].covers(at, 1));
        assert forall|j: int| k < j < stores.drop_last().len() implies !(
        #[trigger] stores.drop_last()[j]).covers(at, 1) by {
            assert(stores.drop_last()[j] == stores[j]);
        }
        lemma_byte_of_store(stores.drop_last(), k, at, byte);
    }
}

/// Bytes that are found come out of a chunk that has them.
proof fn lemma_covering_chunk(chunks: Seq<Span>, addr: int, len: int) -> (j: int)
    requires
        mem::first_covering(chunks, addr, len) is Some,
    ensures
        0 <= j < chunks.len(),
        chunks[j].covers(addr, len),
        mem::first_covering(chunks, addr, len) == Some(chunks[j].slice(addr, len)),
    decreases chunks.len(),
{
    if mem::first_covering(chunks.drop_last(), addr, len) is Some {
        let j = lemma_covering_chunk(chunks.drop_last(), addr, len);
        assert(chunks.drop_last()[j] == chunks[j]);
        j
    } else {
        chunks.len() - 1
    }
}

/// As long as a change is pending, a read of its range gives what was stored,
/// whether the bytes were fetched before the change or come in later, unless a
/// later change touches the range too.
pub proof fn law_pending_store_is_read(m: Memory, k: int)
    requires
        m.wf(),
        0 <= k < m.pending().len(),
        forall|j: int|
            k < j < m.pending().len() ==> {
                let later = #[trigger] m.pending()[j];
                let store = m.pending()[k];
                later.start + later.bytes.len() <= store.start || store.start + store.bytes.len()
                    <= later.start
            },
    ensures
        ({
            let store = m.pending()[k];
            m@.read(store.start, store.bytes.len() as int) matches Ok(Some(b)) ==> b == store.bytes
        }),
{
    let stores = m.pending();
    let store = stores[k];
    let len = store.bytes.len() as int;
    if let Ok(Some(b)) = m@.read(store.start, len) {
        let j = lemma_covering_chunk(m@.chunks, store.start, len);
        let chunk = m@.chunks[j];
        assert(mem::laid(chunk, stores) == chunk);
        lemma_laid_extent(chunk, stores);
        assert forall|i: int| 0 <= i < len implies b[i] == store.bytes[i] by {
            let at = store.start + i;
            let place = at - chunk.start;
            assert forall|n: int| k < n < stores.len() implies !(#[trigger] stores[n]).covers(
                at,
                1,
            ) by {}
            lemma_byte_of_store(stores, k, at, chunk.bytes[place]);
            assert(mem::laid(chunk, stores).bytes[place] == byte_under(
                stores,
                chunk.start + place,
                chunk.bytes[place],
            ));
        }
        assert(b =~= store.bytes);
    }
}

/// What was written is read back. Whatever came in since, as long as the change is
/// pending a read of the range gives what was written and nothing else; and where
/// the range may still be written, it can be read.
pub proof fn law_read_after_write(
    before: Memory,
    after: Memory,
    later: Memory,
    addr: int,
    data: Seq<u8>,
)
    requires
        mem::put(before, after, Ok(true), addr, data),
        later.pending() == after.pending(),
        later.wf(),
    ensures
        later@.read(addr, data.len() as int) matches Ok(Some(b)) ==> b == data,
        later@.access(addr, data.len() as int, true) == Ok::<bool, Need>(true) ==> (later@.read(
            addr,
            data.len() as int,
        ) matches Ok(r) ==> r == Some(data)),
{
    law_unreadable_is_unwritable(later, addr, data.len() as int);
    law_pending_store_is_read(later, later.pending().len() - 1);
}

/// A range that may not be read may not be written.
pub proof fn law_unreadable_is_unwritable(m: Memory, addr: int, len: int)
    requires
        m.wf(),
    ensures
        m@.access(addr, len, false) == Ok::<bool, Need>(false) ==> m@.access(addr, len, true)
            == Ok::<bool, Need>(false),
{
    lemma_first_holding(m@.regions, addr, addr + len);
    lemma_reply_to(m@.replies, addr);
    if let Some(r) = mem::first_holding(m@.regions, addr, addr + len) {
        let i = choose|i: int| 0 <= i < m@.regions.len() && m@.regions[i] == r;
        assert(m@.regions[i].sound());
    } else if let Some(reply) = mem::reply_to(m@.replies, addr) {
        let i = choose|i: int| 0 <= i < m@.replies.len() && m@.replies[i] == reply;
        assert(m@.replies[i].region matches Some(r) ==> r.sound());
    }
}

/// A reply of the system gives a sound region.
pub(crate) proof fn lemma_described_is_sound(info: Option<RegionInfo>)
    ensures
        mem::described(info) matches Some(r) ==> r.sound(),
{
    if let Some(info) = info {
        law_rights(info);
    }
}

/// A write changes nothing outside the range that it stores to.
pub proof fn law_write_leaves_the_rest(
    span: Span,
    stores: Seq<Span>,
    store: Span,
    addr: int,
    len: int,
)
    requires
        addr + len <= store.start || store.start + store.bytes.len() <= addr,
        span.covers(addr, len),
        len >= 0,
    ensures
        mem::laid(span, stores.push(store)).slice(addr, len) == mem::laid(span, stores).slice(
            addr,
            len,
        ),
{
    assert(stores.push(store).drop_last() =~= stores);
    lemma_laid_extent(span, stores);
    assert(mem::laid(span, stores.push(store)).slice(addr, len) =~= mem::laid(span, stores).slice(
        addr,
        len,
    ));
}

/// A number survives being taken apart into bytes and put together again.
pub proof fn law_word_round_trip(v: u32)
    ensures
        mem::le_u32(mem::le_bytes(v)) == v,
        mem::le_bytes(v).len() == 4,
{
    let n = v as int;
    assert(n == n % 0x100 + 0x100 * (n / 0x100 % 0x100) + 0x1_0000 * (n / 0x1_0000 % 0x100)
        + 0x100_0000 * (n / 0x100_0000)) by (nonlinear_arith);
}

/// The region map never outgrows its bound.
pub proof fn law_region_map_is_bounded(regions: Seq<Region>, region: Option<Region>)
    requires
        regions.len() <= MAX_CACHED_REGIONS,
    ensures
        mem::learnt(regions, region).len() <= MAX_CACHED_REGIONS,
{
}

/// The age of the region map after a number of frames.
pub open spec fn age_after(age: int, frames: nat) -> int
    decreases frames,
{
    if frames == 0 {
        age
    } else {
        let before = age_after(age, (frames - 1) as nat);
        if before + 1 >= CACHE_TTL_FRAMES {
            0
        } else {
            before + 1
        }
    }
}

/// However old the region map is, it is dropped within the time it may live, and
/// never before that time has passed since it was last dropped.
pub proof fn law_region_map_goes_stale(age: int, frames: nat)
    requires
        0 <= age < CACHE_TTL_FRAMES,
        frames <= CACHE_TTL_FRAMES - age,
    ensures
        age_after(age, frames) == (if frames == CACHE_TTL_FRAMES - age {
            0
        } else {
            age + frames
        }),
    decreases frames,
{
    if frames > 0 {
        law_region_map_goes_stale(age, (frames - 1) as nat);
    }
}

/// What may be written may be read, and only committed pages that are no guard
/// pages may be touched at all.
pub proof fn law_rights(info: RegionInfo)
    ensures
        mem::access_rights(info.protect).1 ==> mem::access_rights(info.protect).0,
        mem::described(Some(info)) matches Some(r) ==> {
            &&& r.writable ==> r.readable
            &&& r.readable ==> info.state == MEM_COMMIT && info.protect & PAGE_GUARD == 0
        },
{
}

/// Nothing below the first valid address and nothing beyond the end of the
/// address space is ever touched.
pub proof fn law_wild_pointers_are_refused(image: Image, addr: int, len: int, want_write: bool)
    requires
        addr < MIN_VALID_ADDRESS || addr + len > usize::MAX,
    ensures
        image.access(addr, len, want_write) == Ok::<bool, Need>(false),
        image.read(addr, len) == Ok::<Option<Seq<u8>>, Need>(None),
{
    assert(image.access(addr, len, false) == Ok::<bool, Need>(false));
}

} // verus!
