//! Signature search in the executable memory of the process.
//!
//! The code of the game is managed: a method is compiled into an anonymous
//! region when it is first called, at another address in every run. A function
//! is therefore looked for by the bytes of its machine code.
//!
//! Private memory is searched first, since that is where compiled methods live,
//! and all executable memory only if nothing was found there. All matches are
//! collected: an ambiguous signature is worse than none, because hooking the
//! wrong function would crash the game.
use vstd::prelude::*;

pub mod laws;
pub mod signature;

pub use self::signature::parse;

use crate::mem::Fetch;
use crate::mem::Need;
use crate::win32::RegionInfo;
use crate::win32::{
    MEM_COMMIT, MEM_PRIVATE, PAGE_EXECUTE_READ, PAGE_EXECUTE_READWRITE, PAGE_EXECUTE_WRITECOPY,
    PAGE_GUARD, PROTECTION_MASK,
};

verus! {

/// How many matches are worth collecting: more than one already means that the
/// signature is of no use.
pub const MATCH_LIMIT: usize = 8;

/// The result of a search.
#[derive(Clone, Debug, PartialEq, Eq)]
pub enum Outcome {
    /// No match. As a rule the method has not been called and compiled yet.
    NotFound,
    /// Exactly one match. Only then a hook may be set.
    Unique(usize),
    /// Several matches.
    Ambiguous(Vec<usize>),
}

/// The pattern matches at offset `i`.
pub open spec fn matches_at(haystack: Seq<u8>, pattern: Seq<Option<u8>>, i: int) -> bool {
    &&& 0 <= i
    &&& i + pattern.len() <= haystack.len()
    &&& forall|k: int|
        0 <= k < pattern.len() ==> (#[trigger] pattern[k] matches Some(byte) ==> byte
            == haystack[i + k])
}

/// The offsets below `n` at which the pattern matches, in ascending order.
pub open spec fn hits_below(haystack: Seq<u8>, pattern: Seq<Option<u8>>, n: nat) -> Seq<int>
    decreases n,
{
    if n == 0 {
        seq![]
    } else {
        let before = hits_below(haystack, pattern, (n - 1) as nat);
        if matches_at(haystack, pattern, n - 1) {
            before.push(n - 1)
        } else {
            before
        }
    }
}

/// All offsets at which the pattern matches. An empty pattern matches nowhere.
pub open spec fn hits(haystack: Seq<u8>, pattern: Seq<Option<u8>>) -> Seq<int> {
    if pattern.len() == 0 {
        seq![]
    } else {
        hits_below(haystack, pattern, haystack.len())
    }
}

/// How many more matches a list takes in until it has `limit` of them.
pub open spec fn room(len: nat, limit: nat) -> nat {
    if len < limit {
        (limit - len) as nat
    } else {
        0
    }
}

/// The first `count` elements, or all where there are fewer.
pub open spec fn at_most<T>(s: Seq<T>, count: nat) -> Seq<T> {
    if s.len() <= count {
        s
    } else {
        s.take(count as int)
    }
}

/// The addresses of offsets in a region that begins at `base`.
pub open spec fn addresses(base: int, offsets: Seq<int>) -> Seq<usize> {
    offsets.map_values(|i: int| (base + i) as usize)
}

/// A list of matches after a region has been searched.
pub open spec fn extended(
    found: Seq<usize>,
    haystack: Seq<u8>,
    pattern: Seq<Option<u8>>,
    base: int,
    limit: nat,
) -> Seq<usize> {
    found + addresses(base, at_most(hits(haystack, pattern), room(found.len(), limit)))
}

fn pattern_matches(haystack: &[u8], pattern: &[Option<u8>], i: usize) -> (r: bool)
    requires
        i + pattern@.len() <= haystack@.len(),
    ensures
        r == matches_at(haystack@, pattern@, i as int),
{
    assert(haystack.len() <= usize::MAX);
    for k in 0..pattern.len()
        invariant
            i + pattern.len() <= haystack.len(),
            haystack.len() <= usize::MAX,
            forall|j: int|
                0 <= j < k ==> (#[trigger] pattern@[j] matches Some(byte) ==> byte == haystack@[i
                    + j]),
    {
        if let Some(byte) = pattern[k] {
            if haystack[i + k] != byte {
                assert(pattern@[k as int] == Some(byte));
                return false;
            }
        }
    }
    true
}

/// No offset from `from` up to `to` adds a hit when the pattern matches at none
/// of them.
proof fn lemma_no_hits(haystack: Seq<u8>, pattern: Seq<Option<u8>>, from: nat, to: nat)
    requires
        from <= to,
        forall|i: int| from <= i < to ==> !#[trigger] matches_at(haystack, pattern, i),
    ensures
        hits_below(haystack, pattern, to) == hits_below(haystack, pattern, from),
    decreases to,
{
    if from < to {
        lemma_no_hits(haystack, pattern, from, (to - 1) as nat);
    }
}

/// Earlier hits are the beginning of all hits.
proof fn lemma_hits_prefix(haystack: Seq<u8>, pattern: Seq<Option<u8>>, n: nat, m: nat)
    requires
        n <= m,
    ensures
        hits_below(haystack, pattern, n).len() <= hits_below(haystack, pattern, m).len(),
        hits_below(haystack, pattern, m).take(hits_below(haystack, pattern, n).len() as int)
            == hits_below(haystack, pattern, n),
    decreases m,
{
    if n < m {
        lemma_hits_prefix(haystack, pattern, n, (m - 1) as nat);
        assert(hits_below(haystack, pattern, m).take(
            hits_below(haystack, pattern, n).len() as int,
        ) =~= hits_below(haystack, pattern, (m - 1) as nat).take(
            hits_below(haystack, pattern, n).len() as int,
        ));
    } else {
        assert(hits_below(haystack, pattern, m).take(
            hits_below(haystack, pattern, n).len() as int,
        ) =~= hits_below(haystack, pattern, n));
    }
}

/// Looks for the pattern in a region that begins at `base` and adds the address
/// of every match to `out`, until there are `limit` of them. A list that is full
/// to begin with stays as it is.
pub fn find_in_slice(
    haystack: &[u8],
    pattern: &[Option<u8>],
    base: usize,
    out: &mut Vec<usize>,
    limit: usize,
)
    requires
        base + haystack@.len() <= usize::MAX + 1,
    ensures
        final(out)@ == extended(old(out)@, haystack@, pattern@, base as int, limit as nat),
{
    let ghost start = out@;
    let ghost all = hits(haystack@, pattern@);
    if pattern.len() == 0 || haystack.len() < pattern.len() {
        proof {
            if pattern@.len() > 0 {
                lemma_no_hits(haystack@, pattern@, 0, haystack@.len());
            }
            assert(all =~= seq![]);
            assert(out@ =~= extended(start, haystack@, pattern@, base as int, limit as nat));
        }
        return;
    }
    if out.len() >= limit {
        assert(out@ =~= extended(start, haystack@, pattern@, base as int, limit as nat));
        return;
    }
    let last: usize = haystack.len() - pattern.len();
    let first = pattern[0];
    let mut i: usize = 0;
    let ghost mut count: nat = 0;
    assert(haystack.len() <= usize::MAX);
    assert(out@ =~= start + addresses(base as int, all.take(0)));
    while i <= last
        invariant
            haystack.len() <= usize::MAX,
            base + haystack@.len() <= usize::MAX + 1,
            pattern@.len() > 0,
            last == haystack@.len() - pattern@.len(),
            first == pattern@[0],
            i <= last + 1,
            start == old(out)@,
            all == hits(haystack@, pattern@),
            count == hits_below(haystack@, pattern@, i as nat).len(),
            count < room(start.len(), limit as nat),
            out@ == start + addresses(base as int, hits_below(haystack@, pattern@, i as nat)),
        decreases last + 1 - i,
    {
        if let Some(byte) = first {
            let ghost from = i;
            while i <= last && haystack[i] != byte
                invariant
                    haystack.len() <= usize::MAX,
                    pattern@.len() > 0,
                    pattern@[0] == Some(byte),
                    last == haystack@.len() - pattern@.len(),
                    from <= i <= last + 1,
                    forall|j: int| from <= j < i ==> haystack@[j] != byte,
                decreases last + 1 - i,
            {
                i = i + 1;
            }
            proof {
                assert forall|j: int| from <= j < i implies !#[trigger] matches_at(
                    haystack@,
                    pattern@,
                    j,
                ) by {
                    assert(pattern@[0] == Some(byte));
                    assert(haystack@[j + 0] != byte);
                }
                lemma_no_hits(haystack@, pattern@, from as nat, i as nat);
            }
            if i > last {
                proof {
                    lemma_rest_has_no_hits(haystack@, pattern@, i as nat);
                    assert(out@ =~= extended(
                        start,
                        haystack@,
                        pattern@,
                        base as int,
                        limit as nat,
                    ));
                }
                return;
            }
        }
        if pattern_matches(haystack, pattern, i) {
            proof {
                lemma_hits_prefix(haystack@, pattern@, (i + 1) as nat, haystack@.len());
                count = count + 1;
            }
            out.push(base + i);
            assert(out@ =~= start + addresses(
                base as int,
                hits_below(haystack@, pattern@, (i + 1) as nat),
            ));
            if out.len() >= limit {
                proof {
                    assert(count == room(start.len(), limit as nat));
                    assert(at_most(all, count) =~= hits_below(
                        haystack@,
                        pattern@,
                        (i + 1) as nat,
                    ));
                }
                return;
            }
        }
        i = i + 1;
    }
    proof {
        lemma_rest_has_no_hits(haystack@, pattern@, i as nat);
        assert(out@ =~= extended(start, haystack@, pattern@, base as int, limit as nat));
    }
}

/// Past the last place that the pattern fits in there are no hits.
proof fn lemma_rest_has_no_hits(haystack: Seq<u8>, pattern: Seq<Option<u8>>, i: nat)
    requires
        pattern.len() > 0,
        i <= haystack.len(),
        i + pattern.len() > haystack.len(),
    ensures
        hits(haystack, pattern) == hits_below(haystack, pattern, i),
{
    lemma_no_hits(haystack, pattern, i, haystack.len());
}

/// Pages with this protection can be executed and read.
///
/// Pages that can only be executed do not count, and guard pages neither.
pub open spec fn runnable(protect: u32) -> bool {
    let base = protect & PROTECTION_MASK;
    protect & PAGE_GUARD == 0 && (base == PAGE_EXECUTE_READ || base == PAGE_EXECUTE_READWRITE
        || base == PAGE_EXECUTE_WRITECOPY)
}

/// The region is to be searched for code.
pub open spec fn scannable(info: RegionInfo, private_only: bool) -> bool {
    &&& info.state == MEM_COMMIT
    &&& private_only ==> info.kind == MEM_PRIVATE
    &&& runnable(info.protect)
}

/// Whether pages with this protection can be executed and read.
pub fn is_executable_readable(protect: u32) -> (r: bool)
    ensures
        r == runnable(protect),
{
    if protect & PAGE_GUARD != 0 {
        return false;
    }
    let base: u32 = protect & PROTECTION_MASK;
    base == PAGE_EXECUTE_READ || base == PAGE_EXECUTE_READWRITE || base == PAGE_EXECUTE_WRITECOPY
}

/// Whether the region is to be searched for code.
pub fn is_scannable(info: &RegionInfo, private_only: bool) -> (r: bool)
    ensures
        r == scannable(*info, private_only),
{
    if info.state != MEM_COMMIT {
        return false;
    }
    if private_only && info.kind != MEM_PRIVATE {
        return false;
    }
    is_executable_readable(info.protect)
}

/// A walk through the address space that looks for a pattern.
pub struct Search {
    pattern: Vec<Option<u8>>,
    private_only: bool,
    address: usize,
    found: Vec<usize>,
    region: Option<RegionInfo>,
    over: bool,
}

/// A search in spec code.
#[verifier::ext_equal]
pub struct SearchState {
    pub pattern: Seq<Option<u8>>,
    /// This is the first pass, which looks at private memory alone.
    pub private_only: bool,
    /// Where the next region begins.
    pub address: usize,
    /// The matches of this pass, in the order in which they were met.
    pub found: Seq<usize>,
    /// A region whose bytes are waited for.
    pub region: Option<RegionInfo>,
    /// The search has come to its end.
    pub over: bool,
}

impl View for Search {
    type V = SearchState;

    closed spec fn view(&self) -> SearchState {
        SearchState {
            pattern: self.pattern@,
            private_only: self.private_only,
            address: self.address,
            found: self.found@,
            region: self.region,
            over: self.over,
        }
    }
}

impl SearchState {
    /// The beginning of a search.
    pub open spec fn start(pattern: Seq<Option<u8>>) -> SearchState {
        SearchState {
            pattern,
            private_only: true,
            address: 0,
            found: seq![],
            region: None,
            over: false,
        }
    }

    /// What the search has to be told next.
    pub open spec fn asks(self) -> Option<Need> {
        if self.over {
            None
        } else {
            match self.region {
                Some(info) => Some(Need::Bytes(info.base, info.size)),
                None => Some(Need::Region(self.address)),
            }
        }
    }

    /// The end of a pass. A first pass without a match is followed by a second
    /// one through all executable memory.
    pub open spec fn pass_ended(self) -> SearchState {
        if self.private_only && self.found.len() == 0 {
            SearchState { private_only: false, address: 0, region: None, ..self }
        } else {
            SearchState { region: None, over: true, ..self }
        }
    }

    /// On to the region behind this one. Where the address would not grow the
    /// pass ends.
    pub open spec fn passed(self, info: RegionInfo) -> SearchState {
        if self.address < info.base + info.size <= usize::MAX {
            SearchState { address: (info.base + info.size) as usize, region: None, ..self }
        } else {
            self.pass_ended()
        }
    }

    /// After the reply to a region query. A failed query ends the pass. A search
    /// that did not ask for a region does not change.
    pub open spec fn with_region(self, info: Option<RegionInfo>) -> SearchState {
        if self.over || self.region is Some {
            self
        } else {
            match info {
                None => self.pass_ended(),
                Some(info) => if info.size > 0 && scannable(info, self.private_only) {
                    SearchState { region: Some(info), ..self }
                } else {
                    self.passed(info)
                },
            }
        }
    }

    /// After the bytes of a region. A full list of matches ends the pass. A
    /// search that did not ask for bytes does not change.
    pub open spec fn with_bytes(self, bytes: Seq<u8>) -> SearchState {
        match self.region {
            None => self,
            Some(info) => {
                let found = extended(
                    self.found,
                    bytes,
                    self.pattern,
                    info.base as int,
                    MATCH_LIMIT as nat,
                );
                let next = SearchState { found, ..self };
                if found.len() >= MATCH_LIMIT {
                    next.pass_ended()
                } else {
                    next.passed(info)
                }
            },
        }
    }
}

impl Search {
    /// Begins a search.
    pub fn new(pattern: Vec<Option<u8>>) -> (search: Search)
        ensures
            search@ == SearchState::start(pattern@),
    {
        Search {
            pattern,
            private_only: true,
            address: 0,
            found: Vec::new(),
            region: None,
            over: false,
        }
    }

    fn end_pass(&mut self)
        ensures
            final(self)@ == old(self)@.pass_ended(),
    {
        self.region = None;
        if self.private_only && self.found.len() == 0 {
            self.private_only = false;
            self.address = 0;
        } else {
            self.over = true;
        }
    }

    fn pass(&mut self, info: RegionInfo)
        ensures
            final(self)@ == old(self)@.passed(info),
    {
        match info.base.checked_add(info.size) {
            Some(next) => if next > self.address {
                self.region = None;
                self.address = next;
            } else {
                self.end_pass();
            },
            None => self.end_pass(),
        }
    }

    /// Takes in the reply to a region query.
    pub fn supply_region(&mut self, info: Option<RegionInfo>)
        ensures
            final(self)@ == old(self)@.with_region(info),
    {
        if self.over || self.region.is_some() {
            return;
        }
        match info {
            None => self.end_pass(),
            Some(info) => if info.size > 0 && is_scannable(&info, self.private_only) {
                self.region = Some(info);
            } else {
                self.pass(info);
            },
        }
    }

    /// Takes in the bytes of a region.
    pub fn supply_bytes(&mut self, bytes: &[u8])
        requires
            old(self)@.region matches Some(info) ==> info.base + bytes@.len() <= usize::MAX + 1,
        ensures
            final(self)@ == old(self)@.with_bytes(bytes@),
    {
        let info = match self.region {
            Some(info) => info,
            None => return,
        };
        find_in_slice(
            bytes,
            self.pattern.as_slice(),
            info.base,
            &mut self.found,
            MATCH_LIMIT,
        );
        if self.found.len() >= MATCH_LIMIT {
            self.end_pass();
        } else {
            self.pass(info);
        }
    }
}

/// The outcome of a search, or what it has to be told first.
pub fn find_unique(search: &Search) -> (r: Fetch<Outcome>)
    ensures
        match search@.asks() {
            Some(need) => r == Err::<Outcome, Need>(need),
            None => match r {
                Err(_) => false,
                Ok(Outcome::NotFound) => search@.found.len() == 0,
                Ok(Outcome::Unique(address)) => search@.found == seq![address],
                Ok(Outcome::Ambiguous(all)) => search@.found.len() > 1 && all@ == search@.found,
            },
        },
{
    if !search.over {
        return match search.region {
            Some(info) => Err(Need::Bytes(info.base, info.size)),
            None => Err(Need::Region(search.address)),
        };
    }
    match search.found.len() {
        0 => Ok(Outcome::NotFound),
        1 => {
            assert(search.found@ =~= seq![search.found@[0]]);
            Ok(Outcome::Unique(search.found[0]))
        },
        _ => Ok(Outcome::Ambiguous(search.found.clone())),
    }
}

} // verus!
