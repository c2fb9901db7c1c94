//! Properties of the signature search.
use vstd::prelude::*;

use crate::mem::Need;
use crate::scan;
use crate::scan::signature;
use crate::scan::SearchState;
use crate::scan::MATCH_LIMIT;
use crate::win32::RegionInfo;

verus! {

proof fn lemma_hits_below(haystack: Seq<u8>, pattern: Seq<Option<u8>>, n: nat)
    ensures
        forall|i: int|
            #[trigger] scan::hits_below(haystack, pattern, n).contains(i) <==> 0 <= i < n
                && scan::matches_at(haystack, pattern, i),
        forall|j: int, k: int|
            0 <= j < k < scan::hits_below(haystack, pattern, n).len() ==> scan::hits_below(
                haystack,
                pattern,
                n,
            )[j] < scan::hits_below(haystack, pattern, n)[k],
    decreases n,
{
    let all = scan::hits_below(haystack, pattern, n);
    if n > 0 {
        let before = scan::hits_below(haystack, pattern, (n - 1) as nat);
        lemma_hits_below(haystack, pattern, (n - 1) as nat);
        assert forall|i: int| #[trigger] all.contains(i) <==> 0 <= i < n && scan::matches_at(
            haystack,
            pattern,
            i,
        ) by {
            if all.contains(i) {
                let k = choose|k: int| 0 <= k < all.len() && all[k] == i;
                if k < before.len() {
                    assert(before[k] == i);
                    assert(before.contains(i));
                }
            }
            if 0 <= i < n && scan::matches_at(haystack, pattern, i) {
                if i == n - 1 {
                    assert(all[all.len() - 1] == i);
                } else {
                    assert(before.contains(i));
                    let k = choose|k: int| 0 <= k < before.len() && before[k] == i;
                    assert(all[k] == i);
                }
            }
        }
        assert forall|j: int, k: int| 0 <= j < k < all.len() implies all[j] < all[k] by {
            if k == before.len() {
                assert(before.contains(before[j]));
            }
        }
    }
}

/// The hits of a pattern are all the places where it matches, and no others, in
/// ascending order.
pub proof fn law_hits(haystack: Seq<u8>, pattern: Seq<Option<u8>>)
    requires
        pattern.len() > 0,
    ensures
        forall|i: int|
            #[trigger] scan::hits(haystack, pattern).contains(i) <==> scan::matches_at(
                haystack,
                pattern,
                i,
            ),
        forall|j: int, k: int|
            0 <= j < k < scan::hits(haystack, pattern).len() ==> scan::hits(haystack, pattern)[j]
                < scan::hits(haystack, pattern)[k],
{
    lemma_hits_below(haystack, pattern, haystack.len());
}

/// A pattern without wildcards matches at an offset exactly if the bytes there, as
/// many as the pattern has, are the bytes of the pattern.
pub proof fn law_exact_match(haystack: Seq<u8>, bytes: Seq<u8>, i: int)
    requires
        0 <= i,
        i + bytes.len() <= haystack.len(),
    ensures
        scan::matches_at(haystack, bytes.map_values(|byte: u8| Some(byte)), i) <==> haystack.subrange(
            i,
            i + bytes.len(),
        ) == bytes,
{
    let pattern = bytes.map_values(|byte: u8| Some(byte));
    let part = haystack.subrange(i, i + bytes.len());
    if scan::matches_at(haystack, pattern, i) {
        assert forall|k: int| 0 <= k < bytes.len() implies part[k] == bytes[k] by {
            assert(pattern[k] == Some(bytes[k]));
        }
        assert(part =~= bytes);
    }
    if part == bytes {
        assert forall|k: int| 0 <= k < pattern.len() implies (#[trigger] pattern[k] matches Some(
            byte,
        ) ==> byte == haystack[i + k]) by {
            assert(part[k] == bytes[k]);
        }
    }
}

/// Every element of a pattern that is not a wildcard counts, whatever its index:
/// with another byte under it a match is no match any more, and with its own byte
/// under it a place that fails nowhere else is a match.
pub proof fn law_every_element_counts(
    haystack: Seq<u8>,
    pattern: Seq<Option<u8>>,
    i: int,
    k: int,
    byte: u8,
)
    requires
        0 <= i,
        i + pattern.len() <= haystack.len(),
        0 <= k < pattern.len(),
        pattern[k] is Some,
    ensures
        byte != pattern[k]->Some_0 ==> !scan::matches_at(
            haystack.update(i + k, byte),
            pattern,
            i,
        ),
        byte == pattern[k]->Some_0 ==> (scan::matches_at(
            haystack.update(i + k, byte),
            pattern,
            i,
        ) <==> scan::matches_at(haystack, pattern.update(k, None), i)),
        scan::matches_at(haystack, pattern, i) ==> haystack[i + k] == pattern[k]->Some_0,
{
    let changed = haystack.update(i + k, byte);
    let loose = pattern.update(k, None);
    if byte == pattern[k]->Some_0 {
        if scan::matches_at(changed, pattern, i) {
            assert forall|j: int| 0 <= j < loose.len() implies (#[trigger] loose[j] matches Some(
                b,
            ) ==> b == haystack[i + j]) by {
                if j != k {
                    assert(pattern[j] == loose[j]);
                    assert(changed[i + j] == haystack[i + j]);
                }
            }
        }
        if scan::matches_at(haystack, loose, i) {
            assert forall|j: int| 0 <= j < pattern.len() implies (#[trigger] pattern[
                j
            ] matches Some(b) ==> b == changed[i + j]) by {
                if j != k {
                    assert(pattern[j] == loose[j]);
                    assert(changed[i + j] == haystack[i + j]);
                }
            }
        }
    }
}

/// A pattern of wildcards alone matches wherever it fits, and none matches where it
/// does not fit.
pub proof fn law_wildcards_fit(haystack: Seq<u8>, pattern: Seq<Option<u8>>, i: int)
    ensures
        (forall|k: int| 0 <= k < pattern.len() ==> #[trigger] pattern[k] is None) && 0 <= i && i
            + pattern.len() <= haystack.len() ==> scan::matches_at(haystack, pattern, i),
        i < 0 || i + pattern.len() > haystack.len() ==> !scan::matches_at(haystack, pattern, i),
{
}

/// A region that was searched adds the addresses of its matches from the lowest
/// on: each is the base of the region and the offset of a match, none is left out
/// before it, and they stop only at the limit.
pub proof fn law_matches_in_order(
    found: Seq<usize>,
    haystack: Seq<u8>,
    pattern: Seq<Option<u8>>,
    base: int,
    limit: nat,
    i: int,
)
    requires
        pattern.len() > 0,
        0 <= base,
        base + haystack.len() <= usize::MAX + 1,
    ensures
        ({
            let after = scan::extended(found, haystack, pattern, base, limit);
            let added = after.skip(found.len() as int);
            &&& after.len() >= found.len()
            &&& after.take(found.len() as int) == found
            &&& forall|j: int|
                0 <= j < added.len() ==> scan::matches_at(
                    haystack,
                    pattern,
                    #[trigger] added[j] - base,
                )
            &&& forall|j: int, k: int| 0 <= j < k < added.len() ==> added[j] < added[k]
            &&& scan::matches_at(haystack, pattern, i) ==> {
                ||| exists|j: int| 0 <= j < added.len() && #[trigger] added[j] == base + i
                ||| after.len() >= limit && forall|j: int|
                    0 <= j < added.len() ==> #[trigger] added[j] < base + i
            }
        }),
{
    let after = scan::extended(found, haystack, pattern, base, limit);
    let added = after.skip(found.len() as int);
    let all = scan::hits(haystack, pattern);
    let kept = scan::at_most(all, scan::room(found.len(), limit));
    law_hits(haystack, pattern);
    assert(after.take(found.len() as int) =~= found);
    assert(added =~= scan::addresses(base, kept));
    assert forall|j: int| 0 <= j < kept.len() implies #[trigger] kept[j] == all[j]
        && scan::matches_at(haystack, pattern, kept[j]) && added[j] == base + kept[j] by {
        assert(all.contains(all[j]));
        assert(scan::matches_at(haystack, pattern, all[j]));
        assert(scan::addresses(base, kept)[j] == (base + kept[j]) as usize);
    }
    assert forall|j: int| 0 <= j < added.len() implies scan::matches_at(
        haystack,
        pattern,
        #[trigger] added[j] - base,
    ) by {
        assert(kept[j] == all[j]);
    }
    assert forall|j: int, k: int| 0 <= j < k < added.len() implies added[j] < added[k] by {
        assert(kept[j] == all[j]);
        assert(kept[k] == all[k]);
    }
    if scan::matches_at(haystack, pattern, i) {
        assert(all.contains(i));
        let m = choose|m: int| 0 <= m < all.len() && all[m] == i;
        if m < kept.len() {
            assert(kept[m] == all[m]);
            assert(added[m] == base + i);
        } else {
            assert forall|j: int| 0 <= j < added.len() implies #[trigger] added[j] < base + i by {
                assert(kept[j] == all[j]);
            }
        }
    }
}

/// Which regions are searched: committed ones that can be executed and read and
/// are not guarded, and in the first pass only private ones. A search stops at
/// eight matches.
pub proof fn law_searched_regions(info: RegionInfo, private_only: bool)
    ensures
        ({
            let kind = info.protect % 256;
            let guarded = info.protect / 256 % 2 == 1;
            scan::scannable(info, private_only) <==> {
                &&& info.state == 0x1000
                &&& private_only ==> info.kind == 0x20000
                &&& !guarded
                &&& kind == 32 || kind == 64 || kind == 128
            }
        }),
        MATCH_LIMIT == 8,
{
    let protect = info.protect;
    assert(protect & 0xFF == protect % 256) by (bit_vector);
    assert((protect & 0x100 == 0) == (protect / 256 % 2 == 0)) by (bit_vector);
}

/// How a search walks: it begins with private memory at address 0; a region that
/// is to be searched is read whole before the walk goes on behind it; any other is
/// passed over; and nothing is skipped.
pub proof fn law_walk(state: SearchState, info: RegionInfo, bytes: Seq<u8>, pattern: Seq<Option<u8>>)
    requires
        !state.over,
    ensures
        SearchState::start(pattern).asks() == Some(Need::Region(0)),
        SearchState::start(pattern).private_only,
        SearchState::start(pattern).found.len() == 0,
        SearchState::start(pattern).pattern == pattern,
        state.region is None ==> state.asks() == Some(Need::Region(state.address)),
        state.region is None && info.size > 0 && scan::scannable(info, state.private_only) ==> {
            let next = state.with_region(Some(info));
            &&& next.asks() == Some(Need::Bytes(info.base, info.size))
            &&& next.found == state.found
        },
        state.region is None && !(info.size > 0 && scan::scannable(info, state.private_only))
            && state.address < info.base + info.size <= usize::MAX ==> {
            let next = state.with_region(Some(info));
            &&& next.asks() == Some(Need::Region((info.base + info.size) as usize))
            &&& next.found == state.found
            &&& next.private_only == state.private_only
        },
        state.region == Some(info) ==> {
            let next = state.with_bytes(bytes);
            let found = scan::extended(state.found, bytes, state.pattern, info.base as int, 8);
            &&& next.found == found
            &&& found.len() < 8 && state.address < info.base + info.size <= usize::MAX
                ==> next.asks() == Some(Need::Region((info.base + info.size) as usize))
                && next.private_only == state.private_only
            &&& found.len() >= 8 ==> next.over
        },
{
}

/// A pass ends where the system knows no further region. Private memory without a
/// match is followed by all memory, from the beginning; otherwise the search is
/// over, with what it has found.
pub proof fn law_end_of_a_pass(state: SearchState)
    requires
        !state.over,
        state.region is None,
    ensures
        ({
            let next = state.with_region(None);
            &&& next.found == state.found
            &&& next.pattern == state.pattern
            &&& state.private_only && state.found.len() == 0 ==> !next.over && !next.private_only
                && next.asks() == Some(Need::Region(0))
            &&& !state.private_only || state.found.len() > 0 ==> next.over && next.asks() is None
        }),
{
}

/// As long as the list of matches stays below its limit, nothing was left out of
/// it. The search never takes the list over the limit, and a list that is full to
/// begin with stays as it is.
pub proof fn law_search_is_complete_below_the_limit(
    found: Seq<usize>,
    haystack: Seq<u8>,
    pattern: Seq<Option<u8>>,
    base: int,
    limit: nat,
)
    ensures
        ({
            let after = scan::extended(found, haystack, pattern, base, limit);
            &&& found.len() <= limit ==> after.len() <= limit
            &&& found.len() >= limit ==> after == found
            &&& after.len() < limit ==> after == found + scan::addresses(
                base,
                scan::hits(haystack, pattern),
            )
        }),
{
    if found.len() >= limit {
        assert(scan::extended(found, haystack, pattern, base, limit) =~= found);
    }
}

/// A wildcard matches every byte: whatever stands there, a match stays a match.
pub proof fn law_wildcard(
    haystack: Seq<u8>,
    pattern: Seq<Option<u8>>,
    i: int,
    k: int,
    byte: u8,
)
    requires
        scan::matches_at(haystack, pattern, i),
        0 <= k < pattern.len(),
        pattern[k] is None,
    ensures
        scan::matches_at(haystack.update(i + k, byte), pattern, i),
{
}

/// What holds of a search at every time: it is below the limit as long as it goes
/// on and never beyond it, and only a region that is to be searched waits for its
/// bytes.
pub open spec fn sound(state: SearchState) -> bool {
    &&& state.found.len() <= MATCH_LIMIT
    &&& !state.over ==> state.found.len() < MATCH_LIMIT
    &&& state.region matches Some(info) ==> !state.over && info.size > 0 && scan::scannable(
        info,
        state.private_only,
    )
}

/// A measure of what a search has still to do.
pub open spec fn remaining(state: SearchState) -> int {
    let pass = 2 * (usize::MAX as int + 1);
    if state.over {
        0
    } else {
        1 + (if state.private_only {
            pass
        } else {
            0
        }) + 2 * (usize::MAX - state.address) + (if state.region is None {
            1int
        } else {
            0
        })
    }
}

/// A search starts soundly and every step keeps it sound.
pub proof fn law_search_stays_sound(
    pattern: Seq<Option<u8>>,
    state: SearchState,
    info: Option<RegionInfo>,
    bytes: Seq<u8>,
)
    requires
        sound(state),
    ensures
        sound(SearchState::start(pattern)),
        sound(state.with_region(info)),
        sound(state.with_bytes(bytes)),
{
}

/// Every answer to what a search asks for brings it nearer to its end, so a
/// search always ends.
pub proof fn law_search_ends(state: SearchState, info: Option<RegionInfo>, bytes: Seq<u8>)
    requires
        sound(state),
        !state.over,
    ensures
        0 <= remaining(if state.region is None {
            state.with_region(info)
        } else {
            state.with_bytes(bytes)
        }) < remaining(state),
{
}

/// A second pass is only made when private memory held no match at all, and it
/// begins at the bottom of the address space.
pub proof fn law_second_pass(state: SearchState, info: Option<RegionInfo>, bytes: Seq<u8>)
    requires
        sound(state),
        state.private_only,
    ensures
        ({
            let next = state.with_region(info);
            !next.private_only ==> next.address == 0 && next.found.len() == 0 && !next.over
        }),
        ({
            let next = state.with_bytes(bytes);
            !next.private_only ==> next.address == 0 && next.found.len() == 0 && !next.over
        }),
{
}

/// Only committed regions that can be executed and read are ever asked for, and
/// in the first pass only private ones.
pub proof fn law_only_code_is_read(state: SearchState, info: RegionInfo)
    requires
        sound(state),
        state.region is None,
    ensures
        state.with_region(Some(info)).region matches Some(asked) ==> asked == info
            && scan::scannable(info, state.private_only) && info.size > 0,
{
}

/// An answer to what a search asks for.
#[verifier::ext_equal]
pub enum Answer {
    Region(Option<RegionInfo>),
    Bytes(Seq<u8>),
}

/// A search after one more answer.
pub open spec fn answered(state: SearchState, answer: Answer) -> SearchState {
    match answer {
        Answer::Region(info) => state.with_region(info),
        Answer::Bytes(bytes) => state.with_bytes(bytes),
    }
}

/// A search after all the answers, in order.
pub open spec fn run(pattern: Seq<Option<u8>>, answers: Seq<Answer>) -> SearchState
    decreases answers.len(),
{
    if answers.len() == 0 {
        SearchState::start(pattern)
    } else {
        answered(run(pattern, answers.drop_last()), answers.last())
    }
}

/// All the places in the code seen in the current pass where the pattern
/// matches, however many there are.
pub open spec fn all_matches(pattern: Seq<Option<u8>>, answers: Seq<Answer>) -> Seq<usize>
    decreases answers.len(),
{
    if answers.len() == 0 {
        seq![]
    } else {
        let before = run(pattern, answers.drop_last());
        let after = run(pattern, answers);
        if before.private_only != after.private_only {
            seq![]
        } else {
            all_matches(pattern, answers.drop_last()) + match (answers.last(), before.region) {
                (Answer::Bytes(bytes), Some(info)) => scan::addresses(
                    info.base as int,
                    scan::hits(bytes, pattern),
                ),
                _ => seq![],
            }
        }
    }
}

/// A search that found fewer matches than its limit found all there are. So what
/// it calls unique is unique: the pattern matches nowhere else in the code that
/// was looked at.
pub proof fn law_outcome_is_complete(pattern: Seq<Option<u8>>, answers: Seq<Answer>)
    ensures
        run(pattern, answers).pattern == pattern,
        sound(run(pattern, answers)),
        run(pattern, answers).found.len() < MATCH_LIMIT ==> run(pattern, answers).found
            == all_matches(pattern, answers),
    decreases answers.len(),
{
    if answers.len() > 0 {
        let before = run(pattern, answers.drop_last());
        let after = run(pattern, answers);
        law_outcome_is_complete(pattern, answers.drop_last());
        match (answers.last(), before.region) {
            (Answer::Bytes(bytes), Some(info)) => {
                law_search_is_complete_below_the_limit(
                    before.found,
                    bytes,
                    pattern,
                    info.base as int,
                    MATCH_LIMIT as nat,
                );
                if after.found.len() < MATCH_LIMIT && before.private_only == after.private_only {
                    assert(after.found =~= all_matches(pattern, answers));
                }
            },
            _ => {
                if before.private_only == after.private_only {
                    assert(all_matches(pattern, answers) =~= all_matches(
                        pattern,
                        answers.drop_last(),
                    ));
                } else {
                    assert(after.found =~= seq![]);
                }
            },
        }
    }
}

/// A signature always yields as many elements as it has words, and at least one.
pub proof fn law_pattern_length(s: Seq<char>)
    ensures
        signature::parsed(s) matches Some(pattern) ==> pattern.len() == signature::words(s).len()
            && pattern.len() > 0,
{
}

} // verus!
