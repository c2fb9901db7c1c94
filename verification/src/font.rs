//! Glyph ranges of the interface font.
//!
//! The built-in font has Latin letters only, so a system font takes its place,
//! and the ranges of the glyphs that the interface needs are given explicitly.
use vstd::prelude::*;

verus! {

/// Font files in order of preference. The first is a monospaced one, because the
/// trap list aligns its columns with spaces.
pub const CANDIDATES: [&'static str; 4] = [
    "consola.ttf",
    "tahoma.ttf",
    "segoeui.ttf",
    "arial.ttf",
];

/// The first and the last character of each range, and a zero at the end: Latin
/// with punctuation, Cyrillic with its supplement, dashes with quotation marks
/// and the ellipsis, the numero sign.
pub const GLYPH_RANGES: [u32; 9] = [
    0x0020,
    0x00FF,
    0x0400,
    0x052F,
    0x2010,
    0x2027,
    0x2116,
    0x2116,
    0,
];

/// The character with a code lies in one of the ranges.
pub open spec fn in_ranges(ranges: Seq<u32>, code: u32) -> bool {
    exists|k: int|
        0 <= k && 2 * k + 1 < ranges.len() && #[trigger] ranges[2 * k] <= code <= ranges[2 * k + 1]
}

/// What a list of ranges has to keep: an odd length with a zero at the end, no
/// empty range, no zero inside, ascending ranges without overlap.
pub open spec fn well_formed(ranges: Seq<u32>) -> bool {
    &&& ranges.len() % 2 == 1
    &&& ranges.last() == 0
    &&& forall|k: int|
        0 <= k && 2 * k + 1 < ranges.len() ==> 0 < #[trigger] ranges[2 * k] <= ranges[2 * k + 1]
    &&& forall|k: int|
        0 <= k && 2 * k + 3 < ranges.len() ==> #[trigger] ranges[2 * k + 1] < ranges[2 * k + 2]
}

/// Whether the interface font has a glyph for a character.
pub fn covered(ch: char) -> (r: bool)
    ensures
        r == in_ranges(GLYPH_RANGES@, ch as u32),
{
    let code: u32 = ch as u32;
    let ranges = GLYPH_RANGES;
    let mut k: usize = 0;
    while k < 4
        invariant
            k <= 4,
            ranges == GLYPH_RANGES,
            ranges@.len() == 9,
            code == ch as u32,
            forall|j: int|
                0 <= j < k ==> !(#[trigger] ranges@[2 * j] <= code <= ranges@[2 * j + 1]),
        decreases 4 - k,
    {
        if ranges[2 * k] <= code && code <= ranges[2 * k + 1] {
            assert(ranges@[2 * (k as int)] <= code <= ranges@[2 * (k as int) + 1]);
            return true;
        }
        k = k + 1;
    }
    false
}

/// The glyph ranges are well formed.
pub proof fn law_glyph_ranges()
    ensures
        well_formed(GLYPH_RANGES@),
{
    let r = GLYPH_RANGES@;
    assert forall|k: int| 0 <= k && 2 * k + 1 < r.len() implies 0 < #[trigger] r[2 * k] <= r[2 * k
        + 1] by {
        assert(k == 0 || k == 1 || k == 2 || k == 3);
    }
    assert forall|k: int| 0 <= k && 2 * k + 3 < r.len() implies #[trigger] r[2 * k + 1] < r[2 * k
        + 2] by {
        assert(k == 0 || k == 1 || k == 2);
    }
}

/// Every printable character of Latin, and every Cyrillic letter, has a glyph.
pub proof fn law_alphabets_are_covered(code: u32)
    requires
        0x20 <= code <= 0xFF || 0x400 <= code <= 0x52F,
    ensures
        in_ranges(GLYPH_RANGES@, code),
{
    let r = GLYPH_RANGES@;
    assert(r[2 * 0int] <= code <= r[2 * 0int + 1] || r[2 * 1int] <= code <= r[2 * 1int + 1]);
}

/// A character has a glyph exactly if it belongs to Latin, to Cyrillic or to the
/// punctuation of either, or is the numero sign.
pub proof fn law_covered_characters(code: u32)
    ensures
        in_ranges(GLYPH_RANGES@, code) <==> {
            ||| 0x20 <= code <= 0xFF
            ||| 0x400 <= code <= 0x52F
            ||| 0x2010 <= code <= 0x2027
            ||| code == 0x2116
        },
{
    let r = GLYPH_RANGES@;
    if in_ranges(r, code) {
        let k = choose|k: int|
            0 <= k && 2 * k + 1 < r.len() && #[trigger] r[2 * k] <= code <= r[2 * k + 1];
        assert(k == 0 || k == 1 || k == 2 || k == 3);
    }
    if 0x20 <= code <= 0xFF {
        assert(r[2 * 0int] <= code <= r[2 * 0int + 1]);
    }
    if 0x400 <= code <= 0x52F {
        assert(r[2 * 1int] <= code <= r[2 * 1int + 1]);
    }
    if 0x2010 <= code <= 0x2027 {
        assert(r[2 * 2int] <= code <= r[2 * 2int + 1]);
    }
    if code == 0x2116 {
        assert(r[2 * 3int] <= code <= r[2 * 3int + 1]);
    }
}

} // verus!
