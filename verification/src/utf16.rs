//! UTF-16 text of the game.
use vstd::prelude::*;

verus! {

/// `String::push` appends one character to a string.
pub assume_specification[ String::push ](s: &mut String, c: char)
    ensures
        final(s)@ == old(s)@.push(c),
;

/// `char::from_u32` gives the character with a code, if the code belongs to one:
/// it is at most 0x10FFFF and not a surrogate.
pub assume_specification[ char::from_u32 ](code: u32) -> (c: Option<char>)
    ensures
        c == (if code < 0xD800 || 0xE000 <= code <= 0x10FFFF {
            Some(code as char)
        } else {
            None
        }),
;

/// Half of a surrogate pair, either half.
pub open spec fn is_surrogate(unit: u16) -> bool {
    0xD800 <= unit < 0xE000
}

/// The first half of a surrogate pair.
pub open spec fn is_lead(unit: u16) -> bool {
    0xD800 <= unit < 0xDC00
}

/// The second half of a surrogate pair.
pub open spec fn is_trail(unit: u16) -> bool {
    0xDC00 <= unit < 0xE000
}

/// The character that a surrogate pair stands for.
pub open spec fn paired(lead: u16, trail: u16) -> char {
    (0x1_0000 + (lead - 0xD800) * 0x400 + (trail - 0xDC00)) as char
}

/// The text that a sequence of UTF-16 units stands for. A surrogate without its
/// other half gives the replacement character.
pub open spec fn decoded(units: Seq<u16>) -> Seq<char>
    decreases units.len(),
{
    if units.len() == 0 {
        seq![]
    } else if !is_surrogate(units[0]) {
        seq![units[0] as char] + decoded(units.skip(1))
    } else if is_lead(units[0]) && units.len() > 1 && is_trail(units[1]) {
        seq![paired(units[0], units[1])] + decoded(units.skip(2))
    } else {
        seq!['\u{FFFD}'] + decoded(units.skip(1))
    }
}

/// Decodes UTF-16, replacing what is not valid.
pub fn decode_lossy(units: &Vec<u16>) -> (text: String)
    ensures
        text@ == decoded(units@),
{
    let mut text = String::new();
    let mut i: usize = 0;
    assert(units@.skip(0) =~= units@);
    while i < units.len()
        invariant
            i <= units@.len(),
            text@ + decoded(units@.skip(i as int)) == decoded(units@),
        decreases units@.len() - i,
    {
        let ghost rest = units@.skip(i as int);
        let ghost before = text@;
        let unit: u16 = units[i];
        assert(rest.skip(1) =~= units@.skip(i + 1));
        if unit < 0xD800 || unit >= 0xE000 {
            if let Some(c) = char::from_u32(unit as u32) {
                text.push(c);
            }
            i = i + 1;
            assert(text@ + decoded(units@.skip(i as int)) =~= before + decoded(rest));
        } else if unit < 0xDC00 && i + 1 < units.len() && units[i + 1] >= 0xDC00 && units[i + 1]
            < 0xE000 {
            let code: u32 = 0x1_0000 + (unit as u32 - 0xD800) * 0x400 + (units[i + 1] as u32
                - 0xDC00);
            if let Some(c) = char::from_u32(code) {
                text.push(c);
            }
            assert(rest.skip(2) =~= units@.skip(i + 2));
            i = i + 2;
            assert(text@ + decoded(units@.skip(i as int)) =~= before + decoded(rest));
        } else {
            text.push('\u{FFFD}');
            i = i + 1;
            assert(text@ + decoded(units@.skip(i as int)) =~= before + decoded(rest));
        }
    }
    assert(text@ + decoded(units@.skip(i as int)) =~= text@);
    text
}

/// The UTF-16 units of a character.
pub open spec fn units(c: char) -> Seq<u16> {
    if (c as int) < 0x1_0000 {
        seq![c as u16]
    } else {
        seq![
            (0xD800 + (c as int - 0x1_0000) / 0x400) as u16,
            (0xDC00 + (c as int - 0x1_0000) % 0x400) as u16,
        ]
    }
}

/// The UTF-16 units of a text.
pub open spec fn encoded(text: Seq<char>) -> Seq<u16>
    decreases text.len(),
{
    if text.len() == 0 {
        seq![]
    } else {
        encoded(text.drop_last()) + units(text.last())
    }
}

fn push_units(out: &mut Vec<u16>, c: char)
    ensures
        final(out)@ == old(out)@ + units(c),
{
    let code: u32 = c as u32;
    if code < 0x1_0000 {
        out.push(code as u16);
    } else {
        let offset: u32 = code - 0x1_0000;
        assert(offset / 0x400 < 0x400);
        out.push((0xD800 + offset / 0x400) as u16);
        out.push((0xDC00 + offset % 0x400) as u16);
    }
    assert(out@ =~= old(out)@ + units(c));
}

/// Encodes a text in UTF-16.
pub fn encode(text: &str) -> (out: Vec<u16>)
    ensures
        out@ == encoded(text@),
{
    let mut out: Vec<u16> = Vec::new();
    assert(text@.take(0) =~= seq![]);
    for c in it: text.chars()
        invariant
            it.seq() == text@,
            out@ == encoded(text@.take(it.index() as int)),
    {
        assert(text@.take(it.index() + 1).drop_last() =~= text@.take(it.index() as int));
        push_units(&mut out, c);
    }
    assert(text@.take(text@.len() as int) =~= text@);
    out
}

/// Decoding gives the first character back and goes on behind it.
proof fn lemma_decoded_units(c: char, rest: Seq<u16>)
    ensures
        decoded(units(c) + rest) == seq![c] + decoded(rest),
{
    let all = units(c) + rest;
    if (c as int) < 0x1_0000 {
        assert(all.skip(1) =~= rest);
    } else {
        assert(all.skip(2) =~= rest);
        let offset = c as int - 0x1_0000;
        assert(offset == (offset / 0x400) * 0x400 + offset % 0x400) by (nonlinear_arith);
        assert(paired(all[0], all[1]) == c);
    }
}

/// A text can also be encoded from the front.
proof fn lemma_encoded_front(text: Seq<char>)
    requires
        text.len() > 0,
    ensures
        encoded(text) == units(text[0]) + encoded(text.skip(1)),
    decreases text.len(),
{
    if text.len() == 1 {
        assert(text.drop_last() =~= seq![]);
        assert(text.skip(1) =~= seq![]);
        assert(encoded(text) =~= units(text[0]) + encoded(text.skip(1)));
    } else {
        lemma_encoded_front(text.drop_last());
        assert(text.drop_last().skip(1) =~= text.skip(1).drop_last());
        assert(encoded(text) =~= units(text[0]) + encoded(text.skip(1)));
    }
}

/// Every text survives being encoded and decoded again.
pub proof fn law_round_trip(text: Seq<char>)
    ensures
        decoded(encoded(text)) == text,
    decreases text.len(),
{
    if text.len() == 0 {
        assert(decoded(encoded(text)) =~= text);
    } else {
        lemma_encoded_front(text);
        lemma_decoded_units(text[0], encoded(text.skip(1)));
        law_round_trip(text.skip(1));
        assert(seq![text[0]] + text.skip(1) =~= text);
    }
}

/// A unit that is no half of a pair stands for the character with its number, a
/// half alone for the replacement character, and a pair for one character beyond
/// 0xFFFF.
pub proof fn law_single_units(unit: u16, lead: u16, trail: u16)
    requires
        0xD800 <= lead < 0xDC00,
        0xDC00 <= trail < 0xE000,
    ensures
        unit < 0xD800 || unit >= 0xE000 ==> decoded(seq![unit]) == seq![unit as char],
        0xD800 <= unit < 0xE000 ==> decoded(seq![unit]) == seq!['\u{FFFD}'],
        decoded(seq![lead, trail]).len() == 1,
        decoded(seq![lead, trail])[0] as int == 0x1_0000 + (lead - 0xD800) * 0x400 + (trail
            - 0xDC00),
{
    reveal_with_fuel(decoded, 3);
    assert(seq![unit].skip(1) =~= seq![]);
    assert(seq![lead, trail].skip(2) =~= seq![]);
}

/// Units are decoded in order: what is decoded of two runs, one behind the other,
/// is what is decoded of each, unless the cut goes through a pair.
pub proof fn law_decoded_in_order(a: Seq<u16>, b: Seq<u16>)
    requires
        a.len() == 0 || b.len() == 0 || !(0xD800 <= a.last() < 0xDC00 && 0xDC00 <= b[0] < 0xE000),
    ensures
        decoded(a + b) == decoded(a) + decoded(b),
    decreases a.len(),
{
    let all = a + b;
    if a.len() == 0 {
        assert(all =~= b);
        assert(decoded(a) + decoded(b) =~= decoded(b));
    } else {
        let step: int = if is_lead(a[0]) && a.len() > 1 && is_trail(a[1]) {
            2
        } else {
            1
        };
        let rest = a.skip(step);
        if rest.len() > 0 {
            assert(rest.last() == a.last());
        }
        law_decoded_in_order(rest, b);
        assert(all.skip(step) =~= rest + b);
        assert(decoded(all) =~= decoded(a) + decoded(b));
    }
}

} // verus!
