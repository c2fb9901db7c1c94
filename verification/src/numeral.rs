//! Numbers as text.
use vstd::prelude::*;

verus! {

/// The digit with a value below sixteen.
pub open spec fn digit(value: int) -> char {
    if value < 10 {
        ('0' as int + value) as char
    } else {
        ('A' as int + value - 10) as char
    }
}

/// The digits of a number, the most significant first, without leading zeros.
pub open spec fn digits(n: nat, base: nat) -> Seq<char>
    decreases n,
{
    if n < base || base < 2 {
        seq![digit(n as int)]
    } else {
        proof {
            assert(n / base < n) by (nonlinear_arith)
                requires
                    n >= base,
                    base >= 2,
            ;
        }
        digits(n / base, base).push(digit((n % base) as int))
    }
}

/// A number in decimal.
pub open spec fn decimal(n: nat) -> Seq<char> {
    digits(n, 10)
}

/// A number in hexadecimal with capital letters.
pub open spec fn hex(n: nat) -> Seq<char> {
    digits(n, 16)
}

/// A signed number in decimal.
pub open spec fn signed(n: int) -> Seq<char> {
    if n < 0 {
        seq!['-'] + decimal((-n) as nat)
    } else {
        decimal(n as nat)
    }
}

/// As many copies of a character as asked for.
pub open spec fn run(c: char, count: nat) -> Seq<char> {
    Seq::new(count, |i: int| c)
}

/// The text with zeros in front, up to a width.
pub open spec fn zero_padded(text: Seq<char>, width: nat) -> Seq<char> {
    if text.len() < width {
        run('0', (width - text.len()) as nat) + text
    } else {
        text
    }
}

/// The text with spaces behind it, up to a width.
pub open spec fn space_padded(text: Seq<char>, width: nat) -> Seq<char> {
    if text.len() < width {
        text + run(' ', (width - text.len()) as nat)
    } else {
        text
    }
}

fn to_digit(value: u64) -> (c: char)
    requires
        value < 16,
    ensures
        c == digit(value as int),
{
    let code: u8 = value as u8;
    if code < 10 {
        (48 + code) as char
    } else {
        (55 + code) as char
    }
}

fn push_digits(text: &mut String, n: u64, base: u64)
    requires
        2 <= base <= 16,
    ensures
        final(text)@ == old(text)@ + digits(n as nat, base as nat),
    decreases n,
{
    if n < base {
        text.push(to_digit(n));
        assert(text@ =~= old(text)@ + digits(n as nat, base as nat));
    } else {
        assert(n / base < n) by (nonlinear_arith)
            requires
                n >= base,
                base >= 2,
        ;
        assert(n % base < 16) by (nonlinear_arith)
            requires
                2 <= base <= 16,
        ;
        push_digits(text, n / base, base);
        text.push(to_digit(n % base));
        assert(text@ =~= old(text)@ + digits(n as nat, base as nat));
    }
}

/// Appends a number in decimal.
pub fn push_decimal(text: &mut String, n: u64)
    ensures
        final(text)@ == old(text)@ + decimal(n as nat),
{
    push_digits(text, n, 10);
}

/// Appends a number in hexadecimal, with capital letters.
pub fn push_hex(text: &mut String, n: u64)
    ensures
        final(text)@ == old(text)@ + hex(n as nat),
{
    push_digits(text, n, 16);
}

/// Appends a signed number in decimal.
pub fn push_signed(text: &mut String, n: i64)
    ensures
        final(text)@ == old(text)@ + signed(n as int),
{
    if n < 0 {
        text.push('-');
        push_decimal(text, (-(n + 1)) as u64 + 1);
        assert(text@ =~= old(text)@ + signed(n as int));
    } else {
        push_decimal(text, n as u64);
    }
}

/// Appends copies of a character.
fn push_run(text: &mut String, c: char, count: usize)
    ensures
        final(text)@ == old(text)@ + run(c, count as nat),
{
    assert(text@ =~= old(text)@ + run(c, 0));
    for i in 0..count
        invariant
            text@ == old(text)@ + run(c, i as nat),
    {
        text.push(c);
        assert(text@ =~= old(text)@ + run(c, (i + 1) as nat));
    }
}

/// Appends a decimal number with zeros in front, up to a width.
pub fn push_zero_padded(text: &mut String, n: u64, width: usize)
    ensures
        final(text)@ == old(text)@ + zero_padded(decimal(n as nat), width as nat),
{
    let mut number = String::new();
    push_decimal(&mut number, n);
    assert(number@ =~= decimal(n as nat));
    let len: usize = number.as_str().unicode_len();
    if len < width {
        push_run(text, '0', width - len);
    }
    text.append(number.as_str());
    assert(text@ =~= old(text)@ + zero_padded(decimal(n as nat), width as nat));
}

/// Appends a text with spaces behind it, up to a width.
pub fn push_space_padded(text: &mut String, part: &str, width: usize)
    ensures
        final(text)@ == old(text)@ + space_padded(part@, width as nat),
{
    text.append(part);
    let len: usize = part.unicode_len();
    if len < width {
        push_run(text, ' ', width - len);
    }
    assert(text@ =~= old(text)@ + space_padded(part@, width as nat));
}

/// The number that decimal digits stand for.
pub open spec fn value_of(text: Seq<char>) -> int
    decreases text.len(),
{
    if text.len() == 0 {
        0
    } else {
        10 * value_of(text.drop_last()) + (text.last() as int - '0' as int)
    }
}

/// A decimal number can be read back: no two numbers look the same.
pub proof fn law_decimal_can_be_read(n: nat)
    ensures
        value_of(decimal(n)) == n,
        decimal(n).len() > 0,
    decreases n,
{
    if n < 10 {
        assert(decimal(n).drop_last() =~= seq![]);
        assert(value_of(decimal(n).drop_last()) == 0);
    } else {
        law_decimal_can_be_read(n / 10);
        assert(decimal(n).drop_last() =~= decimal(n / 10));
    }
}

/// A number that fits into a width fills it exactly once it is padded.
pub proof fn law_padded_width(n: nat)
    ensures
        n < 10 ==> decimal(n).len() == 1,
        n < 100 ==> decimal(n).len() <= 2 && zero_padded(decimal(n), 2).len() == 2,
        n < 1000 ==> decimal(n).len() <= 3 && zero_padded(decimal(n), 3).len() == 3,
{
    reveal_with_fuel(digits, 4);
}

/// A decimal number is made of decimal digits, and the first of them is zero only
/// for zero itself.
pub proof fn law_decimal_digits(n: nat)
    ensures
        forall|i: int| 0 <= i < decimal(n).len() ==> '0' <= #[trigger] decimal(n)[i] <= '9',
        n > 0 ==> decimal(n)[0] != '0',
        n == 0 ==> decimal(n) == seq!['0'],
    decreases n,
{
    law_decimal_can_be_read(n);
    if n >= 10 {
        law_decimal_digits(n / 10);
        law_decimal_can_be_read(n / 10);
        assert(decimal(n).drop_last() =~= decimal(n / 10));
        assert forall|i: int| 0 <= i < decimal(n).len() implies '0' <= #[trigger] decimal(n)[i]
            <= '9' by {
            if i < decimal(n / 10).len() {
                assert(decimal(n)[i] == decimal(n / 10)[i]);
            }
        }
        assert(decimal(n)[0] == decimal(n / 10)[0]);
    }
}

/// The number that hexadecimal digits with capital letters stand for.
pub open spec fn hex_value_of(text: Seq<char>) -> int
    decreases text.len(),
{
    if text.len() == 0 {
        0
    } else if '0' <= text.last() <= '9' {
        16 * hex_value_of(text.drop_last()) + (text.last() as int - '0' as int)
    } else {
        16 * hex_value_of(text.drop_last()) + 10 + (text.last() as int - 'A' as int)
    }
}

/// A hexadecimal number can be read back, is made of digits and capital letters
/// only, and begins with zero only for zero itself.
pub proof fn law_hex_can_be_read(n: nat)
    ensures
        hex_value_of(hex(n)) == n,
        hex(n).len() > 0,
        forall|i: int|
            0 <= i < hex(n).len() ==> '0' <= #[trigger] hex(n)[i] <= '9' || 'A' <= hex(n)[i] <= 'F',
        n > 0 ==> hex(n)[0] != '0',
    decreases n,
{
    if n < 16 {
        assert(hex(n).drop_last() =~= seq![]);
        assert(hex_value_of(hex(n).drop_last()) == 0);
    } else {
        law_hex_can_be_read(n / 16);
        assert(hex(n).drop_last() =~= hex(n / 16));
        assert forall|i: int| 0 <= i < hex(n).len() implies '0' <= #[trigger] hex(n)[i] <= '9'
            || 'A' <= hex(n)[i] <= 'F' by {
            if i < hex(n / 16).len() {
                assert(hex(n)[i] == hex(n / 16)[i]);
            }
        }
        assert(hex(n)[0] == hex(n / 16)[0]);
    }
}

/// A signed number can be read back: a minus sign stands in front of the negative
/// ones, and nothing in front of the others.
pub proof fn law_signed_can_be_read(n: int)
    ensures
        n < 0 ==> signed(n)[0] == '-' && value_of(signed(n).skip(1)) == -n,
        n >= 0 ==> signed(n)[0] != '-' && value_of(signed(n)) == n,
{
    if n < 0 {
        law_decimal_can_be_read((-n) as nat);
        assert(signed(n).skip(1) =~= decimal((-n) as nat));
    } else {
        law_decimal_can_be_read(n as nat);
        law_decimal_digits(n as nat);
    }
}

proof fn lemma_leading_zeros(text: Seq<char>, count: nat)
    ensures
        value_of(run('0', count) + text) == value_of(text),
    decreases text.len(), count,
{
    let all = run('0', count) + text;
    if text.len() > 0 {
        lemma_leading_zeros(text.drop_last(), count);
        assert(all.drop_last() =~= run('0', count) + text.drop_last());
        assert(all.last() == text.last());
    } else if count > 0 {
        lemma_leading_zeros(text, (count - 1) as nat);
        assert(all.drop_last() =~= run('0', (count - 1) as nat) + text);
        assert(all.last() == '0');
    } else {
        assert(all =~= text);
    }
}

/// Zeros in front change the width of a number but not its value: the text stands
/// at the end, and in front of it stand zeros only.
pub proof fn law_zero_padding(text: Seq<char>, width: nat)
    ensures
        ({
            let padded = zero_padded(text, width);
            let before = padded.len() - text.len();
            &&& padded.len() >= width
            &&& padded.len() == text.len() || padded.len() == width
            &&& before >= 0
            &&& padded.skip(before) == text
            &&& forall|i: int| 0 <= i < before ==> #[trigger] padded[i] == '0'
            &&& value_of(padded) == value_of(text)
        }),
{
    let padded = zero_padded(text, width);
    assert(padded.skip(padded.len() - text.len()) =~= text);
    if text.len() < width {
        lemma_leading_zeros(text, (width - text.len()) as nat);
    }
}

/// Spaces behind a text change its width only: the text stands in front, and
/// behind it stand spaces only.
pub proof fn law_space_padding(text: Seq<char>, width: nat)
    ensures
        ({
            let padded = space_padded(text, width);
            &&& padded.len() >= width
            &&& padded.len() == text.len() || padded.len() == width
            &&& padded.len() >= text.len()
            &&& padded.take(text.len() as int) == text
            &&& forall|i: int| text.len() <= i < padded.len() ==> #[trigger] padded[i] == ' '
        }),
{
    assert(space_padded(text, width).take(text.len() as int) =~= text);
}

} // verus!
