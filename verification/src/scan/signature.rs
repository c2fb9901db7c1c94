//! Signatures in text form.
use vstd::prelude::*;

verus! {

/// White space in the sense of Unicode.
pub open spec fn blank(c: char) -> bool {
    ||| '\u{9}' <= c <= '\u{D}'
    ||| c == ' '
    ||| c == '\u{85}'
    ||| c == '\u{A0}'
    ||| c == '\u{1680}'
    ||| '\u{2000}' <= c <= '\u{200A}'
    ||| c == '\u{2028}'
    ||| c == '\u{2029}'
    ||| c == '\u{202F}'
    ||| c == '\u{205F}'
    ||| c == '\u{3000}'
}

/// How many characters a text has before the first blank.
pub open spec fn word_len(s: Seq<char>) -> nat
    decreases s.len(),
{
    if s.len() == 0 || blank(s[0]) {
        0
    } else {
        1 + word_len(s.skip(1))
    }
}

/// The words of a text, which blanks separate.
pub open spec fn words(s: Seq<char>) -> Seq<Seq<char>>
    decreases s.len(),
{
    if s.len() == 0 {
        seq![]
    } else if blank(s[0]) {
        words(s.skip(1))
    } else {
        proof {
            lemma_word_len(s);
        }
        seq![s.take(word_len(s) as int)] + words(s.skip(word_len(s) as int))
    }
}

/// The value of a hexadecimal digit, in either case.
pub open spec fn digit_value(c: char) -> Option<int> {
    if '0' <= c <= '9' {
        Some(c as int - '0' as int)
    } else if 'a' <= c <= 'f' {
        Some(c as int - 'a' as int + 10)
    } else if 'A' <= c <= 'F' {
        Some(c as int - 'A' as int + 10)
    } else {
        None
    }
}

/// The number that hexadecimal digits stand for.
pub open spec fn hex_number(digits: Seq<char>) -> Option<int>
    decreases digits.len(),
{
    if digits.len() == 0 {
        Some(0)
    } else {
        match (hex_number(digits.drop_last()), digit_value(digits.last())) {
            (Some(high), Some(low)) => Some(16 * high + low),
            _ => None,
        }
    }
}

/// The digits of a number that may have a plus sign in front.
pub open spec fn unsigned(word: Seq<char>) -> Seq<char> {
    if word.len() > 0 && word[0] == '+' {
        word.skip(1)
    } else {
        word
    }
}

/// The byte that a word stands for: one or more hexadecimal digits whose value
/// fits into a byte.
pub open spec fn byte_value(word: Seq<char>) -> Option<u8> {
    match hex_number(unsigned(word)) {
        Some(value) => if unsigned(word).len() > 0 && value < 0x100 {
            Some(value as u8)
        } else {
            None
        },
        None => None,
    }
}

/// The pattern element that a word stands for: a byte, or any byte.
pub open spec fn element(word: Seq<char>) -> Option<Option<u8>> {
    if word == seq!['?'] || word == seq!['?', '?'] {
        Some(None)
    } else {
        match byte_value(word) {
            Some(value) => Some(Some(value)),
            None => None,
        }
    }
}

/// The pattern that a text stands for. There is none if a word of the text does
/// not stand for an element, or if the text has no words.
pub open spec fn parsed(s: Seq<char>) -> Option<Seq<Option<u8>>> {
    let all = words(s).map_values(|w: Seq<char>| element(w));
    if all.len() > 0 && !all.contains(None) {
        Some(all.map_values(|e: Option<Option<u8>>| e->Some_0))
    } else {
        None
    }
}

fn is_blank(c: char) -> (r: bool)
    ensures
        r == blank(c),
{
    ('\u{9}' <= c && c <= '\u{D}') || c == ' ' || c == '\u{85}' || c == '\u{A0}' || c == '\u{1680}'
        || ('\u{2000}' <= c && c <= '\u{200A}') || c == '\u{2028}' || c == '\u{2029}' || c
        == '\u{202F}' || c == '\u{205F}' || c == '\u{3000}'
}

fn hex_digit(c: char) -> (r: Option<u32>)
    ensures
        match r {
            Some(v) => digit_value(c) == Some(v as int) && v < 16,
            None => digit_value(c) is None,
        },
{
    let code: u32 = c as u32;
    if '0' <= c && c <= '9' {
        Some(code - 48)
    } else if 'a' <= c && c <= 'f' {
        Some(code - 87)
    } else if 'A' <= c && c <= 'F' {
        Some(code - 55)
    } else {
        None
    }
}

/// More digits never make a number smaller, and a wrong digit stays wrong.
proof fn lemma_hex_grows(digits: Seq<char>, n: int)
    requires
        0 <= n <= digits.len(),
    ensures
        hex_number(digits) matches Some(v) ==> (hex_number(digits.take(n)) matches Some(u) && 0 <= u
            <= v),
    decreases digits.len(),
{
    if n == digits.len() {
        assert(digits.take(n) =~= digits);
        if n > 0 {
            lemma_hex_grows(digits.drop_last(), n - 1);
        }
    } else {
        lemma_hex_grows(digits.drop_last(), n);
        assert(digits.drop_last().take(n) =~= digits.take(n));
    }
}

fn parse_byte(word: &Vec<char>) -> (r: Option<u8>)
    ensures
        r == byte_value(word@),
{
    let from: usize = if word.len() > 0 && word[0] == '+' {
        1
    } else {
        0
    };
    let ghost digits = unsigned(word@);
    assert(digits =~= word@.skip(from as int));
    if word.len() == from {
        return None;
    }
    let mut value: u32 = 0;
    let mut i: usize = from;
    assert(digits.take(0) =~= seq![]);
    while i < word.len()
        invariant
            digits == unsigned(word@),
            digits == word@.skip(from as int),
            0 < digits.len(),
            from <= i <= word@.len(),
            value < 0x100,
            hex_number(digits.take(i - from)) == Some(value as int),
        decreases word@.len() - i,
    {
        proof {
            lemma_hex_grows(digits, i - from + 1);
            assert(digits.take(i - from + 1).drop_last() =~= digits.take(i - from));
        }
        match hex_digit(word[i]) {
            Some(low) => {
                value = 16 * value + low;
            },
            None => return None,
        }
        if value >= 0x100 {
            return None;
        }
        i = i + 1;
    }
    assert(digits.take(i - from) =~= digits);
    Some(value as u8)
}

fn parse_element(word: &Vec<char>) -> (r: Option<Option<u8>>)
    ensures
        r == element(word@),
{
    if word.len() == 1 && word[0] == '?' {
        assert(word@ =~= seq!['?']);
        return Some(None);
    }
    if word.len() == 2 && word[0] == '?' && word[1] == '?' {
        assert(word@ =~= seq!['?', '?']);
        return Some(None);
    }
    match parse_byte(word) {
        Some(value) => Some(Some(value)),
        None => None,
    }
}

/// A word is no longer than its text, and has no blank.
pub proof fn lemma_word_len(s: Seq<char>)
    ensures
        word_len(s) <= s.len(),
        forall|i: int| 0 <= i < word_len(s) ==> !blank(#[trigger] s[i]),
        word_len(s) < s.len() ==> blank(s[word_len(s) as int]),
    decreases s.len(),
{
    if s.len() > 0 && !blank(s[0]) {
        lemma_word_len(s.skip(1));
        assert forall|i: int| 0 <= i < word_len(s) implies !blank(#[trigger] s[i]) by {
            if i > 0 {
                assert(s.skip(1)[i - 1] == s[i]);
            }
        }
    }
}

/// A word is determined by the first blank behind it.
proof fn lemma_word_ends(s: Seq<char>, n: nat)
    requires
        n <= s.len(),
        forall|i: int| 0 <= i < n ==> !blank(#[trigger] s[i]),
        n < s.len() ==> blank(s[n as int]),
    ensures
        word_len(s) == n,
    decreases s.len(),
{
    if n > 0 {
        assert(!blank(s[0]));
        assert forall|i: int| 0 <= i < n - 1 implies !blank(#[trigger] s.skip(1)[i]) by {
            assert(s.skip(1)[i] == s[i + 1]);
        }
        lemma_word_ends(s.skip(1), (n - 1) as nat);
    }
}

/// Parses a signature such as `83 C1 0C ? 8B C1`, where `?` stands for any byte.
pub fn parse(signature: &str) -> (r: Option<Vec<Option<u8>>>)
    ensures
        match r {
            Some(pattern) => parsed(signature@) == Some(pattern@),
            None => parsed(signature@) is None,
        },
{
    let len: usize = signature.unicode_len();
    let ghost text = signature@;
    let ghost all = words(text).map_values(|w: Seq<char>| element(w));
    let mut pattern: Vec<Option<u8>> = Vec::new();
    let mut i: usize = 0;
    assert(text.skip(0) =~= text);
    while i < len
        invariant
            len == text.len(),
            text == signature@,
            i <= len,
            all == words(text).map_values(|w: Seq<char>| element(w)),
            all.len() == pattern@.len() + words(text.skip(i as int)).len(),
            forall|k: int|
                0 <= k < pattern@.len() ==> #[trigger] all[k] == Some(pattern@[k]),
            forall|k: int|
                0 <= k < words(text.skip(i as int)).len() ==> #[trigger] words(
                    text.skip(i as int),
                )[k] == words(text)[pattern@.len() + k],
        decreases len - i,
    {
        let ghost rest = text.skip(i as int);
        assert(rest.skip(1) =~= text.skip(i + 1));
        if is_blank(signature.get_char(i)) {
            i = i + 1;
        } else {
            let mut word: Vec<char> = Vec::new();
            let from: usize = i;
            while i < len && !is_blank(signature.get_char(i))
                invariant
                    len == text.len(),
                    text == signature@,
                    from <= i <= len,
                    rest == text.skip(from as int),
                    word@ == rest.take(i - from),
                    forall|k: int| 0 <= k < i - from ==> !blank(#[trigger] rest[k]),
                ensures
                    from <= i <= len,
                    word@ == rest.take(i - from),
                    forall|k: int| 0 <= k < i - from ==> !blank(#[trigger] rest[k]),
                    i < len ==> blank(text[i as int]),
                decreases len - i,
            {
                word.push(signature.get_char(i));
                assert(word@ =~= rest.take(i - from + 1));
                i = i + 1;
            }
            proof {
                lemma_word_ends(rest, (i - from) as nat);
                assert(!blank(rest[0]));
                assert(rest.skip(i - from) =~= text.skip(i as int));
                assert(words(rest)[0] == word@);
                assert(all[pattern@.len() as int] == element(words(text)[pattern@.len() + 0int]));
                assert forall|k: int| 0 <= k < words(text.skip(i as int)).len() implies
                    #[trigger] words(text.skip(i as int))[k] == words(text)[pattern@.len() + 1
                    + k] by {
                    assert(words(rest)[k + 1] == words(text.skip(i as int))[k]);
                }
            }
            match parse_element(&word) {
                Some(e) => pattern.push(e),
                None => {
                    assert(all.contains(None));
                    return None;
                },
            }
        }
    }
    assert(words(text.skip(i as int)) =~= seq![]);
    if pattern.len() == 0 {
        return None;
    }
    assert(pattern@ =~= all.map_values(|e: Option<Option<u8>>| e->Some_0));
    Some(pattern)
}

proof fn lemma_word_before_space(a: Seq<char>, b: Seq<char>)
    ensures
        word_len(a + seq![' '] + b) == word_len(a),
    decreases a.len(),
{
    let all = a + seq![' '] + b;
    if a.len() > 0 {
        assert(all.skip(1) =~= a.skip(1) + seq![' '] + b);
        lemma_word_before_space(a.skip(1), b);
    }
}

/// A space separates words: the words of two texts with a space in between are
/// the words of the first and then those of the second.
pub proof fn law_words_of_two_texts(a: Seq<char>, b: Seq<char>)
    ensures
        words(a + seq![' '] + b) == words(a) + words(b),
    decreases a.len(),
{
    let all = a + seq![' '] + b;
    if a.len() == 0 {
        assert(all.skip(1) =~= b);
        assert(words(a) + words(b) =~= words(b));
    } else if blank(a[0]) {
        assert(all.skip(1) =~= a.skip(1) + seq![' '] + b);
        law_words_of_two_texts(a.skip(1), b);
    } else {
        lemma_word_len(a);
        lemma_word_before_space(a, b);
        let n = word_len(a) as int;
        assert(all.take(n) =~= a.take(n));
        assert(all.skip(n) =~= a.skip(n) + seq![' '] + b);
        law_words_of_two_texts(a.skip(n), b);
        assert(words(all) =~= words(a) + words(b));
    }
}

/// Signatures can be put together: the pattern of two with a space in between is
/// the first pattern and then the second, and there is none unless both are well
/// formed.
pub proof fn law_signatures_can_be_joined(a: Seq<char>, b: Seq<char>)
    ensures
        parsed(a) matches Some(p) ==> (parsed(b) matches Some(q) ==> parsed(a + seq![' '] + b)
            == Some(p + q)),
        parsed(a + seq![' '] + b) is Some && words(a).len() > 0 ==> parsed(a) is Some,
        parsed(a + seq![' '] + b) is Some && words(b).len() > 0 ==> parsed(b) is Some,
{
    let f = |w: Seq<char>| element(w);
    let g = |e: Option<Option<u8>>| e->Some_0;
    let x = words(a).map_values(f);
    let y = words(b).map_values(f);
    law_words_of_two_texts(a, b);
    let all = words(a + seq![' '] + b).map_values(f);
    assert(all =~= x + y);
    if all.contains(None) {
        let k = choose|k: int| 0 <= k < all.len() && all[k] == None::<Option<u8>>;
        if k < x.len() {
            assert(x[k] == None::<Option<u8>>);
        } else {
            assert(y[k - x.len()] == None::<Option<u8>>);
        }
    }
    if x.contains(None) {
        let k = choose|k: int| 0 <= k < x.len() && x[k] == None::<Option<u8>>;
        assert(all[k] == None::<Option<u8>>);
    }
    if y.contains(None) {
        let k = choose|k: int| 0 <= k < y.len() && y[k] == None::<Option<u8>>;
        assert(all[x.len() + k] == None::<Option<u8>>);
    }
    assert(all.map_values(g) =~= x.map_values(g) + y.map_values(g));
}

/// The number of a digit, by its code.
pub open spec fn code_value(code: int) -> int {
    if 48 <= code <= 57 {
        code - 48
    } else if 65 <= code <= 70 {
        code - 55
    } else if 97 <= code <= 102 {
        code - 87
    } else {
        -1
    }
}

/// A word of two characters stands for a byte exactly if both are hexadecimal
/// digits, the first counting sixteen times; two question marks stand for any byte.
pub proof fn law_two_characters(a: char, b: char)
    requires
        a != '+',
    ensures
        ({
            let word = seq![a, b];
            let high = code_value(a as int);
            let low = code_value(b as int);
            &&& high >= 0 && low >= 0 ==> element(word) == Some(Some((16 * high + low) as u8))
            &&& a == '?' && b == '?' ==> element(word) == Some(None::<u8>)
            &&& (high < 0 || low < 0) && !(a == '?' && b == '?') ==> element(word) is None
        }),
{
    let word = seq![a, b];
    reveal_with_fuel(hex_number, 3);
    assert(word.drop_last() =~= seq![a]);
    assert(seq![a].drop_last() =~= seq![]);
    assert(word[0] == a);
    assert(word[1] == b);
    if word == seq!['?'] {
        assert(word.len() == 1);
    }
    if word == seq!['?', '?'] {
        assert(seq!['?', '?'][0] == word[0]);
        assert(seq!['?', '?'][1] == word[1]);
    }
}

/// The blanks, by their codes.
pub proof fn law_blanks(c: char)
    ensures
        blank(c) <==> {
            ||| 9 <= c as int <= 13
            ||| c as int == 0x20
            ||| c as int == 0x85
            ||| c as int == 0xA0
            ||| c as int == 0x1680
            ||| 0x2000 <= c as int <= 0x200A
            ||| 0x2028 <= c as int <= 0x2029
            ||| c as int == 0x202F
            ||| c as int == 0x205F
            ||| c as int == 0x3000
        },
{
}

proof fn lemma_zero_in_front(w: Seq<char>)
    ensures
        hex_number(seq!['0'] + w) == hex_number(w),
    decreases w.len(),
{
    let longer = seq!['0'] + w;
    if w.len() > 0 {
        lemma_zero_in_front(w.drop_last());
        assert(longer.drop_last() =~= seq!['0'] + w.drop_last());
        assert(longer.last() == w.last());
    } else {
        reveal_with_fuel(hex_number, 2);
        assert(longer.drop_last() =~= seq![]);
        assert(longer.last() == '0');
    }
}

/// A zero or a plus sign in front of a number makes no difference; a plus sign
/// alone is no number.
pub proof fn law_front_of_a_number(w: Seq<char>)
    requires
        w.len() > 0,
        w[0] != '+',
        w[0] != '?',
    ensures
        element(seq!['0'] + w) == element(w),
        element(seq!['+'] + w) == element(w),
        element(seq!['+']) is None,
        element(Seq::<char>::empty()) is None,
{
    let zero = seq!['0'] + w;
    let plus = seq!['+'] + w;
    lemma_zero_in_front(w);
    assert(zero[0] == '0');
    assert(plus[0] == '+');
    assert(plus.skip(1) =~= w);
    assert(unsigned(plus) =~= w);
    assert(seq!['+'][0] == '+');
    assert(unsigned(seq!['+']) =~= seq![]);
    assert(seq!['?'][0] == '?');
    assert(seq!['?', '?'][0] == '?');
    assert(Seq::<char>::empty().len() == 0);
    assert(seq!['?'].len() == 1 && seq!['?', '?'].len() == 2);
}

/// One question mark stands for any byte; one digit stands for its value; and
/// three digits stand for no byte, unless the first is a zero.
pub proof fn law_other_words(a: char, b: char, c: char)
    ensures
        element(seq!['?']) == Some(None::<u8>),
        code_value(a as int) >= 0 ==> element(seq![a]) == Some(Some(code_value(a as int) as u8)),
        code_value(a as int) > 0 ==> element(seq![a, b, c]) is None,
{
    reveal_with_fuel(hex_number, 4);
    assert(seq![a].drop_last() =~= seq![]);
    assert(seq![a][0] == a);
    assert(seq!['?'][0] == '?');
    assert(seq![a, b, c].drop_last() =~= seq![a, b]);
    assert(seq![a, b].drop_last() =~= seq![a]);
    assert(seq![a, b, c][0] == a);
    assert(seq!['?', '?'].len() == 2);
}

} // verus!
