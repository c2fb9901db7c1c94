//! Paths of Windows: how a file is named in a directory, and when two paths name
//! the same file.
use vstd::prelude::*;

use crate::log::texts;

verus! {

/// A letter that can name a drive.
pub open spec fn letter(c: char) -> bool {
    'a' <= c <= 'z' || 'A' <= c <= 'Z'
}

/// A drive is named at a place of the path.
pub open spec fn names_drive(path: Seq<char>, at: int) -> bool {
    at + 1 < path.len() && letter(path[at]) && path[at + 1] == ':'
}

/// The path of a file in a directory: with a separator in between, unless the
/// directory already ends in one or names nothing but a drive.
pub open spec fn joined(dir: Seq<char>, name: Seq<char>) -> Seq<char> {
    if dir.len() == 0 || dir.last() == '\\' || dir.last() == '/' || (dir.len() == 2
        && names_drive(dir, 0)) {
        dir + name
    } else {
        dir + seq!['\\'] + name
    }
}

/// A path that begins with `\\?\` is passed on by the system as it stands.
pub open spec fn verbatim(path: Seq<char>) -> bool {
    path.len() >= 4 && path[0] == '\\' && path[1] == '\\' && path[2] == '?' && path[3] == '\\'
}

/// The character separates the parts of a path.
pub open spec fn separates(c: char, verbatim: bool) -> bool {
    c == '\\' || (c == '/' && !verbatim)
}

/// The capital letter of a drive.
pub open spec fn capital(c: char) -> char {
    if 'a' <= c <= 'z' {
        (c as u8 - 32) as u8 as char
    } else {
        c
    }
}

/// Where the letter of a drive stands in a path, if it has one.
pub open spec fn drive_place(path: Seq<char>) -> Option<int> {
    if verbatim(path) {
        if names_drive(path, 4) && (path.len() == 6 || path[6] == '\\') {
            Some(4)
        } else {
            None
        }
    } else if names_drive(path, 0) {
        Some(0)
    } else {
        None
    }
}

/// The path with a capital letter for the drive.
pub open spec fn raised(path: Seq<char>) -> Seq<char> {
    match drive_place(path) {
        Some(at) => path.update(at, capital(path[at])),
        None => path,
    }
}

/// How a path begins.
#[derive(Clone, Copy, Debug, PartialEq, Eq, Structural)]
pub enum Beginning {
    /// With a name.
    Name,
    /// With the root.
    Root,
    /// With a name of the network, behind two separators.
    Network,
    /// With `\\?\`.
    Verbatim,
}

/// How a path begins.
pub open spec fn beginning(path: Seq<char>) -> Beginning {
    if verbatim(path) {
        Beginning::Verbatim
    } else if path.len() == 0 || !separates(path[0], false) {
        Beginning::Name
    } else if path.len() > 2 && separates(path[1], false) && !separates(path[2], false) {
        Beginning::Network
    } else {
        Beginning::Root
    }
}

/// A part counts unless it is empty, or is a dot that names the directory which
/// the parts before it name.
pub open spec fn counts(start: Beginning, first: bool, part: Seq<char>) -> bool {
    part.len() > 0 && (part != seq!['.'] || start is Verbatim || (first && !(start is Root)))
}

/// Parts with one more, if it counts.
pub open spec fn extended(start: Beginning, parts: Seq<Seq<char>>, part: Seq<char>) -> Seq<
    Seq<char>,
> {
    if counts(start, parts.len() == 0, part) {
        parts.push(part)
    } else {
        parts
    }
}

/// The parts in the first `n` characters of a path, and the part that is not over
/// yet.
pub open spec fn cut(start: Beginning, path: Seq<char>, n: nat) -> (Seq<Seq<char>>, Seq<char>)
    decreases n,
{
    if n == 0 {
        (seq![], seq![])
    } else {
        let (parts, part) = cut(start, path, (n - 1) as nat);
        let c = path[n - 1];
        if separates(c, start is Verbatim) {
            (extended(start, parts, part), seq![])
        } else {
            (parts, part.push(c))
        }
    }
}

/// The parts of a path.
pub open spec fn parts_of(path: Seq<char>) -> Seq<Seq<char>> {
    let start = beginning(path);
    let (parts, part) = cut(start, raised(path), path.len());
    extended(start, parts, part)
}

/// Two paths name the same file: they begin alike and have the same parts. It
/// does not matter which separators stand between the parts and how many, nor
/// whether the letter of the drive is a capital.
pub open spec fn same(a: Seq<char>, b: Seq<char>) -> bool {
    beginning(a) == beginning(b) && parts_of(a) == parts_of(b)
}

fn is_letter(c: char) -> (r: bool)
    ensures
        r == letter(c),
{
    ('a' <= c && c <= 'z') || ('A' <= c && c <= 'Z')
}

/// The path of a file in a directory.
pub fn join(dir: &str, name: &str) -> (path: String)
    ensures
        path@ == joined(dir@, name@),
{
    let len: usize = dir.unicode_len();
    let mut path = dir.to_owned();
    let complete = if len == 0 {
        true
    } else {
        let end = dir.get_char(len - 1);
        end == '\\' || end == '/' || (len == 2 && end == ':' && is_letter(dir.get_char(0)))
    };
    if !complete {
        path.push('\\');
    }
    path.append(name);
    assert(path@ =~= joined(dir@, name@));
    path
}

fn to_capital(c: char) -> (r: char)
    ensures
        r == capital(c),
{
    if 'a' <= c && c <= 'z' {
        (c as u8 - 32) as char
    } else {
        c
    }
}

fn is_separator(c: char, verbatim: bool) -> (r: bool)
    ensures
        r == separates(c, verbatim),
{
    c == '\\' || (c == '/' && !verbatim)
}

fn begins(path: &str) -> (start: Beginning)
    ensures
        start == beginning(path@),
{
    let len: usize = path.unicode_len();
    if len >= 4 && path.get_char(0) == '\\' && path.get_char(1) == '\\' && path.get_char(2) == '?'
        && path.get_char(3) == '\\' {
        return Beginning::Verbatim;
    }
    if len == 0 || !is_separator(path.get_char(0), false) {
        return Beginning::Name;
    }
    if len > 2 && is_separator(path.get_char(1), false) && !is_separator(path.get_char(2), false) {
        Beginning::Network
    } else {
        Beginning::Root
    }
}

fn find_drive(path: &str, verbatim_path: bool) -> (place: Option<usize>)
    requires
        verbatim_path == verbatim(path@),
    ensures
        match place {
            Some(at) => drive_place(path@) == Some(at as int),
            None => drive_place(path@) is None,
        },
{
    let len: usize = path.unicode_len();
    if verbatim_path {
        if len > 5 && is_letter(path.get_char(4)) && path.get_char(5) == ':' && (len == 6
            || path.get_char(6) == '\\') {
            Some(4)
        } else {
            None
        }
    } else if len > 1 && is_letter(path.get_char(0)) && path.get_char(1) == ':' {
        Some(0)
    } else {
        None
    }
}

fn add_part(start: Beginning, parts: &mut Vec<String>, part: String)
    ensures
        texts(final(parts)@) == extended(start, texts(old(parts)@), part@),
{
    let len: usize = part.as_str().unicode_len();
    let dot = len == 1 && part.as_str().get_char(0) == '.';
    assert(dot == (part@ == seq!['.'])) by {
        if dot {
            assert(part@ =~= seq!['.']);
        }
    }
    let kept = dot && match start {
        Beginning::Verbatim => true,
        Beginning::Root => false,
        _ => parts.len() == 0,
    };
    if len > 0 && (!dot || kept) {
        let ghost before = texts(parts@);
        parts.push(part);
        assert(texts(parts@) =~= before.push(part@));
    }
}

/// Takes a path apart.
fn split(start: Beginning, path: &str) -> (parts: Vec<String>)
    requires
        start == beginning(path@),
    ensures
        texts(parts@) == parts_of(path@),
{
    let verbatim_path = match start {
        Beginning::Verbatim => true,
        _ => false,
    };
    let drive = find_drive(path, verbatim_path);
    let len: usize = path.unicode_len();
    let ghost text = raised(path@);
    let mut parts: Vec<String> = Vec::new();
    let mut part = String::new();
    assert(texts(parts@) =~= cut(start, text, 0).0);
    assert(part@ =~= cut(start, text, 0).1);
    for i in 0..len
        invariant
            len == path@.len(),
            text == raised(path@),
            verbatim_path == (start is Verbatim),
            match drive {
                Some(at) => drive_place(path@) == Some(at as int),
                None => drive_place(path@) is None,
            },
            (texts(parts@), part@) == cut(start, text, i as nat),
    {
        let mut c = path.get_char(i);
        if let Some(at) = drive {
            if at == i {
                c = to_capital(c);
            }
        }
        assert(c == text[i as int]);
        if is_separator(c, verbatim_path) {
            add_part(start, &mut parts, part);
            part = String::new();
            assert(part@ =~= seq![]);
        } else {
            part.push(c);
        }
    }
    add_part(start, &mut parts, part);
    parts
}

/// Whether two paths name the same file.
pub fn is_same(a: &str, b: &str) -> (r: bool)
    ensures
        r == same(a@, b@),
{
    let start = begins(a);
    if start != begins(b) {
        return false;
    }
    let left = split(start, a);
    let right = split(start, b);
    if left.len() != right.len() {
        assert(texts(left@).len() != texts(right@).len());
        return false;
    }
    for i in 0..left.len()
        invariant
            left@.len() == right@.len(),
            texts(left@) == parts_of(a@),
            texts(right@) == parts_of(b@),
            forall|j: int| 0 <= j < i ==> (#[trigger] left@[j])@ == right@[j]@,
    {
        if left[i] != right[i] {
            assert(texts(left@)[i as int] != texts(right@)[i as int]);
            return false;
        }
    }
    assert(texts(left@) =~= texts(right@));
    true
}

proof fn lemma_cut(start: Beginning, a: Seq<char>, b: Seq<char>, n: nat)
    requires
        n <= a.len(),
        a.len() == b.len(),
        start !is Verbatim,
        forall|i: int|
            0 <= i < a.len() ==> #[trigger] a[i] == b[i] || (separates(a[i], false) && separates(
                b[i],
                false,
            )),
    ensures
        cut(start, a, n) == cut(start, b, n),
    decreases n,
{
    if n > 0 {
        lemma_cut(start, a, b, (n - 1) as nat);
        assert(a[n - 1] == b[n - 1] || (separates(a[n - 1], false) && separates(b[n - 1], false)));
    }
}

/// Two paths that differ only in the kind of their separators and in the case of
/// the letter of the drive name the same file.
pub proof fn law_spelling_does_not_matter(a: Seq<char>, b: Seq<char>)
    requires
        a.len() == b.len(),
        !verbatim(a),
        !verbatim(b),
        forall|i: int|
            0 <= i < a.len() ==> #[trigger] a[i] == b[i] || (separates(a[i], false) && separates(
                b[i],
                false,
            )) || (i == 0 && names_drive(a, 0) && names_drive(b, 0) && capital(a[0]) == capital(
                b[0],
            )),
    ensures
        same(a, b),
{
    let x = raised(a);
    let y = raised(b);
    assert forall|i: int| 0 <= i < x.len() implies #[trigger] x[i] == y[i] || (separates(
        x[i],
        false,
    ) && separates(y[i], false)) by {
        assert(names_drive(a, 0) == names_drive(b, 0));
    }
    lemma_cut(beginning(a), x, y, a.len());
}

/// The path of a file begins with its directory and ends in its name, and at most
/// one character stands between them. A separator at the end of the directory makes
/// no difference, and behind a drive alone none is added.
pub proof fn law_joined(dir: Seq<char>, name: Seq<char>)
    ensures
        ({
            let path = joined(dir, name);
            &&& path.len() == dir.len() + name.len() || path.len() == dir.len() + name.len() + 1
            &&& path.take(dir.len() as int) == dir
            &&& path.skip(path.len() - name.len()) == name
            &&& path.len() > dir.len() + name.len() ==> path[dir.len() as int] == '\\'
        }),
        dir.len() > 0 && dir.last() != '\\' && dir.last() != '/' && !(dir.len() == 2 && letter(
            dir[0],
        ) && dir[1] == ':') ==> joined(dir, name) == joined(dir.push('\\'), name),
        dir.len() == 2 && letter(dir[0]) && dir[1] == ':' ==> joined(dir, name) == dir + name,
        dir.len() == 0 ==> joined(dir, name) == name,
{
    let path = joined(dir, name);
    assert(path.take(dir.len() as int) =~= dir);
    assert(path.skip(path.len() - name.len()) =~= name);
    assert(dir.push('\\') + name =~= dir + seq!['\\'] + name);
    if dir.len() == 0 {
        assert(dir + name =~= name);
    }
}

/// What stands behind the first characters does not matter for them.
proof fn lemma_cut_front(start: Beginning, a: Seq<char>, b: Seq<char>, n: nat)
    requires
        n <= a.len(),
    ensures
        cut(start, a + b, n) == cut(start, a, n),
    decreases n,
{
    if n > 0 {
        lemma_cut_front(start, a, b, (n - 1) as nat);
    }
}

/// A separator at the end of a path does not matter.
pub proof fn law_trailing_separator(path: Seq<char>)
    requires
        path.len() > 0,
        verbatim(path) || !verbatim(path.push('\\')),
    ensures
        same(path, path.push('\\')),
{
    let longer = path.push('\\');
    let start = beginning(path);
    assert(beginning(longer) == start);
    assert(raised(longer) =~= raised(path) + seq!['\\']);
    lemma_cut_front(start, raised(path), seq!['\\'], path.len());
}

proof fn lemma_cut_name(start: Beginning, base: Seq<char>, name: Seq<char>, k: nat)
    requires
        start !is Verbatim,
        k <= name.len(),
        cut(start, base, base.len()).1 == Seq::<char>::empty(),
        forall|i: int| 0 <= i < name.len() ==> !separates(#[trigger] name[i], false),
    ensures
        cut(start, base + name, base.len() + k) == (
            cut(start, base, base.len()).0,
            name.take(k as int),
        ),
    decreases k,
{
    if k == 0 {
        lemma_cut_front(start, base, name, base.len());
        assert(name.take(0) =~= Seq::<char>::empty());
    } else {
        lemma_cut_name(start, base, name, (k - 1) as nat);
        assert((base + name)[base.len() + k - 1] == name[k - 1]);
        assert(name.take(k - 1).push(name[k - 1]) =~= name.take(k as int));
    }
}

/// A name without separators is its only part, so two such names mean the same
/// file only if they are equal.
pub proof fn law_plain_names(name: Seq<char>)
    requires
        name.len() > 0,
        !names_drive(name, 0),
        forall|i: int| 0 <= i < name.len() ==> #[trigger] name[i] != '\\' && name[i] != '/',
    ensures
        parts_of(name) == seq![name],
        beginning(name) == Beginning::Name,
{
    let none = Seq::<char>::empty();
    let start = beginning(name);
    assert(none + name =~= name);
    assert(name[0] != '\\');
    lemma_cut_name(start, none, name, name.len());
    assert(name.take(name.len() as int) =~= name);
    assert(parts_of(name) =~= seq![name]);
}

/// A file in a directory has the parts of the directory and its own name behind
/// them, whatever separator the directory ends in.
pub proof fn law_parts_of_a_file(dir: Seq<char>, name: Seq<char>)
    requires
        dir.len() > 0,
        !(dir.len() == 2 && names_drive(dir, 0)),
        !verbatim(dir),
        !verbatim(dir.push('\\')),
        !verbatim(joined(dir, name)),
        beginning(joined(dir, name)) == beginning(dir),
        name.len() > 0,
        name != seq!['.'],
        forall|i: int| 0 <= i < name.len() ==> #[trigger] name[i] != '\\' && name[i] != '/',
    ensures
        parts_of(joined(dir, name)) == parts_of(dir).push(name),
{
    let base = if dir.last() == '\\' || dir.last() == '/' {
        dir
    } else {
        dir.push('\\')
    };
    let start = beginning(dir);
    law_trailing_separator(dir);
    assert(joined(dir, name) =~= base + name);
    assert(parts_of(base) == parts_of(dir));
    assert(beginning(base) == start);
    let text = raised(base);
    assert(text.last() == base.last());
    assert(separates(text[base.len() - 1], false));
    assert(cut(start, text, base.len()).1 == Seq::<char>::empty());
    assert(raised(base + name) =~= text + name);
    lemma_cut_name(start, text, name, name.len());
    assert(name.take(name.len() as int) =~= name);
}

/// A dot at the end names the directory itself: it does not matter, unless the path
/// is passed on as it stands; then it is a part like any other.
pub proof fn law_dot_at_the_end(path: Seq<char>)
    requires
        path.len() > 0,
        parts_of(path).len() > 0,
        verbatim(path) || !verbatim(path.push('\\')),
        beginning(path.push('\\').push('.')) == beginning(path),
    ensures
        !verbatim(path) ==> same(path, path.push('\\').push('.')),
        verbatim(path) ==> parts_of(path.push('\\').push('.')) == parts_of(path).push(seq!['.']),
{
    let base = path.push('\\');
    let longer = base.push('.');
    let start = beginning(path);
    law_trailing_separator(path);
    let text = raised(base);
    assert(raised(longer) =~= text + seq!['.']);
    assert(text.last() == '\\');
    let before = cut(start, text, base.len());
    assert(before.1 == Seq::<char>::empty());
    assert(parts_of(base) == before.0);
    lemma_cut_front(start, text, seq!['.'], base.len());
    assert((text + seq!['.'])[base.len() as int] == '.');
    assert(Seq::<char>::empty().push('.') =~= seq!['.']);
    assert(cut(start, text + seq!['.'], longer.len()) == (before.0, seq!['.']));
}

/// Two separators in front name the network, and one the root: that is never the
/// same file.
pub proof fn law_network_is_not_the_root(rest: Seq<char>)
    requires
        rest.len() > 0,
        rest[0] != '\\',
        rest[0] != '/',
    ensures
        !same(seq!['\\', '\\'] + rest, seq!['\\'] + rest),
        !same(seq!['\\'] + rest, rest),
        beginning(seq!['/', '/'] + rest) == Beginning::Network,
{
    let two = seq!['\\', '\\'] + rest;
    let one = seq!['\\'] + rest;
    let other = seq!['/', '/'] + rest;
    assert(two[0] == '\\' && two[1] == '\\' && two[2] == rest[0]);
    assert(one[0] == '\\' && one[1] == rest[0]);
    assert(other[0] == '/' && other[1] == '/' && other[2] == rest[0]);
}

/// Where a part is over, the next two characters begin another one, if they separate
/// nothing.
proof fn lemma_next_part(start: Beginning, base: Seq<char>, rest: Seq<char>, n: nat)
    requires
        2 <= n <= rest.len(),
        cut(start, base, base.len()).1 == Seq::<char>::empty(),
        !separates(rest[0], start is Verbatim),
        !separates(rest[1], start is Verbatim),
    ensures
        ({
            let before = cut(start, base, base.len()).0;
            let (parts, part) = cut(start, base + rest, base.len() + n);
            let k = before.len() as int;
            &&& parts.len() >= k
            &&& parts.len() > k ==> parts[k].len() >= 2 && parts[k].take(2) == rest.take(2)
            &&& parts.len() == k ==> part.len() >= 2 && part.take(2) == rest.take(2)
        }),
    decreases n,
{
    let path = base + rest;
    if n == 2 {
        lemma_cut_front(start, base, rest, base.len());
        assert(path[base.len() as int] == rest[0]);
        assert(path[(base.len() + 1) as int] == rest[1]);
        let one = cut(start, path, base.len() + 1);
        assert(one.1 =~= seq![rest[0]]);
        let two = cut(start, path, base.len() + 2);
        assert(two.1 =~= seq![rest[0], rest[1]]);
        assert(two.1.take(2) =~= rest.take(2));
    } else {
        lemma_next_part(start, base, rest, (n - 1) as nat);
        let (parts, part) = cut(start, path, (base.len() + n - 1) as nat);
        let c = path[base.len() + n - 1];
        if parts.len() == cut(start, base, base.len()).0.len() {
            assert(part.push(c).take(2) =~= part.take(2));
            assert(seq!['.'].len() == 1);
        }
    }
}

/// The case of the letter of a drive does not matter, but the letter does: `i`
/// and `j` count the letters of the alphabet.
pub proof fn law_drives(i: u8, j: u8, rest: Seq<char>)
    requires
        i < 26,
        j < 26,
    ensures
        same(seq![(97 + i) as u8 as char, ':'] + rest, seq![(65 + i) as u8 as char, ':'] + rest),
        i != j ==> !same(
            seq![(65 + i) as u8 as char, ':'] + rest,
            seq![(65 + j) as u8 as char, ':'] + rest,
        ),
{
    let small = seq![(97 + i) as u8 as char, ':'] + rest;
    let a = seq![(65 + i) as u8 as char, ':'] + rest;
    let b = seq![(65 + j) as u8 as char, ':'] + rest;
    assert(small[0] == (97 + i) as u8 as char && small[1] == ':');
    assert(a[0] == (65 + i) as u8 as char && a[1] == ':');
    assert(b[0] == (65 + j) as u8 as char && b[1] == ':');
    assert(raised(small) =~= a);
    assert(raised(a) =~= a);
    assert(raised(b) =~= b);
    if i != j {
        let none = Seq::<char>::empty();
        assert(none + a =~= a);
        assert(none + b =~= b);
        lemma_next_part(Beginning::Name, none, a, a.len());
        lemma_next_part(Beginning::Name, none, b, b.len());
        assert(seq!['.'].len() == 1);
        assert(parts_of(a)[0].take(2) == a.take(2));
        assert(parts_of(b)[0].take(2) == b.take(2));
        assert(a.take(2)[0] != b.take(2)[0]);
    }
}

/// Behind `\\?\` the case of the letter of a drive does not matter either, but
/// only if nothing or a separator follows; otherwise it is a name like any other.
pub proof fn law_verbatim_drives(i: u8, rest: Seq<char>)
    requires
        i < 26,
    ensures
        same(
            seq!['\\', '\\', '?', '\\'] + (seq![(97 + i) as u8 as char, ':'] + rest),
            seq!['\\', '\\', '?', '\\'] + (seq![(65 + i) as u8 as char, ':'] + rest),
        ) <==> rest.len() == 0 || rest[0] == '\\',
{
    let head = seq!['\\', '\\', '?', '\\'];
    let x = seq![(97 + i) as u8 as char, ':'] + rest;
    let y = seq![(65 + i) as u8 as char, ':'] + rest;
    let small = head + x;
    let a = head + y;
    assert(x[0] == (97 + i) as u8 as char && x[1] == ':');
    assert(y[0] == (65 + i) as u8 as char && y[1] == ':');
    assert(small[4] == x[0] && small[5] == ':' && a[4] == y[0] && a[5] == ':');
    if rest.len() > 0 {
        assert(small[6] == rest[0] && a[6] == rest[0]);
    }
    assert(verbatim(small) && verbatim(a));
    if rest.len() == 0 || rest[0] == '\\' {
        assert(raised(small) =~= a);
        assert(raised(a) =~= a);
    } else {
        let start = Beginning::Verbatim;
        reveal_with_fuel(cut, 5);
        let before = cut(start, head, 4);
        assert(before.1 == Seq::<char>::empty());
        lemma_next_part(start, head, x, x.len());
        lemma_next_part(start, head, y, y.len());
        let k = before.0.len() as int;
        assert(seq!['.'].len() == 1);
        assert(parts_of(small)[k].take(2) == x.take(2));
        assert(parts_of(a)[k].take(2) == y.take(2));
        assert(x.take(2)[0] != y.take(2)[0]);
    }
}

/// A dot in front does not matter behind the root, but it does where a path begins
/// with a name: there it is the first part.
pub proof fn law_dot_in_front(name: Seq<char>)
    requires
        name.len() > 0,
        name != seq!['.'],
        !names_drive(name, 0),
        forall|i: int| 0 <= i < name.len() ==> #[trigger] name[i] != '\\' && name[i] != '/',
    ensures
        same(seq!['\\', '.', '\\'] + name, seq!['\\'] + name),
        parts_of(seq!['.', '\\'] + name) == seq![seq!['.'], name],
{
    reveal_with_fuel(cut, 4);
    let long = seq!['\\', '.', '\\'];
    let short = seq!['\\'];
    let dot = seq!['.', '\\'];
    assert(name[0] != '\\');
    assert((long + name)[0] == '\\' && (long + name)[1] == '.');
    assert((short + name)[0] == '\\' && (short + name)[1] == name[0]);
    assert((dot + name)[0] == '.' && (dot + name)[1] == '\\');
    assert(Seq::<char>::empty().push('.') =~= seq!['.']);
    assert(cut(Beginning::Root, long, 3).0 =~= Seq::<Seq<char>>::empty());
    assert(cut(Beginning::Root, short, 1).0 =~= Seq::<Seq<char>>::empty());
    assert(cut(Beginning::Name, dot, 2).0 =~= seq![seq!['.']]);
    lemma_cut_name(Beginning::Root, long, name, name.len());
    lemma_cut_name(Beginning::Root, short, name, name.len());
    lemma_cut_name(Beginning::Name, dot, name, name.len());
    assert(name.take(name.len() as int) =~= name);
    assert(parts_of(seq!['.', '\\'] + name) =~= seq![seq!['.'], name]);
}

} // verus!
