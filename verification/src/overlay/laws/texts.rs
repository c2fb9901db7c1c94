//! What the texts of the interface show.
use vstd::prelude::*;

use crate::game::field;
use crate::game::rect::Rect;
use crate::hook::StatusFacts;
use crate::mem::Fetch;
use crate::mem::Image;
use crate::mem::Need;
use crate::numeral;
use crate::overlay::lines;
use crate::overlay::lines::{Counters, Tone};

verus! {

/// A text begins with another one.
pub open spec fn begins(text: Seq<char>, head: Seq<char>) -> bool {
    text.len() >= head.len() && text.take(head.len() as int) == head
}

/// A text ends in another one.
pub open spec fn ends(text: Seq<char>, tail: Seq<char>) -> bool {
    text.len() >= tail.len() && text.skip(text.len() - tail.len()) == tail
}

proof fn lemma_joined(a: Seq<char>, b: Seq<char>)
    ensures
        begins(a + b, a),
        ends(a + b, b),
{
    assert((a + b).take(a.len() as int) =~= a);
    assert((a + b).skip((a + b).len() - b.len()) =~= b);
}

/// The label of a player shows the whole name and, in brackets at the end, the
/// identifier, which can be read back. A player without a name is labelled as one
/// whose name is `Unknown`.
pub proof fn law_player_text(name: Seq<char>, id: int)
    ensures
        name.len() > 0 ==> {
            let text = lines::player_text(name, id);
            let number = text.subrange((name.len() + 5) as int, text.len() - 1);
            &&& begins(text, name)
            &&& text.len() > name.len() + 6
            &&& text.subrange(name.len() as int, (name.len() + 5) as int) == seq![' ', '[', 'I', 'D', ':']
            &&& text[text.len() - 1] == ']'
            &&& id >= 0 ==> numeral::value_of(number) == id
            &&& id < 0 ==> number[0] == '-' && numeral::value_of(number.skip(1)) == -id
        },
        name.len() == 0 ==> lines::player_text(name, id) == lines::player_text(
            seq!['U', 'n', 'k', 'n', 'o', 'w', 'n'],
            id,
        ),
{
    reveal_strlit(" [ID:");
    reveal_strlit("]");
    reveal_strlit("Unknown");
    numeral::law_signed_can_be_read(id);
    let text = lines::player_text(name, id);
    if name.len() > 0 {
        if id < 0 {
            numeral::law_decimal_can_be_read((-id) as nat);
        } else {
            numeral::law_decimal_can_be_read(id as nat);
        }
        assert(text.take(name.len() as int) =~= name);
        assert(text.subrange(name.len() as int, (name.len() + 5) as int) =~= seq![' ', '[', 'I', 'D', ':']);
        assert(text.subrange((name.len() + 5) as int, text.len() - 1) =~= numeral::signed(id));
    } else {
        assert("Unknown"@ =~= seq!['U', 'n', 'k', 'n', 'o', 'w', 'n']);
    }
}

/// A rectangle is written as position and size: first x and y with a comma
/// between them, a space, then w and h with an `x` between them.
pub proof fn law_rect_text(rect: Rect)
    ensures
        ({
            let text = lines::rect_text(Some(rect));
            let x = numeral::signed(rect.x as int);
            let y = numeral::signed(rect.y as int);
            let w = numeral::signed(rect.w as int);
            let h = numeral::signed(rect.h as int);
            &&& text.len() == x.len() + y.len() + w.len() + h.len() + 3
            &&& begins(text, x.push(','))
            &&& begins(text.skip((x.len() + 1) as int), y.push(' '))
            &&& ends(text, h)
            &&& ends(text.take(text.len() - h.len()), w.push('x'))
        }),
        lines::rect_text(None) == seq!['-'],
{
    reveal_strlit(",");
    reveal_strlit(" ");
    reveal_strlit("x");
    reveal_strlit("-");
    let text = lines::rect_text(Some(rect));
    let x = numeral::signed(rect.x as int);
    let y = numeral::signed(rect.y as int);
    let w = numeral::signed(rect.w as int);
    let h = numeral::signed(rect.h as int);
    assert(text.take((x.len() + 1) as int) =~= x.push(','));
    assert(text.skip((x.len() + 1) as int).take((y.len() + 1) as int) =~= y.push(' '));
    assert(text.skip(text.len() - h.len()) =~= h);
    let front = text.take(text.len() - h.len());
    assert(front.skip(front.len() - (w.len() + 1)) =~= w.push('x'));
    assert("-"@ =~= seq!['-']);
}

/// The title of a trap shows its whole name, or its number if it has none, and is
/// filled with spaces up to twenty characters.
pub proof fn law_title(image: Image, addr: int, index: nat)
    ensures
        ({
            let name = field::text_at(image, addr + 0x20);
            let title = lines::title_of(image, addr, index);
            &&& name matches Err(need) ==> title == Err::<Seq<char>, Need>(need)
            &&& name is Ok ==> title is Ok
            &&& title matches Ok(text) ==> {
                let shown = match name {
                    Ok(Some(name)) => name,
                    _ => "Trap #"@ + numeral::decimal(index),
                };
                &&& begins(text, shown)
                &&& text.len() == (if shown.len() < 20 {
                    20
                } else {
                    shown.len()
                })
                &&& forall|i: int| shown.len() <= i < text.len() ==> #[trigger] text[i] == ' '
            }
        }),
{
    match field::text_at(image, addr + 0x20) {
        Ok(Some(name)) => numeral::law_space_padding(name, 20),
        _ => numeral::law_space_padding("Trap #"@ + numeral::decimal(index), 20),
    }
}

/// At most thirty rows of traps are shown, and all of them if there are no more.
pub proof fn law_rows(total: int)
    requires
        total >= 0,
    ensures
        total <= 30 ==> lines::rows(total) == total,
        total > 30 ==> lines::rows(total) == 30,
{
}

/// The interface is silent about the hook exactly while it is active. It alerts
/// the user to failures only, and shows the number of matches and the reason.
pub proof fn law_hook_text(status: StatusFacts)
    ensures
        ({
            let all = lines::hook_text(status);
            &&& all.len() == 0 <==> status is Installed
            &&& all.len() > 0 ==> (all[0].tone == Tone::Alert <==> status is Ambiguous
                || status is Failed || status is GaveUp)
            &&& all.len() > 0 ==> (all[0].tone == Tone::Muted <==> status is Idle
                || status is NotFound)
            &&& status matches StatusFacts::Failed(reason) ==> all.len() == 1 && ends(
                all[0].text,
                reason,
            )
            &&& status matches StatusFacts::Ambiguous(count) ==> all.len() == 2 && all[1].tone
                == Tone::Muted && begins(
                all[0].text.skip("Сигнатура неоднозначна ("@.len() as int),
                numeral::decimal(count as nat),
            )
        }),
        lines::hook_text(StatusFacts::Idle) == lines::hook_text(StatusFacts::NotFound),
{
    match status {
        StatusFacts::Failed(reason) => {
            lemma_joined("Ошибка MinHook: "@, reason);
        },
        StatusFacts::Ambiguous(count) => {
            let head = "Сигнатура неоднозначна ("@;
            let text = lines::hook_text(status)[0].text;
            let number = numeral::decimal(count as nat);
            assert(text.skip(head.len() as int).take(number.len() as int) =~= number);
        },
        _ => {},
    }
}

/// The line about the log shows the path of the file if there is one. If there is
/// none it alerts the user, with the reason if there is one.
pub proof fn law_log_text(path: Seq<char>, problem: Option<Seq<char>>)
    ensures
        lines::log_text(Some(path), problem).tone == Tone::Muted,
        ends(lines::log_text(Some(path), problem).text, path),
        lines::log_text(None, problem).tone == Tone::Alert,
        problem matches Some(reason) ==> ends(lines::log_text(None, problem).text, reason),
{
    lemma_joined("Лог: "@, path);
    if let Some(reason) = problem {
        lemma_joined("Файл лога не открылся, пишем только в отладчик: "@, reason);
    }
}

/// An address in the diagnostics is written in hexadecimal and can be read back.
pub open spec fn shows_address(text: Seq<char>, addr: usize) -> bool {
    &&& begins(text, seq!['0', 'x'])
    &&& numeral::hex_value_of(text.skip(2)) == addr
}

/// The camera that was read is shown by its address alone. One that could not be
/// read is shown by its address too, followed by a remark.
pub proof fn law_camera_text(read: usize, addr: usize, other: Option<usize>)
    ensures
        shows_address(lines::camera_text(Some(read), other), read),
        begins(lines::camera_text(None, Some(addr)), lines::camera_text(Some(addr), other)),
        lines::camera_text(None, Some(addr)).len() > lines::camera_text(Some(addr), other).len(),
        shows_address(lines::class_text(Some(addr)), addr),
{
    reveal_strlit("0x");
    reveal_strlit(" (не читается)");
    assert("0x"@ =~= seq!['0', 'x']);
    numeral::law_hex_can_be_read(read as nat);
    numeral::law_hex_can_be_read(addr as nat);
    lemma_joined("0x"@, numeral::hex(read as nat));
    lemma_joined("0x"@, numeral::hex(addr as nat));
    assert(lines::camera_text(Some(read), other).skip(2) =~= numeral::hex(read as nat));
    assert(lines::class_text(Some(addr)).skip(2) =~= numeral::hex(addr as nat));
    lemma_joined("0x"@ + numeral::hex(addr as nat), " (не читается)"@);
}

/// The diagnostics begin with the number of objects and end with the number of
/// traps; the class stands before the screen, and the screen before the camera.
pub proof fn law_diagnostics(c: Counters)
    ensures
        ({
            let text = lines::diagnostics_text(c);
            let objects = "объектов: "@ + numeral::decimal(c.objects as nat);
            let class = " | класс: "@ + lines::class_text(c.class);
            let screen = " | экран: 0x"@ + numeral::hex(c.screen as nat);
            let mode = " ("@ + lines::mode_text(c.online) + ")"@;
            let traps = " | ловушек: "@ + numeral::decimal(c.traps as nat);
            let camera = " | камера: "@ + lines::camera_text(c.camera_read, c.camera);
            &&& begins(text, objects)
            &&& begins(text.skip(objects.len() as int), class)
            &&& begins(text.skip((objects.len() + class.len()) as int), screen)
            &&& begins(
                text.skip((objects.len() + class.len() + screen.len()) as int),
                mode,
            )
            &&& ends(text, traps)
            &&& ends(text.take(text.len() - traps.len()), camera)
        }),
{
    reveal_strlit(")");
    reveal_strlit(") | камера: ");
    reveal_strlit(" | камера: ");
    let objects = "объектов: "@ + numeral::decimal(c.objects as nat);
    let class = " | класс: "@ + lines::class_text(c.class);
    let screen = " | экран: 0x"@ + numeral::hex(c.screen as nat);
    let mode = " ("@ + lines::mode_text(c.online) + ")"@;
    let camera = " | камера: "@ + lines::camera_text(c.camera_read, c.camera);
    let traps = " | ловушек: "@ + numeral::decimal(c.traps as nat);
    assert(")"@ + " | камера: "@ =~= ") | камера: "@);
    assert(lines::diagnostics_text(c) =~= objects + class + screen + mode + camera + traps);
    lemma_six(objects, class, screen, mode, camera, traps);
}

proof fn lemma_six(
    a: Seq<char>,
    b: Seq<char>,
    c: Seq<char>,
    d: Seq<char>,
    e: Seq<char>,
    f: Seq<char>,
)
    ensures
        ({
            let text = a + b + c + d + e + f;
            &&& begins(text, a)
            &&& begins(text.skip(a.len() as int), b)
            &&& begins(text.skip((a.len() + b.len()) as int), c)
            &&& begins(text.skip((a.len() + b.len() + c.len()) as int), d)
            &&& ends(text, f)
            &&& ends(text.take(text.len() - f.len()), e)
        }),
{
    let text = a + b + c + d + e + f;
    assert(text.take(a.len() as int) =~= a);
    assert(text.skip(a.len() as int).take(b.len() as int) =~= b);
    assert(text.skip((a.len() + b.len()) as int).take(c.len() as int) =~= c);
    assert(text.skip((a.len() + b.len() + c.len()) as int).take(d.len() as int) =~= d);
    assert(text.skip(text.len() - f.len()) =~= f);
    let front = text.take(text.len() - f.len());
    assert(front.skip(front.len() - e.len()) =~= e);
}

/// The mode of the session tells an online game, a single one and an unknown one
/// apart.
pub proof fn law_mode_text()
    ensures
        lines::mode_text(Some(true)) == seq!['с', 'е', 'т', 'ь'],
        lines::mode_text(None) == seq!['?'],
        lines::mode_text(Some(false)).len() == 9,
{
    reveal_strlit("сеть");
    reveal_strlit("?");
    reveal_strlit("одиночная");
    assert("сеть"@ =~= seq!['с', 'е', 'т', 'ь']);
    assert("?"@ =~= seq!['?']);
}

/// The flags that are shown for a trap stand side by side from 0x44 on, and that
/// of a `BoomTrap` stands at 0xAC.
pub proof fn law_flags(i: int)
    requires
        0 <= i < 3,
    ensures
        lines::FLAGS@.len() == 3,
        lines::FLAGS@[i].2 == 0x44 + i,
        lines::BOOM_FLAG.2 == 0xAC,
{
}

} // verus!
