//! Texts of the interface.
use vstd::prelude::*;

use crate::game::camera::Source;
use crate::game::field;
use crate::game::rect::Rect;
use crate::hook::Status;
use crate::hook::StatusFacts;
use crate::log;
use crate::mem;
use crate::mem::Fetch;
use crate::mem::Image;
use crate::mem::Memory;
use crate::mem::Need;
use crate::numeral;
use crate::offsets::trap;

verus! {

/// How many rows of traps are shown.
pub const TRAP_ROWS: usize = 30;

/// How wide the name of a trap is at least.
pub const TRAP_NAME_WIDTH: usize = 20;

/// Label, tooltip and offset of the flags that every trap has.
pub const FLAGS: [(&'static str, &'static str, usize); 3] = [
    ("U", "Used", trap::USED),
    ("Up", "Updateable", trap::UPDATEABLE),
    ("G", "GoreStick", trap::GORE_STICK),
];

/// Label, tooltip and offset of the flag that a `BoomTrap` has.
pub const BOOM_FLAG: (&'static str, &'static str, usize) = (
    "T",
    "CanTrigger (BoomTrap)",
    trap::BOOM_CAN_TRIGGER,
);

/// How a text is coloured.
#[derive(Clone, Copy, Debug, PartialEq, Eq, Structural)]
pub enum Tone {
    Plain,
    Muted,
    Alert,
}

/// A line of text.
#[derive(Debug, PartialEq, Eq)]
pub struct Line {
    pub tone: Tone,
    pub text: String,
}

/// A line in spec code.
#[verifier::ext_equal]
pub struct LineFacts {
    pub tone: Tone,
    pub text: Seq<char>,
}

impl View for Line {
    type V = LineFacts;

    open spec fn view(&self) -> LineFacts {
        LineFacts { tone: self.tone, text: self.text@ }
    }
}

/// Lines in spec code.
pub open spec fn line_facts(lines: Seq<Line>) -> Seq<LineFacts> {
    lines.map_values(|l: Line| l@)
}

/// What the interface says about the state of the hook.
pub open spec fn hook_text(status: StatusFacts) -> Seq<LineFacts> {
    match status {
        StatusFacts::Installed => seq![],
        StatusFacts::Scanning => seq![
            LineFacts { tone: Tone::Plain, text: "Сканирование памяти..."@ },
        ],
        StatusFacts::Idle | StatusFacts::NotFound => seq![
            LineFacts { tone: Tone::Muted, text: "Ожидание игры: метод ещё не вызывался"@ },
        ],
        StatusFacts::Ambiguous(count) => seq![
            LineFacts {
                tone: Tone::Alert,
                text: "Сигнатура неоднозначна ("@ + numeral::decimal(count as nat)
                    + " совпадений)"@,
            },
            LineFacts { tone: Tone::Muted, text: "Хук не установлен намеренно, см. лог"@ },
        ],
        StatusFacts::Failed(reason) => seq![
            LineFacts { tone: Tone::Alert, text: "Ошибка MinHook: "@ + reason },
        ],
        StatusFacts::GaveUp => seq![
            LineFacts { tone: Tone::Alert, text: "Сигнатура не найдена, попытки исчерпаны"@ },
        ],
    }
}

/// Says how far the installation of the hook has come.
pub fn hook_lines(status: &Status) -> (lines: Vec<Line>)
    ensures
        line_facts(lines@) == hook_text(status@),
{
    let mut lines: Vec<Line> = Vec::new();
    match status {
        Status::Installed => {},
        Status::Scanning => lines.push(
            Line { tone: Tone::Plain, text: "Сканирование памяти...".to_owned() },
        ),
        Status::Idle => lines.push(
            Line {
                tone: Tone::Muted,
                text: "Ожидание игры: метод ещё не вызывался".to_owned(),
            },
        ),
        Status::NotFound => lines.push(
            Line {
                tone: Tone::Muted,
                text: "Ожидание игры: метод ещё не вызывался".to_owned(),
            },
        ),
        Status::Ambiguous(count) => {
            let mut text = "Сигнатура неоднозначна (".to_owned();
            numeral::push_decimal(&mut text, *count as u64);
            text.append(" совпадений)");
            lines.push(Line { tone: Tone::Alert, text });
            lines.push(
                Line { tone: Tone::Muted, text: "Хук не установлен намеренно, см. лог".to_owned() },
            );
        },
        Status::Failed(reason) => {
            let mut text = "Ошибка MinHook: ".to_owned();
            text.append(reason.as_str());
            lines.push(Line { tone: Tone::Alert, text });
        },
        Status::GaveUp => lines.push(
            Line {
                tone: Tone::Alert,
                text: "Сигнатура не найдена, попытки исчерпаны".to_owned(),
            },
        ),
    }
    assert(line_facts(lines@) =~= hook_text(status@));
    lines
}

/// What the interface says about the log file.
pub open spec fn log_text(path: Option<Seq<char>>, problem: Option<Seq<char>>) -> LineFacts {
    match path {
        Some(path) => LineFacts { tone: Tone::Muted, text: "Лог: "@ + path },
        None => LineFacts {
            tone: Tone::Alert,
            text: "Файл лога не открылся, пишем только в отладчик: "@ + (match problem {
                Some(problem) => problem,
                None => "причина не записана"@,
            }),
        },
    }
}

/// Says where the log file is, or why there is none.
pub fn log_line(path: Option<&str>, problem: Option<&str>) -> (line: Line)
    ensures
        line@ == log_text(log::maybe(path), log::maybe(problem)),
{
    match path {
        Some(path) => {
            let mut text = "Лог: ".to_owned();
            text.append(path);
            Line { tone: Tone::Muted, text }
        },
        None => {
            let mut text = "Файл лога не открылся, пишем только в отладчик: ".to_owned();
            match problem {
                Some(problem) => text.append(problem),
                None => text.append("причина не записана"),
            }
            Line { tone: Tone::Alert, text }
        },
    }
}

/// The camera in the line of diagnostics: the one that was read, one that could
/// not be read, or none.
pub open spec fn camera_text(read: Option<usize>, addr: Option<usize>) -> Seq<char> {
    match read {
        Some(addr) => "0x"@ + numeral::hex(addr as nat),
        None => match addr {
            Some(addr) => "0x"@ + numeral::hex(addr as nat) + " (не читается)"@,
            None => "нет"@,
        },
    }
}

/// The player class in the line of diagnostics.
pub open spec fn class_text(class: Option<usize>) -> Seq<char> {
    match class {
        Some(class) => "0x"@ + numeral::hex(class as nat),
        None => "не опознан"@,
    }
}

/// The mode of the session in the line of diagnostics.
pub open spec fn mode_text(online: Option<bool>) -> Seq<char> {
    match online {
        Some(true) => "сеть"@,
        Some(false) => "одиночная"@,
        None => "?"@,
    }
}

/// The raw counters of a frame. Where the list of players is empty, this line
/// shows which link of the chain is missing.
#[derive(Clone, Copy, Debug)]
pub struct Counters {
    pub objects: usize,
    pub class: Option<usize>,
    pub screen: usize,
    pub online: Option<bool>,
    /// Address of the camera that was read.
    pub camera_read: Option<usize>,
    /// Address of the camera, whether it could be read or not.
    pub camera: Option<usize>,
    pub traps: usize,
}

/// The line of diagnostics.
pub open spec fn diagnostics_text(c: Counters) -> Seq<char> {
    "объектов: "@ + numeral::decimal(c.objects as nat) + " | класс: "@ + class_text(c.class)
        + " | экран: 0x"@ + numeral::hex(c.screen as nat) + " ("@ + mode_text(c.online)
        + ") | камера: "@ + camera_text(c.camera_read, c.camera) + " | ловушек: "@
        + numeral::decimal(c.traps as nat)
}

fn append_camera(text: &mut String, read: Option<usize>, addr: Option<usize>)
    ensures
        final(text)@ == old(text)@ + camera_text(read, addr),
{
    match read {
        Some(addr) => {
            text.append("0x");
            numeral::push_hex(text, addr as u64);
        },
        None => match addr {
            Some(addr) => {
                text.append("0x");
                numeral::push_hex(text, addr as u64);
                text.append(" (не читается)");
            },
            None => text.append("нет"),
        },
    }
    assert(text@ =~= old(text)@ + camera_text(read, addr));
}

fn append_class(text: &mut String, class: Option<usize>)
    ensures
        final(text)@ == old(text)@ + class_text(class),
{
    match class {
        Some(class) => {
            text.append("0x");
            numeral::push_hex(text, class as u64);
        },
        None => text.append("не опознан"),
    }
    assert(text@ =~= old(text)@ + class_text(class));
}

/// Writes the line of diagnostics.
pub fn diagnostics(c: Counters) -> (text: String)
    ensures
        text@ == diagnostics_text(c),
{
    let mut text = "объектов: ".to_owned();
    numeral::push_decimal(&mut text, c.objects as u64);
    text.append(" | класс: ");
    append_class(&mut text, c.class);
    text.append(" | экран: 0x");
    numeral::push_hex(&mut text, c.screen as u64);
    text.append(" (");
    match c.online {
        Some(true) => text.append("сеть"),
        Some(false) => text.append("одиночная"),
        None => text.append("?"),
    }
    text.append(") | камера: ");
    append_camera(&mut text, c.camera_read, c.camera);
    text.append(" | ловушек: ");
    numeral::push_decimal(&mut text, c.traps as u64);
    text
}

/// The name and the identifier of a player.
pub open spec fn player_text(name: Seq<char>, unique_id: int) -> Seq<char> {
    (if name.len() == 0 {
        "Unknown"@
    } else {
        name
    }) + " [ID:"@ + numeral::signed(unique_id) + "]"@
}

/// Names a player.
pub fn player_label(name: &str, unique_id: i32) -> (text: String)
    ensures
        text@ == player_text(name@, unique_id as int),
{
    let mut text = String::new();
    if name.unicode_len() == 0 {
        text.append("Unknown");
    } else {
        text.append(name);
    }
    assert(text@ =~= (if name@.len() == 0 {
        "Unknown"@
    } else {
        name@
    }));
    text.append(" [ID:");
    numeral::push_signed(&mut text, unique_id as i64);
    text.append("]");
    text
}

/// A rectangle in numbers, or a dash.
pub open spec fn rect_text(rect: Option<Rect>) -> Seq<char> {
    match rect {
        Some(r) => numeral::signed(r.x as int) + ","@ + numeral::signed(r.y as int) + " "@
            + numeral::signed(r.w as int) + "x"@ + numeral::signed(r.h as int),
        None => "-"@,
    }
}

/// Writes a rectangle in numbers.
pub fn format_rect(rect: Option<Rect>) -> (text: String)
    ensures
        text@ == rect_text(rect),
{
    match rect {
        Some(r) => {
            let mut text = String::new();
            numeral::push_signed(&mut text, r.x as i64);
            assert(text@ =~= numeral::signed(r.x as int));
            text.append(",");
            numeral::push_signed(&mut text, r.y as i64);
            text.append(" ");
            numeral::push_signed(&mut text, r.w as i64);
            text.append("x");
            numeral::push_signed(&mut text, r.h as i64);
            text
        },
        None => "-".to_owned(),
    }
}

/// How many traps there are.
pub fn total_line(total: usize) -> (text: String)
    ensures
        text@ == "Всего ловушек: "@ + numeral::decimal(total as nat),
{
    let mut text = "Всего ловушек: ".to_owned();
    numeral::push_decimal(&mut text, total as u64);
    text
}

/// A remark on traps without a frame, if there are any.
pub fn frameless_line(with_rect: usize, total: usize) -> (line: Option<String>)
    ensures
        line is None <==> with_rect == total,
        line matches Some(text) ==> text@ == "Пригодная рамка есть только у "@ + numeral::decimal(
            with_rect as nat,
        ) + " из "@ + numeral::decimal(total as nat) + " — остальные ESP не рисует"@,
{
    if with_rect == total {
        return None;
    }
    let mut text = "Пригодная рамка есть только у ".to_owned();
    numeral::push_decimal(&mut text, with_rect as u64);
    text.append(" из ");
    numeral::push_decimal(&mut text, total as u64);
    text.append(" — остальные ESP не рисует");
    Some(text)
}

/// How many rows of traps are shown.
pub open spec fn rows(total: int) -> int {
    if total < TRAP_ROWS {
        total
    } else {
        TRAP_ROWS as int
    }
}

/// How many rows of traps are shown: more would cost more than they are worth.
pub fn shown_rows(total: usize) -> (shown: usize)
    ensures
        shown == rows(total as int),
        shown <= 30,
{
    if total < TRAP_ROWS {
        total
    } else {
        TRAP_ROWS
    }
}

/// A remark on rows that are not shown, if there are any.
pub fn shown_line(total: usize) -> (line: Option<String>)
    ensures
        line is None <==> total <= TRAP_ROWS,
        line is None <==> total <= 30,
        line matches Some(text) ==> text@ == "Показаны первые "@ + numeral::decimal(
            rows(total as int) as nat,
        ) + " из "@ + numeral::decimal(total as nat),
{
    let shown: usize = shown_rows(total);
    if total <= shown {
        return None;
    }
    let mut text = "Показаны первые ".to_owned();
    numeral::push_decimal(&mut text, shown as u64);
    text.append(" из ");
    numeral::push_decimal(&mut text, total as u64);
    Some(text)
}

/// Names a class of traps.
pub fn class_label(class: usize, count: usize) -> (text: String)
    ensures
        text@ == "0x"@ + numeral::hex(class as nat) + " x"@ + numeral::decimal(count as nat),
{
    let mut text = "0x".to_owned();
    numeral::push_hex(&mut text, class as u64);
    text.append(" x");
    numeral::push_decimal(&mut text, count as u64);
    text
}

/// The title of a trap: its name, or its number where it has none.
pub open spec fn title_of(image: Image, addr: int, index: nat) -> Fetch<Seq<char>> {
    match field::text_at(image, addr + trap::NAME) {
        Err(need) => Err(need),
        Ok(Some(name)) => Ok(numeral::space_padded(name, TRAP_NAME_WIDTH as nat)),
        Ok(None) => Ok(
            numeral::space_padded("Trap #"@ + numeral::decimal(index), TRAP_NAME_WIDTH as nat),
        ),
    }
}

/// Writes the title of a trap, wide enough for the columns to align.
pub fn trap_title(mem: &mut Memory, addr: usize, index: usize) -> (r: Fetch<String>)
    ensures
        match title_of(old(mem)@, addr as int, index as nat) {
            Err(need) => r == Err::<String, Need>(need),
            Ok(title) => r matches Ok(text) && text@ == title,
        },
        mem::ended(*old(mem), *final(mem), r),
{
    let name = match crate::game::trap::trap_name(mem, addr) {
        Err(need) => return Err(need),
        Ok(Some(name)) => name,
        Ok(None) => {
            let mut name = "Trap #".to_owned();
            numeral::push_decimal(&mut name, index as u64);
            name
        },
    };
    let mut text = String::new();
    numeral::push_space_padded(&mut text, name.as_str(), TRAP_NAME_WIDTH);
    assert(text@ =~= numeral::space_padded(name@, TRAP_NAME_WIDTH as nat));
    Ok(text)
}

/// What the interface says about the map from the world to the screen.
#[derive(Clone, Copy, Debug, PartialEq, Eq, Structural)]
pub enum ViewNote {
    /// The map comes from the camera.
    Camera(Source),
    /// The camera was wanted but cannot be read, so the sliders count.
    Unreadable,
    /// The sliders count, as was wished.
    Manual,
}

/// Decides what is shown below the camera switch. The sliders appear only where
/// they have an effect: when the map does not come from the camera.
pub fn view_note(source: Option<Source>, follow_camera: bool) -> (note: ViewNote)
    ensures
        note == (match source {
            Some(source) => ViewNote::Camera(source),
            None => if follow_camera {
                ViewNote::Unreadable
            } else {
                ViewNote::Manual
            },
        }),
{
    match source {
        Some(source) => ViewNote::Camera(source),
        None => if follow_camera {
            ViewNote::Unreadable
        } else {
            ViewNote::Manual
        },
    }
}

/// Names the origin of the map.
pub fn source_label(source: Source) -> (text: &'static str)
    ensures
        text@ == (match source {
            Source::Matrix => "m_Transform"@,
            Source::Fields => "зум + позиция"@,
        }),
{
    match source {
        Source::Matrix => "m_Transform",
        Source::Fields => "зум + позиция",
    }
}

/// Names the key that the menu is open by.
pub fn menu_label(pinned: bool) -> (text: &'static str)
    ensures
        text@ == (if pinned {
            "[HOME]"@
        } else {
            "[TAB]"@
        }),
{
    if pinned {
        "[HOME]"
    } else {
        "[TAB]"
    }
}

} // verus!
