//! Layout of log lines, and where the log goes.
//!
//! The game has no console. A line goes to the debugger and to a file, which
//! survives a crash of the game. There are several candidates for the file; the
//! first that can be opened is used, and if there is none the interface says why.
use vstd::prelude::*;

pub mod path;

use crate::numeral;
use crate::utf16;

verus! {

/// Name of the log file.
pub const LOG_FILE_NAME: &'static str = "BTamaCheat.log";

/// How grave a message is.
#[derive(Clone, Copy, Debug, PartialEq, Eq, Structural)]
pub enum Level {
    Info,
    Warn,
    Error,
}

/// The name of a level in the log.
pub open spec fn level_name(level: Level) -> Seq<char> {
    match level {
        Level::Info => "info"@,
        Level::Warn => "warn"@,
        Level::Error => "error"@,
    }
}

impl Level {
    /// The name of the level in the log.
    pub fn name(self) -> (name: &'static str)
        ensures
            name@ == level_name(self),
    {
        match self {
            Level::Info => "info",
            Level::Warn => "warn",
            Level::Error => "error",
        }
    }
}

/// A time of day such as `12:34:56.789`.
pub open spec fn stamp(hour: nat, minute: nat, second: nat, milliseconds: nat) -> Seq<char> {
    numeral::zero_padded(numeral::decimal(hour), 2) + seq![':'] + numeral::zero_padded(
        numeral::decimal(minute),
        2,
    ) + seq![':'] + numeral::zero_padded(numeral::decimal(second), 2) + seq!['.']
        + numeral::zero_padded(numeral::decimal(milliseconds), 3)
}

/// A time of day such as `12:34:56.789`. Without it the messages of earlier runs
/// in the same file could not be told from new ones.
pub fn timestamp(hour: u16, minute: u16, second: u16, milliseconds: u16) -> (text: String)
    ensures
        text@ == stamp(hour as nat, minute as nat, second as nat, milliseconds as nat),
{
    let mut text = String::new();
    numeral::push_zero_padded(&mut text, hour as u64, 2);
    text.push(':');
    numeral::push_zero_padded(&mut text, minute as u64, 2);
    text.push(':');
    numeral::push_zero_padded(&mut text, second as u64, 2);
    text.push('.');
    numeral::push_zero_padded(&mut text, milliseconds as u64, 3);
    assert(text@ =~= stamp(hour as nat, minute as nat, second as nat, milliseconds as nat));
    text
}

/// A line of the log.
pub open spec fn line_of(stamp: Seq<char>, level: Level, message: Seq<char>) -> Seq<char> {
    "["@ + stamp + " BTamaCheat/"@ + level_name(level) + "] "@ + message
}

/// Puts a line of the log together.
pub fn line(stamp: &str, level: Level, message: &str) -> (text: String)
    ensures
        text@ == line_of(stamp@, level, message@),
{
    let mut text = "[".to_owned();
    text.append(stamp);
    text.append(" BTamaCheat/");
    text.append(level.name());
    text.append("] ");
    text.append(message);
    text
}

/// The units of a line for `OutputDebugStringW`: UTF-16, a line feed, and a zero
/// at the end.
pub fn debugger_units(line: &str) -> (units: Vec<u16>)
    ensures
        units@ == utf16::encoded(line@) + seq![10u16, 0u16],
{
    let mut units = utf16::encode(line);
    units.push(10);
    units.push(0);
    assert(units@ =~= utf16::encoded(line@) + seq![10u16, 0u16]);
    units
}

/// The path in a buffer that `GetModuleFileNameW` filled, if it fits: a length of
/// 0 tells of an error, and a full buffer of a path that was cut off.
pub fn loaded_from(buffer: &Vec<u16>, length: usize) -> (path: Option<String>)
    ensures
        path is None <==> length == 0 || length >= buffer@.len(),
        path matches Some(text) ==> text@ == utf16::decoded(buffer@.take(length as int)),
{
    if length == 0 || length >= buffer.len() {
        return None;
    }
    let mut units: Vec<u16> = Vec::new();
    for i in 0..length
        invariant
            length < buffer@.len(),
            units@ == buffer@.take(i as int),
    {
        units.push(buffer[i]);
        assert(units@ =~= buffer@.take(i + 1));
    }
    Some(utf16::decode_lossy(&units))
}

/// A sequence with one element, or with none.
pub open spec fn at_most_one<T>(item: Option<T>) -> Seq<T> {
    match item {
        Some(item) => seq![item],
        None => seq![],
    }
}

/// Directories for the log file in order of preference: that of temporary files,
/// the one our library was loaded from, that of the user, the current one.
pub open spec fn directories(
    temporary: Seq<char>,
    module: Option<Seq<char>>,
    profile: Option<Seq<char>>,
    current: Option<Seq<char>>,
) -> Seq<Seq<char>> {
    seq![temporary] + at_most_one(module) + at_most_one(profile) + at_most_one(current)
}

/// Paths with one more, unless they have one that names the same file.
pub open spec fn including(paths: Seq<Seq<char>>, path: Seq<char>) -> Seq<Seq<char>> {
    if exists|i: int| 0 <= i < paths.len() && path::same(#[trigger] paths[i], path) {
        paths
    } else {
        paths.push(path)
    }
}

/// Paths without repetitions: of those that name the same file the first stays.
pub open spec fn firsts(paths: Seq<Seq<char>>) -> Seq<Seq<char>>
    decreases paths.len(),
{
    if paths.len() == 0 {
        seq![]
    } else {
        including(firsts(paths.drop_last()), paths.last())
    }
}

/// The log files in directories, each named once.
pub open spec fn log_files(dirs: Seq<Seq<char>>) -> Seq<Seq<char>> {
    firsts(dirs.map_values(|dir: Seq<char>| path::joined(dir, LOG_FILE_NAME@)))
}

/// The texts of strings.
pub open spec fn texts(strings: Seq<String>) -> Seq<Seq<char>> {
    strings.map_values(|s: String| s@)
}

/// Adds the log file in a directory, unless it is there already.
fn add_file(all: &mut Vec<String>, dir: &str)
    ensures
        texts(final(all)@) == including(texts(old(all)@), path::joined(dir@, LOG_FILE_NAME@)),
{
    let file = path::join(dir, LOG_FILE_NAME);
    let ghost before = texts(all@);
    for i in 0..all.len()
        invariant
            all == old(all),
            before == texts(all@),
            file@ == path::joined(dir@, LOG_FILE_NAME@),
            forall|j: int| 0 <= j < i ==> !path::same(#[trigger] before[j], file@),
    {
        if path::is_same(all[i].as_str(), file.as_str()) {
            assert(path::same(before[i as int], file@));
            return;
        }
    }
    all.push(file);
    assert(texts(all@) =~= before.push(file@));
}

/// The files that the log may go to, in order of preference and each of them
/// once. There is at least one.
pub fn candidates(
    temporary: &str,
    module: Option<&str>,
    profile: Option<&str>,
    current: Option<&str>,
) -> (all: Vec<String>)
    ensures
        texts(all@) == log_files(
            directories(temporary@, maybe(module), maybe(profile), maybe(current)),
        ),
        all@.len() > 0,
        forall|i: int, j: int|
            0 <= i < j < all@.len() ==> !path::same(
                (#[trigger] all@[i])@,
                (#[trigger] all@[j])@,
            ),
{
    let mut all: Vec<String> = Vec::new();
    let ghost none: Seq<Seq<char>> = seq![];
    let ghost one = none + at_most_one(Some(temporary@));
    let ghost two = one + at_most_one(maybe(module));
    let ghost three = two + at_most_one(maybe(profile));
    let ghost four = three + at_most_one(maybe(current));
    assert(none.map_values(|dir: Seq<char>| path::joined(dir, LOG_FILE_NAME@)) =~= seq![]);
    assert(texts(all@) =~= log_files(none));
    add_file_in(&mut all, Some(temporary), Ghost(none));
    add_file_in(&mut all, module, Ghost(one));
    add_file_in(&mut all, profile, Ghost(two));
    add_file_in(&mut all, current, Ghost(three));
    proof {
        assert(four =~= directories(temporary@, maybe(module), maybe(profile), maybe(current)));
        lemma_files(all@, four);
    }
    all
}

/// Adds the log file in a directory, if there is one, to those in `dirs`.
fn add_file_in(all: &mut Vec<String>, dir: Option<&str>, Ghost(dirs): Ghost<Seq<Seq<char>>>)
    requires
        texts(old(all)@) == log_files(dirs),
    ensures
        texts(final(all)@) == log_files(dirs + at_most_one(maybe(dir))),
{
    if let Some(dir) = dir {
        add_file(all, dir);
        proof {
            lemma_log_files(dirs, dir@);
            assert(dirs + at_most_one(Some(dir@)) =~= dirs.push(dir@));
        }
    } else {
        assert(dirs + at_most_one::<Seq<char>>(None) =~= dirs);
    }
}

/// What holds of the texts holds of the strings.
proof fn lemma_files(all: Seq<String>, dirs: Seq<Seq<char>>)
    requires
        texts(all) == log_files(dirs),
        dirs.len() > 0,
    ensures
        all.len() > 0,
        forall|i: int, j: int|
            0 <= i < j < all.len() ==> !path::same((#[trigger] all[i])@, (#[trigger] all[j])@),
{
    law_candidates_are_distinct(dirs);
    assert(texts(all).len() == all.len());
    assert forall|i: int, j: int| 0 <= i < j < all.len() implies !path::same(
        (#[trigger] all[i])@,
        (#[trigger] all[j])@,
    ) by {
        assert(texts(all)[i] == all[i]@);
        assert(texts(all)[j] == all[j]@);
    }
}

/// One directory more.
proof fn lemma_log_files(dirs: Seq<Seq<char>>, dir: Seq<char>)
    ensures
        log_files(dirs.push(dir)) == including(log_files(dirs), path::joined(dir, LOG_FILE_NAME@)),
{
    let join_to = |dir: Seq<char>| path::joined(dir, LOG_FILE_NAME@);
    assert(dirs.push(dir).map_values(join_to).drop_last() =~= dirs.map_values(join_to));
}

#[verifier::spinoff_prover]
proof fn lemma_firsts(s: Seq<Seq<char>>)
    ensures
        forall|i: int, j: int|
            0 <= i < j < firsts(s).len() ==> !path::same(
                #[trigger] firsts(s)[i],
                #[trigger] firsts(s)[j],
            ),
        forall|i: int| 0 <= i < firsts(s).len() ==> s.contains(#[trigger] firsts(s)[i]),
        forall|k: int|
            0 <= k < s.len() ==> exists|i: int|
                0 <= i < firsts(s).len() && path::same(#[trigger] firsts(s)[i], #[trigger] s[k]),
        s.len() > 0 ==> firsts(s).len() > 0 && firsts(s)[0] == s[0],
    decreases s.len(),
{
    if s.len() > 0 {
        let head = s.drop_last();
        let before = firsts(head);
        let after = firsts(s);
        lemma_firsts(head);
        assert(before.is_prefix_of(after));
        assert forall|i: int, j: int| 0 <= i < j < after.len() implies !path::same(
            #[trigger] after[i],
            #[trigger] after[j],
        ) by {
            assert(before[i] == after[i]);
            if j < before.len() {
                assert(before[j] == after[j]);
            }
        }
        assert forall|i: int| 0 <= i < after.len() implies s.contains(#[trigger] after[i]) by {
            if i < before.len() {
                assert(head.contains(before[i]));
                let k = choose|k: int| 0 <= k < head.len() && head[k] == before[i];
                assert(s[k] == after[i]);
            } else {
                assert(s[s.len() - 1] == after[i]);
            }
        }
        assert forall|k: int| 0 <= k < s.len() implies exists|i: int|
            0 <= i < after.len() && path::same(#[trigger] after[i], #[trigger] s[k]) by {
            if k < head.len() {
                assert(head[k] == s[k]);
                let i = choose|i: int|
                    0 <= i < before.len() && path::same(#[trigger] before[i], head[k]);
                assert(path::same(after[i], s[k]));
            } else if after.len() > before.len() {
                assert(path::same(after[after.len() - 1], s[k]));
            } else {
                let i = choose|i: int|
                    0 <= i < before.len() && path::same(#[trigger] before[i], s.last());
                assert(path::same(after[i], s[k]));
            }
        }
        if head.len() > 0 {
            assert(before[0] == head[0]);
            assert(after[0] == before[0]);
        }
    }
}

/// No two candidates name the same file; every directory has its candidate, and
/// every candidate its directory; the file in the first directory comes first.
#[verifier::spinoff_prover]
pub proof fn law_candidates_are_distinct(dirs: Seq<Seq<char>>)
    ensures
        forall|i: int, j: int|
            0 <= i < j < log_files(dirs).len() ==> !path::same(
                #[trigger] log_files(dirs)[i],
                #[trigger] log_files(dirs)[j],
            ),
        forall|k: int|
            0 <= k < dirs.len() ==> exists|i: int|
                0 <= i < log_files(dirs).len() && path::same(
                    #[trigger] log_files(dirs)[i],
                    path::joined(#[trigger] dirs[k], LOG_FILE_NAME@),
                ),
        forall|i: int|
            0 <= i < log_files(dirs).len() ==> exists|k: int|
                0 <= k < dirs.len() && #[trigger] log_files(dirs)[i] == path::joined(
                    #[trigger] dirs[k],
                    LOG_FILE_NAME@,
                ),
        dirs.len() > 0 ==> log_files(dirs).len() > 0 && log_files(dirs)[0] == path::joined(
            dirs[0],
            LOG_FILE_NAME@,
        ),
{
    let all = dirs.map_values(|dir: Seq<char>| path::joined(dir, LOG_FILE_NAME@));
    lemma_firsts(all);
    assert forall|k: int| 0 <= k < dirs.len() implies exists|i: int|
        0 <= i < log_files(dirs).len() && path::same(
            #[trigger] log_files(dirs)[i],
            path::joined(#[trigger] dirs[k], LOG_FILE_NAME@),
        ) by {
        assert(all[k] == path::joined(dirs[k], LOG_FILE_NAME@));
        let i = choose|i: int|
            0 <= i < firsts(all).len() && path::same(#[trigger] firsts(all)[i], all[k]);
        assert(path::same(log_files(dirs)[i], path::joined(dirs[k], LOG_FILE_NAME@)));
    }
    assert forall|i: int| 0 <= i < log_files(dirs).len() implies exists|k: int|
        0 <= k < dirs.len() && #[trigger] log_files(dirs)[i] == path::joined(
            #[trigger] dirs[k],
            LOG_FILE_NAME@,
        ) by {
        let x = log_files(dirs)[i];
        assert(all.contains(x));
        let k = choose|k: int| 0 <= k < all.len() && all[k] == x;
        assert(x == path::joined(dirs[k], LOG_FILE_NAME@));
    }
}

/// Every candidate is named after the log file: its path ends in the name, and
/// what comes before ends in a separator or a colon.
pub proof fn law_candidates_are_named(dir: Seq<char>)
    ensures
        ({
            let path = path::joined(dir, LOG_FILE_NAME@);
            let before = path.len() - LOG_FILE_NAME@.len();
            &&& before >= 0
            &&& path.skip(before) == LOG_FILE_NAME@
            &&& before > 0 ==> path[before - 1] == '\\' || path[before - 1] == '/' || path[before
                - 1] == ':'
        }),
{
    let path = path::joined(dir, LOG_FILE_NAME@);
    assert(path.skip(path.len() - LOG_FILE_NAME@.len()) =~= LOG_FILE_NAME@);
}

/// Notes why a candidate could not be opened.
pub fn add_problem(problems: &mut String, path: &str, error: &str)
    ensures
        final(problems)@ == old(problems)@ + path@ + ": "@ + error@ + "; "@,
{
    problems.append(path);
    problems.append(": ");
    problems.append(error);
    problems.append("; ");
}

/// The first message of a session.
pub fn session_start(version: &str, pid: u32) -> (text: String)
    ensures
        text@ == "=== BTamaCheat "@ + version@ + " === pid "@ + numeral::decimal(pid as nat),
{
    let mut text = "=== BTamaCheat ".to_owned();
    text.append(version);
    text.append(" === pid ");
    numeral::push_decimal(&mut text, pid as u64);
    text
}

/// The message about where the log goes.
pub open spec fn destination_message(path: Option<Seq<char>>, problem: Option<Seq<char>>) -> (
    Level,
    Seq<char>,
) {
    match (path, problem) {
        (Some(path), _) => (Level::Info, "лог пишется в "@ + path),
        (None, Some(problem)) => (
            Level::Error,
            "файл лога открыть не удалось, остаётся только отладчик: "@ + problem,
        ),
        (None, None) => (Level::Error, "файл лога открыть не удалось, причина не записана"@),
    }
}

/// A text that may be missing, in spec code.
pub open spec fn maybe(text: Option<&str>) -> Option<Seq<char>> {
    match text {
        Some(text) => Some(text@),
        None => None,
    }
}

/// Says in the log where the log goes, or why there is no file.
pub fn session_report(path: Option<&str>, problem: Option<&str>) -> (r: (Level, String))
    ensures
        (r.0, r.1@) == destination_message(maybe(path), maybe(problem)),
{
    match (path, problem) {
        (Some(path), _) => {
            let mut text = "лог пишется в ".to_owned();
            text.append(path);
            (Level::Info, text)
        },
        (None, Some(problem)) => {
            let mut text = "файл лога открыть не удалось, остаётся только отладчик: ".to_owned();
            text.append(problem);
            (Level::Error, text)
        },
        (None, None) => (
            Level::Error,
            "файл лога открыть не удалось, причина не записана".to_owned(),
        ),
    }
}

/// A time of day always takes twelve characters, with the separators at fixed
/// places.
pub proof fn law_stamp_layout(hour: nat, minute: nat, second: nat, milliseconds: nat)
    requires
        hour < 100,
        minute < 100,
        second < 100,
        milliseconds < 1000,
    ensures
        ({
            let text = stamp(hour, minute, second, milliseconds);
            text.len() == 12 && text[2] == ':' && text[5] == ':' && text[8] == '.'
        }),
{
    numeral::law_padded_width(hour);
    numeral::law_padded_width(minute);
    numeral::law_padded_width(second);
    numeral::law_padded_width(milliseconds);
}

/// The parts of a time of day can be read back, each from its place.
pub proof fn law_stamp_can_be_read(hour: nat, minute: nat, second: nat, milliseconds: nat)
    requires
        hour < 100,
        minute < 100,
        second < 100,
        milliseconds < 1000,
    ensures
        ({
            let text = stamp(hour, minute, second, milliseconds);
            &&& numeral::value_of(text.subrange(0, 2)) == hour
            &&& numeral::value_of(text.subrange(3, 5)) == minute
            &&& numeral::value_of(text.subrange(6, 8)) == second
            &&& numeral::value_of(text.subrange(9, 12)) == milliseconds
        }),
{
    let text = stamp(hour, minute, second, milliseconds);
    let h = numeral::zero_padded(numeral::decimal(hour), 2);
    let m = numeral::zero_padded(numeral::decimal(minute), 2);
    let s = numeral::zero_padded(numeral::decimal(second), 2);
    let l = numeral::zero_padded(numeral::decimal(milliseconds), 3);
    numeral::law_padded_width(hour);
    numeral::law_padded_width(minute);
    numeral::law_padded_width(second);
    numeral::law_padded_width(milliseconds);
    numeral::law_zero_padding(numeral::decimal(hour), 2);
    numeral::law_zero_padding(numeral::decimal(minute), 2);
    numeral::law_zero_padding(numeral::decimal(second), 2);
    numeral::law_zero_padding(numeral::decimal(milliseconds), 3);
    numeral::law_decimal_can_be_read(hour);
    numeral::law_decimal_can_be_read(minute);
    numeral::law_decimal_can_be_read(second);
    numeral::law_decimal_can_be_read(milliseconds);
    assert(text.subrange(0, 2) =~= h);
    assert(text.subrange(3, 5) =~= m);
    assert(text.subrange(6, 8) =~= s);
    assert(text.subrange(9, 12) =~= l);
}

/// A line of the log shows the time of day first, in brackets with the level, and
/// the whole message at its end.
pub proof fn law_line_layout(stamp: Seq<char>, level: Level, message: Seq<char>)
    ensures
        ({
            let text = line_of(stamp, level, message);
            let before = text.len() - message.len();
            &&& text.len() > stamp.len() + message.len() + 3
            &&& text[0] == '['
            &&& text.subrange(1, (1 + stamp.len()) as int) == stamp
            &&& text[(1 + stamp.len()) as int] == ' '
            &&& text[before - 2] == ']'
            &&& text[before - 1] == ' '
            &&& text.skip(before) == message
        }),
{
    reveal_strlit("[");
    reveal_strlit(" BTamaCheat/");
    reveal_strlit("] ");
    let text = line_of(stamp, level, message);
    assert(text.subrange(1, (1 + stamp.len()) as int) =~= stamp);
    assert(text.skip(text.len() - message.len()) =~= message);
}

/// The directories in order of preference: temporary files always and first, then
/// our library, the user and the current one, as far as they are known.
pub proof fn law_order_of_directories(
    temporary: Seq<char>,
    module: Seq<char>,
    profile: Seq<char>,
    current: Seq<char>,
)
    ensures
        directories(temporary, None, None, None) == seq![temporary],
        directories(temporary, Some(module), None, None) == seq![temporary, module],
        directories(temporary, None, Some(profile), None) == seq![temporary, profile],
        directories(temporary, None, None, Some(current)) == seq![temporary, current],
        directories(temporary, Some(module), Some(profile), None) == seq![
            temporary,
            module,
            profile,
        ],
        directories(temporary, Some(module), None, Some(current)) == seq![
            temporary,
            module,
            current,
        ],
        directories(temporary, None, Some(profile), Some(current)) == seq![
            temporary,
            profile,
            current,
        ],
        directories(temporary, Some(module), Some(profile), Some(current)) == seq![
            temporary,
            module,
            profile,
            current,
        ],
{
}

/// The candidates come in the order of their directories: a directory more adds
/// at most one candidate, and behind all others.
pub proof fn law_candidates_keep_order(dirs: Seq<Seq<char>>, dir: Seq<char>)
    ensures
        log_files(dirs).is_prefix_of(log_files(dirs.push(dir))),
        log_files(dirs.push(dir)).len() <= log_files(dirs).len() + 1,
{
    lemma_log_files(dirs, dir);
}

/// A file is reported with its path; that there is none is an error, reported
/// with its reason if there is one.
pub proof fn law_destination(path: Seq<char>, problem: Option<Seq<char>>)
    ensures
        ({
            let (level, text) = destination_message(Some(path), problem);
            &&& level == Level::Info
            &&& text.len() >= path.len()
            &&& text.skip(text.len() - path.len()) == path
        }),
        destination_message(None, problem).0 == Level::Error,
        problem matches Some(reason) ==> {
            let text = destination_message(None, problem).1;
            &&& text.len() >= reason.len()
            &&& text.skip(text.len() - reason.len()) == reason
        },
{
    let text = destination_message(Some(path), problem).1;
    assert(text.skip(text.len() - path.len()) =~= path);
    if let Some(reason) = problem {
        let text = destination_message(None, problem).1;
        assert(text.skip(text.len() - reason.len()) =~= reason);
    }
}

/// The names of the levels, letter by letter.
pub proof fn law_level_names()
    ensures
        level_name(Level::Info) == seq!['i', 'n', 'f', 'o'],
        level_name(Level::Warn) == seq!['w', 'a', 'r', 'n'],
        level_name(Level::Error) == seq!['e', 'r', 'r', 'o', 'r'],
{
    reveal_strlit("info");
    reveal_strlit("warn");
    reveal_strlit("error");
    assert("info"@ =~= seq!['i', 'n', 'f', 'o']);
    assert("warn"@ =~= seq!['w', 'a', 'r', 'n']);
    assert("error"@ =~= seq!['e', 'r', 'r', 'o', 'r']);
}

} // verus!
