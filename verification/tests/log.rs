use btama::log::path::{is_same, join};
use btama::log::{
    add_problem, candidates, debugger_units, loaded_from, session_report, session_start, timestamp,
    Level, LOG_FILE_NAME,
};

#[test]
fn timestamp_has_millisecond_resolution() {
    let stamp = timestamp(12, 34, 56, 789);
    // 12:34:56.789
    assert_eq!(stamp.len(), 12, "получили {stamp:?}");
    assert_eq!(stamp.matches(':').count(), 2);
    assert!(stamp.contains('.'));
    assert_eq!(stamp, "12:34:56.789");
}

#[test]
fn timestamps_are_padded() {
    assert_eq!(timestamp(0, 0, 0, 0), "00:00:00.000");
    assert_eq!(timestamp(1, 2, 3, 4), "01:02:03.004");
    assert_eq!(timestamp(23, 59, 59, 45), "23:59:59.045");
    assert_eq!(timestamp(100, 1000, 65535, 12345), "100:1000:65535.12345");
}

#[test]
fn lines_name_time_and_level() {
    assert_eq!(btama::log::line("12:00:00.000", Level::Info, "x"), "[12:00:00.000 BTamaCheat/info] x");
    assert_eq!(btama::log::line("t", Level::Warn, ""), "[t BTamaCheat/warn] ");
    assert_eq!(btama::log::line("t", Level::Error, "ё"), "[t BTamaCheat/error] ё");
}

#[test]
fn the_debugger_gets_units_that_end_in_zero() {
    let text = "a\u{1F600}я";
    let mut expected: Vec<u16> = text.encode_utf16().collect();
    expected.push(10);
    expected.push(0);
    assert_eq!(debugger_units(text), expected);
    assert_eq!(debugger_units(""), vec![10, 0]);
}

#[test]
fn candidates_are_distinct_and_named() {
    let lists = [
        candidates("C:\\Temp", Some("D:\\Game"), Some("C:\\Users\\me"), Some("D:\\Game")),
        candidates("", None, Some("C:"), Some("/tmp/")),
        candidates("C:\\Temp\\", Some("C:\\Temp"), Some("C:\\Temp\\"), Some("C:\\Temp")),
        candidates("C:\\Temp", None, None, None),
    ];
    for candidates in &lists {
        assert!(!candidates.is_empty());
        for (i, path) in candidates.iter().enumerate() {
            let name = path.rsplit(['\\', '/', ':']).next();
            assert_eq!(name, Some(LOG_FILE_NAME));
            assert!(!candidates[i + 1..].contains(path));
        }
    }
}

#[test]
fn directories_are_tried_in_order() {
    assert_eq!(LOG_FILE_NAME, "BTamaCheat.log");
    assert_eq!(
        candidates("C:\\t", Some("C:\\m"), Some("C:\\p"), Some("C:\\c")),
        vec![
            "C:\\t\\BTamaCheat.log",
            "C:\\m\\BTamaCheat.log",
            "C:\\p\\BTamaCheat.log",
            "C:\\c\\BTamaCheat.log"
        ]
    );
    assert_eq!(
        candidates("t", None, Some("p"), None),
        vec!["t\\BTamaCheat.log", "p\\BTamaCheat.log"]
    );
    assert_eq!(candidates("t", None, None, None), vec!["t\\BTamaCheat.log"]);
}

#[test]
fn of_equal_files_the_first_stays() {
    assert_eq!(
        candidates("C:\\t", Some("D:\\g"), Some("C:\\t"), Some("D:\\g")),
        vec!["C:\\t\\BTamaCheat.log", "D:\\g\\BTamaCheat.log"]
    );
    assert_eq!(
        candidates("C:\\t\\", Some("C:\\t"), None, None),
        vec!["C:\\t\\BTamaCheat.log"]
    );
}

#[test]
fn paths_are_compared_by_their_parts() {
    for (a, b, same) in [
        ("C:/T", "C:\\T", true),
        ("c:\\T", "C:\\T", true),
        ("C:\\T", "C:\\t", false),
        ("C:\\T", "D:\\T", false),
        ("C:\\T\\\\U", "C:\\T/U", true),
        ("C:\\T\\.\\U\\.", "C:\\T\\U\\", true),
        ("C:\\T\\..\\U", "C:\\U", false),
        ("C:T", "C:\\T", false),
        ("c:T", "C:T", true),
        (".\\T", "T", false),
        ("./T", ".\\.\\T", true),
        ("T", "\\T", false),
        ("\\.\\T", "/T", true),
        ("\\\\host\\share", "//host/share", true),
        ("\\\\host\\share", "\\host\\share", false),
        ("\\\\.\\pipe", "\\\\pipe", false),
        ("\\\\?\\C:\\T", "\\\\?\\c:\\T", true),
        ("\\\\?\\C:\\T", "\\\\?\\C:\\T\\.", false),
        ("\\\\?\\C:\\T/U", "\\\\?\\C:\\T\\U", false),
        ("\\\\?\\C:\\T", "//?/C:/T", false),
        ("\\\\?\\C:\\T", "C:\\T", false),
        ("", "", true),
        ("", ".", false),
    ] {
        assert_eq!(is_same(a, b), same, "{a} {b}");
        assert_eq!(is_same(b, a), same, "{b} {a}");
        assert!(is_same(a, a));
        let count = candidates(a, Some(b), None, None).len();
        assert_eq!(count, if is_same(&join(a, "x"), &join(b, "x")) { 1 } else { 2 });
    }
    assert_eq!(
        candidates("C:/T", Some("C:\\T"), Some("c:\\T\\"), Some("C:\\t")),
        vec!["C:/T\\BTamaCheat.log", "C:\\t\\BTamaCheat.log"]
    );
}

#[test]
fn files_are_joined_to_directories_with_one_separator() {
    for (dir, file) in [
        ("", "BTamaCheat.log"),
        ("C:", "C:BTamaCheat.log"),
        ("z:", "z:BTamaCheat.log"),
        ("1:", "1:\\BTamaCheat.log"),
        ("C:\\", "C:\\BTamaCheat.log"),
        ("C:/", "C:/BTamaCheat.log"),
        ("CC:", "CC:\\BTamaCheat.log"),
        ("\\\\host\\share", "\\\\host\\share\\BTamaCheat.log"),
        ("C:\\Игры", "C:\\Игры\\BTamaCheat.log"),
    ] {
        assert_eq!(candidates(dir, None, None, None), vec![file]);
    }
}

#[test]
fn problems_are_collected() {
    let mut problems = String::new();
    add_problem(&mut problems, "a", "denied");
    add_problem(&mut problems, "b", "missing");
    assert_eq!(problems, "a: denied; b: missing; ");
}

#[test]
fn a_session_says_where_it_is_logged() {
    assert_eq!(session_start("0.1.0", 42), "=== BTamaCheat 0.1.0 === pid 42");
    assert_eq!(
        session_report(Some("x.log"), Some("ignored")),
        (Level::Info, "лог пишется в x.log".to_string())
    );
    assert_eq!(
        session_report(None, Some("a: denied; ")),
        (
            Level::Error,
            "файл лога открыть не удалось, остаётся только отладчик: a: denied; ".to_string()
        )
    );
    assert_eq!(
        session_report(None, None),
        (
            Level::Error,
            "файл лога открыть не удалось, причина не записана".to_string()
        )
    );
}

#[test]
fn module_paths_must_fit() {
    let mut buffer: Vec<u16> = "C:\\x.dll".encode_utf16().collect();
    let length = buffer.len();
    assert_eq!(loaded_from(&buffer, length), None);
    buffer.push(0);
    assert_eq!(loaded_from(&buffer, length), Some("C:\\x.dll".to_string()));
    assert_eq!(loaded_from(&buffer, 2), Some("C:".to_string()));
    assert_eq!(loaded_from(&buffer, 0), None);
    assert_eq!(loaded_from(&buffer, length + 1), None);
}
