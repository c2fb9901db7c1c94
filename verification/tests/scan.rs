use btama::mem::Need;
use btama::scan::{
    find_in_slice, find_unique, is_executable_readable, is_scannable, parse, Outcome, Search,
    MATCH_LIMIT,
};
use btama::win32::{
    RegionInfo, MEM_COMMIT, MEM_PRIVATE, PAGE_EXECUTE_READ, PAGE_EXECUTE_READWRITE,
    PAGE_EXECUTE_WRITECOPY, PAGE_GUARD, PAGE_READWRITE,
};

fn find_all(haystack: &[u8], pattern: &[Option<u8>]) -> Vec<usize> {
    let mut out = Vec::new();
    find_in_slice(haystack, pattern, 0, &mut out, MATCH_LIMIT);
    out
}

#[test]
fn parses_signature_with_wildcards() {
    let pattern = parse("83 C1 0C ? 8B").expect("валидная сигнатура");
    assert_eq!(
        pattern,
        vec![Some(0x83), Some(0xC1), Some(0x0C), None, Some(0x8B)]
    );
}

#[test]
fn rejects_malformed_signature() {
    assert!(parse("83 ZZ").is_none());
    assert!(parse("").is_none());
}

#[test]
fn finds_single_match_at_correct_offset() {
    let haystack = [0x00, 0x11, 0x83, 0xC1, 0x0C, 0x22];
    let pattern = parse("83 C1 0C").unwrap();
    assert_eq!(find_all(&haystack, &pattern), vec![2]);
}

#[test]
fn wildcard_matches_any_byte() {
    let haystack = [0x83, 0xFF, 0x0C];
    let pattern = parse("83 ? 0C").unwrap();
    assert_eq!(find_all(&haystack, &pattern), vec![0]);
}

#[test]
fn reports_every_match() {
    let haystack = [0xAA, 0xBB, 0x00, 0xAA, 0xBB];
    let pattern = parse("AA BB").unwrap();
    assert_eq!(find_all(&haystack, &pattern), vec![0, 3]);
}

#[test]
fn match_at_the_very_end_is_found() {
    let haystack = [0x00, 0xAA, 0xBB];
    let pattern = parse("AA BB").unwrap();
    assert_eq!(find_all(&haystack, &pattern), vec![1]);
}

#[test]
fn pattern_longer_than_haystack_finds_nothing() {
    let haystack = [0xAA];
    let pattern = parse("AA BB CC").unwrap();
    assert!(find_all(&haystack, &pattern).is_empty());
}

#[test]
fn leading_wildcard_does_not_break_the_scan() {
    let haystack = [0x01, 0xBB, 0x02, 0xBB];
    let pattern = parse("? BB").unwrap();
    assert_eq!(find_all(&haystack, &pattern), vec![0, 2]);
}

#[test]
fn absolute_addresses_are_offset_by_base() {
    let haystack = [0x00, 0xAA];
    let pattern = parse("AA").unwrap();
    let mut out = Vec::new();
    find_in_slice(&haystack, &pattern, 0x1000, &mut out, MATCH_LIMIT);
    assert_eq!(out, vec![0x1001]);
}

#[test]
fn stops_at_the_match_limit() {
    let haystack = [0xAA; 64];
    let pattern = parse("AA").unwrap();
    assert_eq!(find_all(&haystack, &pattern).len(), MATCH_LIMIT);
}

#[test]
fn signature_words_follow_the_rules_of_numbers() {
    assert_eq!(parse("?? +f 0a 00FF"), Some(vec![None, Some(0x0F), Some(0x0A), Some(0xFF)]));
    assert_eq!(parse("100"), None);
    assert_eq!(parse("+"), None);
    assert_eq!(parse("-1"), None);
    assert_eq!(parse("???"), None);
    assert_eq!(parse("1?"), None);
    assert_eq!(parse(" \t\u{3000}\n"), None);
    assert_eq!(parse("\u{A0}1\u{2003}\u{85}2\r\n"), Some(vec![Some(1), Some(2)]));
    for byte in 0..=255u8 {
        assert_eq!(parse(&format!("{byte:02X}")), Some(vec![Some(byte)]));
        assert_eq!(parse(&format!("{byte:x}")), Some(vec![Some(byte)]));
    }
}

#[test]
fn words_are_split_like_the_standard_library_does() {
    for code in 0..0x11_0000u32 {
        if let Some(c) = char::from_u32(code) {
            let text = format!("1{c}2");
            let words: Vec<&str> = text.split_whitespace().collect();
            if c.is_whitespace() {
                assert_eq!(words.len(), 2);
                assert_eq!(parse(&text), Some(vec![Some(1), Some(2)]));
            } else if code < 0x3100 {
                let expected = u8::from_str_radix(&text, 16).ok().map(|value| vec![Some(value)]);
                assert_eq!(parse(&text), expected, "{text:?}");
            }
        }
    }
}

#[test]
fn overlapping_matches_are_all_found() {
    assert_eq!(find_all(&[7, 7, 7], &[Some(7), Some(7)]), vec![0, 1]);
    assert!(find_all(&[7, 7, 7], &[]).is_empty());
    assert!(find_all(&[], &[Some(7)]).is_empty());
}

#[test]
fn a_full_list_takes_no_match() {
    let mut out = vec![1, 2, 3];
    find_in_slice(&[7, 7, 7], &[Some(7)], 100, &mut out, 2);
    assert_eq!(out, vec![1, 2, 3]);
    find_in_slice(&[7, 7, 7], &[Some(7)], 100, &mut out, 3);
    assert_eq!(out, vec![1, 2, 3]);
    find_in_slice(&[7, 7, 7], &[Some(7)], 100, &mut out, 5);
    assert_eq!(out, vec![1, 2, 3, 100, 101]);

    let mut out = Vec::new();
    find_in_slice(&[0xAA; 4], &[Some(0xAA)], 0, &mut out, 0);
    assert!(out.is_empty());
    find_in_slice(&[0xAA; 4], &[Some(0xAA)], 0, &mut out, 1);
    assert_eq!(out, vec![0]);
}

#[test]
fn only_readable_code_is_scanned() {
    assert!(is_executable_readable(PAGE_EXECUTE_READ));
    assert!(is_executable_readable(PAGE_EXECUTE_READWRITE));
    assert!(is_executable_readable(PAGE_EXECUTE_WRITECOPY));
    assert!(!is_executable_readable(0x10));
    assert!(!is_executable_readable(PAGE_READWRITE));
    assert!(!is_executable_readable(PAGE_EXECUTE_READ | PAGE_GUARD));

    let code = RegionInfo {
        base: 0x1000,
        size: 0x1000,
        state: MEM_COMMIT,
        protect: PAGE_EXECUTE_READ,
        kind: 0x100_0000,
    };
    assert!(is_scannable(&code, false));
    assert!(!is_scannable(&code, true));
    assert!(is_scannable(&RegionInfo { kind: MEM_PRIVATE, ..code }, true));
    assert!(!is_scannable(&RegionInfo { state: 0x2000, ..code }, false));
}

fn region(base: usize, size: usize, kind: u32) -> RegionInfo {
    RegionInfo { base, size, state: MEM_COMMIT, protect: PAGE_EXECUTE_READ, kind }
}

/// Runs a search over regions that lie one behind the other.
fn run(regions: &[(RegionInfo, Vec<u8>)], pattern: &[Option<u8>]) -> (Outcome, usize) {
    let mut search = Search::new(pattern.to_vec());
    let mut asked = 0;
    loop {
        match find_unique(&search) {
            Ok(outcome) => return (outcome, asked),
            Err(Need::Region(addr)) => {
                let info = regions
                    .iter()
                    .map(|(info, _)| *info)
                    .find(|info| info.base <= addr && addr - info.base < info.size);
                search.supply_region(info);
            }
            Err(Need::Bytes(addr, len)) => {
                asked += 1;
                let bytes = &regions.iter().find(|(info, _)| info.base == addr).unwrap().1;
                assert_eq!(bytes.len(), len);
                search.supply_bytes(bytes);
            }
        }
    }
}

#[test]
fn private_memory_is_searched_first() {
    let image = 0x100_0000;
    let all = vec![
        (region(0, 4, image), vec![1, 2, 3, 4]),
        (region(4, 4, MEM_PRIVATE), vec![0, 3, 4, 0]),
        (region(8, 2, image), vec![3, 4]),
    ];
    let pattern = parse("03 04").unwrap();
    assert_eq!(run(&all, &pattern), (Outcome::Unique(5), 1));
    let pattern = parse("01 02").unwrap();
    assert_eq!(run(&all, &pattern), (Outcome::Unique(0), 4));
    let pattern = parse("00 ? ? 00").unwrap();
    assert_eq!(run(&all, &pattern), (Outcome::Unique(4), 1));
    let pattern = parse("09").unwrap();
    assert_eq!(run(&all, &pattern), (Outcome::NotFound, 4));
}

#[test]
fn several_matches_are_ambiguous() {
    let all = vec![
        (region(0, 4, MEM_PRIVATE), vec![1, 0, 1, 0]),
        (region(4, 4, MEM_PRIVATE), vec![1, 1, 1, 1]),
        (region(8, 4, MEM_PRIVATE), vec![1, 1, 1, 1]),
        (region(12, 4, MEM_PRIVATE), vec![1, 1, 1, 1]),
    ];
    let pattern = parse("01").unwrap();
    assert_eq!(
        run(&all, &pattern),
        (Outcome::Ambiguous(vec![0, 2, 4, 5, 6, 7, 8, 9]), 3)
    );
    let pattern = parse("01 00").unwrap();
    assert_eq!(run(&all, &pattern), (Outcome::Ambiguous(vec![0, 2]), 4));
}

#[test]
fn a_region_that_does_not_grow_ends_the_pass() {
    let mut search = Search::new(vec![Some(1)]);
    assert_eq!(find_unique(&search), Err(Need::Region(0)));
    search.supply_region(Some(region(0, 0, MEM_PRIVATE)));
    assert_eq!(find_unique(&search), Err(Need::Region(0)));
    search.supply_region(Some(RegionInfo { protect: 1, ..region(usize::MAX, 7, MEM_PRIVATE) }));
    assert_eq!(find_unique(&search), Ok(Outcome::NotFound));
    search.supply_region(Some(region(0, 4, MEM_PRIVATE)));
    search.supply_bytes(&[1]);
    assert_eq!(find_unique(&search), Ok(Outcome::NotFound));
}
