use btama::font::{covered, GLYPH_RANGES};

#[test]
fn glyph_ranges_are_well_formed() {
    assert_eq!(GLYPH_RANGES.len() % 2, 1, "длина обязана быть нечётной");
    assert_eq!(GLYPH_RANGES.last(), Some(&0), "нужен нулевой терминатор");

    let pairs: Vec<(u32, u32)> = GLYPH_RANGES[..GLYPH_RANGES.len() - 1]
        .chunks_exact(2)
        .map(|pair| (pair[0], pair[1]))
        .collect();

    for &(start, end) in &pairs {
        assert!(
            start != 0 && start <= end,
            "некорректный диапазон {start:#x}..={end:#x}"
        );
    }
    for window in pairs.windows(2) {
        assert!(
            window[0].1 < window[1].0,
            "диапазоны {:?} и {:?} пересекаются",
            window[0],
            window[1]
        );
    }
}

#[test]
fn ui_characters_are_covered() {
    for ch in "Сканирование памяти... Ожидание игры: метод ещё не вызывался".chars() {
        assert!(covered(ch), "символ {ch:?} вне диапазонов");
    }
    for ch in ['—', '«', '»', '…', '№', 'ё', 'Ё', 'A', '0', '#'] {
        assert!(covered(ch), "символ {ch:?} вне диапазонов");
    }
}

#[test]
fn characters_outside_the_ranges_are_not_covered() {
    for ch in ['\n', '\u{100}', '\u{3FF}', '\u{530}', '\u{200F}', '\u{2028}', '中', '\u{0}'] {
        assert!(!covered(ch), "{ch:?}");
    }
    assert!(covered(' ') && covered('\u{FF}') && covered('\u{2116}'));
}

#[test]
fn the_user_interface_library_accepts_the_ranges() {
    let ranges: &'static [u32] = Vec::leak(GLYPH_RANGES.to_vec());
    let _ = imgui::FontGlyphRanges::from_slice(ranges);
}
