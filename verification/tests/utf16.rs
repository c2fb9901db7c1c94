use btama::utf16::{decode_lossy, encode};

#[test]
fn decoding_agrees_with_the_standard_library() {
    let samples: Vec<Vec<u16>> = vec![
        vec![],
        vec![0x41, 0x42F],
        vec![0xD83D, 0xDE00],
        vec![0xD83D],
        vec![0xDE00, 0xD83D],
        vec![0xD83D, 0xD83D, 0xDE00],
        vec![0xD83D, 0x41],
        vec![0xD7FF, 0xE000, 0xFFFF, 0],
        vec![0xDBFF, 0xDFFF, 0xD800, 0xDC00],
    ];
    for units in &samples {
        assert_eq!(decode_lossy(units), String::from_utf16_lossy(units), "{units:x?}");
    }
    assert_eq!(decode_lossy(&vec![0xD83D]), "\u{FFFD}");
}

#[test]
fn every_unit_decodes_like_the_standard_library() {
    for unit in 0..=0xFFFFu16 {
        let units = vec![unit, 0xDC00, unit];
        assert_eq!(decode_lossy(&units), String::from_utf16_lossy(&units));
    }
}

#[test]
fn text_survives_encoding() {
    for text in ["", "Player", "Игрок №1", "a\u{10000}\u{10FFFF}z", "\u{FFFD}"] {
        let units = encode(text);
        assert_eq!(units, text.encode_utf16().collect::<Vec<u16>>());
        assert_eq!(decode_lossy(&units), text);
    }
}
