use btama::numeral::{
    push_decimal, push_hex, push_signed, push_space_padded, push_zero_padded,
};

fn built(f: impl Fn(&mut String)) -> String {
    let mut text = ">".to_string();
    f(&mut text);
    text
}

#[test]
fn numbers_are_written_like_the_standard_library_does() {
    for n in [0, 1, 9, 10, 99, 100, 12345, u32::MAX as u64, u64::MAX] {
        assert_eq!(built(|t| push_decimal(t, n)), format!(">{n}"));
        assert_eq!(built(|t| push_hex(t, n)), format!(">{n:X}"));
        assert_eq!(built(|t| push_zero_padded(t, n, 3)), format!(">{n:03}"));
    }
    for n in [0, 7, -7, i32::MIN as i64, i32::MAX as i64, i64::MIN] {
        assert_eq!(built(|t| push_signed(t, n)), format!(">{n}"));
    }
}

#[test]
fn texts_are_padded_by_characters() {
    for text in ["", "abc", "Ловушка", "exactly twenty chars", "more than twenty characters"] {
        assert_eq!(built(|t| push_space_padded(t, text, 20)), format!(">{text:<20}"));
    }
}
