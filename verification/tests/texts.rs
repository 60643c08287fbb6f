use calpersonal::text::{
    chars_of, check_digit, check_space, count_digits, count_spaces, count_spaces_back, scan_char,
    scan_number, scan_space, scan_spaces, slice_string, string_of, trim_bounds,
};

fn chars(s: &str) -> Vec<char> {
    s.chars().collect()
}

#[test]
fn chars_of_and_string_of_are_inverse() {
    assert_eq!(chars_of("a日b"), vec!['a', '日', 'b']);
    assert_eq!(chars_of(""), Vec::<char>::new());
    assert_eq!(string_of(&vec!['a', '日', 'b']), "a日b");
    assert_eq!(string_of(&Vec::new()), "");
}

#[test]
fn slice_string_counts_characters() {
    assert_eq!(slice_string("日本語のテキスト", 2, 5), "語のテ");
    assert_eq!(slice_string("abc", 0, 3), "abc");
    assert_eq!(slice_string("abc", 1, 1), "");
}

#[test]
fn white_space_is_what_the_standard_library_calls_so() {
    for code in 0..0x11_0000u32 {
        if let Some(c) = char::from_u32(code) {
            assert_eq!(check_space(c), c.is_whitespace(), "U+{:04X}", code);
        }
    }
}

#[test]
fn digits_are_the_ten_ascii_digits() {
    for code in 0..0x11_0000u32 {
        if let Some(c) = char::from_u32(code) {
            assert_eq!(check_digit(c), c.is_ascii_digit(), "U+{:04X}", code);
        }
    }
}

#[test]
fn runs_are_counted_from_the_position() {
    let text = chars("12a  \t345 ");
    assert_eq!(count_digits(&text, 0), 2);
    assert_eq!(count_digits(&text, 1), 1);
    assert_eq!(count_digits(&text, 2), 0);
    assert_eq!(count_digits(&text, 6), 3);
    assert_eq!(count_digits(&text, 10), 0);
    assert_eq!(count_spaces(&text, 3), 3);
    assert_eq!(count_spaces(&text, 0), 0);
    assert_eq!(count_spaces(&text, 9), 1);
    assert_eq!(count_spaces_back(&text, 10), 1);
    assert_eq!(count_spaces_back(&text, 6), 3);
    assert_eq!(count_spaces_back(&text, 9), 0);
    assert_eq!(count_spaces_back(&text, 0), 0);
}

#[test]
fn trim_bounds_leave_out_the_white_space_at_the_ends() {
    let text = chars("  ab c \t");
    assert_eq!(trim_bounds(&text, 0, 8), (2, 6));
    assert_eq!(trim_bounds(&text, 3, 8), (3, 6));
    assert_eq!(trim_bounds(&text, 4, 5), (5, 5));
    assert_eq!(trim_bounds(&text, 6, 8), (8, 8));
    assert_eq!(trim_bounds(&text, 0, 0), (0, 0));
    assert_eq!(trim_bounds(&text, 2, 6), (2, 6));
    for s in ["", " ", "a", " a", "a ", "  a b  ", "\u{3000}x\u{a0}", "\t\n"] {
        let text = chars(s);
        let (from, to) = trim_bounds(&text, 0, text.len());
        let trimmed: String = text[from..to].iter().collect();
        assert_eq!(trimmed, s.trim());
    }
}

#[test]
fn scan_number_takes_a_whole_run_of_the_right_length() {
    let text = chars("2026/03/5x");
    assert_eq!(scan_number(&text, 0, 4, 4), Some((2026, 4)));
    assert_eq!(scan_number(&text, 0, 1, 2), None);
    assert_eq!(scan_number(&text, 0, 1, 9), Some((2026, 4)));
    assert_eq!(scan_number(&text, 5, 1, 2), Some((3, 7)));
    assert_eq!(scan_number(&text, 8, 1, 2), Some((5, 9)));
    assert_eq!(scan_number(&text, 8, 2, 2), None);
    assert_eq!(scan_number(&text, 4, 1, 2), None);
    assert_eq!(scan_number(&text, 10, 1, 2), None);
    assert_eq!(scan_number(&text, 10, 0, 2), Some((0, 10)));
    assert_eq!(scan_number(&chars("999999999"), 0, 1, 9), Some((999_999_999, 9)));
    assert_eq!(scan_number(&chars("0000000000"), 0, 1, 9), None);
}

#[test]
fn scan_char_and_spaces() {
    let text = chars("a \t-b");
    assert_eq!(scan_char(&text, 0, 'a'), Some(1));
    assert_eq!(scan_char(&text, 0, 'b'), None);
    assert_eq!(scan_char(&text, 5, 'b'), None);
    assert_eq!(scan_space(&text, 1), Some(2));
    assert_eq!(scan_space(&text, 0), None);
    assert_eq!(scan_space(&text, 5), None);
    assert_eq!(scan_spaces(&text, 1), Some(3));
    assert_eq!(scan_spaces(&text, 2), Some(3));
    assert_eq!(scan_spaces(&text, 3), None);
}
