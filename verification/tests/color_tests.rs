use stickies::color::{checked_color, is_hex_char, is_valid_color};

#[test]
fn colours_are_hash_and_three_or_six_hex_digits() {
    for ok in ["#abc", "#ABC", "#012345", "#a1B2c3"] {
        assert!(is_valid_color(ok));
    }
    for bad in ["", "#", "abc", "#ab", "#abcd", "#abcde", "#abcdefa", "#ggg", "##abc", "#ab\u{e9}"] {
        assert!(!is_valid_color(bad));
    }
    assert!(is_hex_char('f') && is_hex_char('F') && is_hex_char('9'));
    assert!(!is_hex_char('g') && !is_hex_char('#'));
}

#[test]
fn checked_colour_is_trimmed() {
    assert_eq!(checked_color("\t#d21f1f \n"), Some("#d21f1f".to_string()));
    assert_eq!(checked_color(" # d21f1f"), None);
    assert_eq!(checked_color("   "), None);
}
