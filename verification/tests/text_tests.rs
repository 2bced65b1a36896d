use stickies::text::{
    has_char, has_prefix, has_suffix, has_text, is_blank, join_from, same_text, split_on_char,
    split_words, trim_str,
};

#[test]
fn trim_removes_unicode_white_space_at_both_ends() {
    assert_eq!(trim_str("  \t hello world \n"), "hello world");
    assert_eq!(trim_str("\u{3000}x\u{a0}"), "x");
    assert_eq!(trim_str("   "), "");
    assert_eq!(trim_str(""), "");
    assert_eq!(trim_str("a b"), "a b");
}

#[test]
fn trim_agrees_with_std() {
    for s in ["", " ", " a ", "\u{2028}b\u{205f}", "x\u{200b}", "\u{85}c\u{1680}"] {
        assert_eq!(trim_str(s), s.trim());
    }
}

#[test]
fn trim_twice_is_trim_once() {
    for s in ["  a  ", "\t\n", "x", " \u{3000} y z \u{3000} "] {
        assert_eq!(trim_str(trim_str(s)), trim_str(s));
    }
}

#[test]
fn blank_means_only_white_space() {
    assert!(is_blank(""));
    assert!(is_blank(" \t\r\n"));
    assert!(!is_blank(" {} "));
}

#[test]
fn words_split_like_split_whitespace() {
    let s = "  nvim  -u\tNONE \n --clean ";
    let w = split_words(s);
    let expect: Vec<String> = s.split_whitespace().map(|x| x.to_string()).collect();
    assert_eq!(w, expect);
    assert!(split_words("   ").is_empty());
    assert_eq!(split_words("vim"), vec!["vim".to_string()]);
}

#[test]
fn split_on_colon_keeps_empty_pieces() {
    assert_eq!(split_on_char("/bin::/usr/bin:", ':'), vec!["/bin", "", "/usr/bin", ""]);
    assert_eq!(split_on_char("", ':'), vec![""]);
    assert_eq!(split_on_char("a", ':'), vec!["a"]);
}

#[test]
fn join_from_index() {
    let ws = vec!["a".to_string(), "b".to_string(), "c".to_string()];
    assert_eq!(join_from(&ws, 1, " "), "b c");
    assert_eq!(join_from(&ws, 0, ", "), "a, b, c");
    assert_eq!(join_from(&ws, 3, " "), "");
}

#[test]
fn prefix_suffix_and_containment() {
    assert!(has_prefix("edit-1.md", "edit-"));
    assert!(!has_prefix("edi", "edit-"));
    assert!(has_suffix("edit-1.md", ".md"));
    assert!(!has_suffix("edit-1.mdx", ".md"));
    assert!(has_text("/usr/bin/gnome-terminal", "gnome-terminal"));
    assert!(!has_text("gnome", "gnome-terminal"));
    assert!(has_text("abc", ""));
    assert!(has_char("a/b", '/'));
    assert!(!has_char("ab", '/'));
    assert!(same_text("x", "x"));
    assert!(!same_text("x", "y"));
}
