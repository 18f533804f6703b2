use crystalline::order::{copy_texts, sort_texts, sort_unique_texts, text_le};
use crystalline::text::{
    char_ascii_lower, char_is_digit, char_is_white_space, chars_of, i64_text, join_path, same_text, string_of,
    text_ends_with, trim_text, u64_text, usize_text,
};

fn texts(items: &[&str]) -> Vec<String> {
    items.iter().map(|s| s.to_string()).collect()
}

#[test]
fn numbers_render_in_decimal() {
    assert_eq!(u64_text(0), "0");
    assert_eq!(u64_text(18446744073709551615), "18446744073709551615");
    assert_eq!(usize_text(42), "42");
    assert_eq!(i64_text(-9223372036854775808), "-9223372036854775808");
    assert_eq!(i64_text(-7), "-7");
    assert_eq!(i64_text(120), "120");
}

#[test]
fn characters_and_strings() {
    assert_eq!(chars_of("迪莫a"), vec!['迪', '莫', 'a']);
    assert_eq!(string_of(&['x', '光']), "x光");
    assert!(char_is_digit('7'));
    assert!(!char_is_digit('a'));
    assert_eq!(char_ascii_lower('Q'), 'q');
    assert_eq!(char_ascii_lower('迪'), '迪');
    assert!(char_is_white_space('\u{3000}'));
    assert!(!char_is_white_space('_'));
    assert_eq!(trim_text("\t a b \n"), "a b");
    assert_eq!(trim_text("   "), "");
    assert!(same_text("abc", "abc"));
    assert!(!same_text("abc", "abd"));
    assert!(text_ends_with("NO439_迪莫.png", "_迪莫.png"));
    assert!(!text_ends_with("png", "a.png"));
}

#[test]
fn paths_join_with_one_slash() {
    assert_eq!(join_path("a", "b"), "a/b");
    assert_eq!(join_path("a/", "b"), "a/b");
    assert_eq!(join_path("", "b"), "b");
}

#[test]
fn texts_sort_by_character_code() {
    assert!(text_le("Fire", "Water"));
    assert!(text_le("Fir", "Fire"));
    assert!(!text_le("b", "a"));
    assert!(text_le("Z", "a"));
    let values = texts(&["b", "a", "光", "a", "B"]);
    assert_eq!(sort_texts(&values), texts(&["B", "a", "a", "b", "光"]));
    assert_eq!(sort_unique_texts(&values), texts(&["B", "a", "b", "光"]));
    assert_eq!(copy_texts(&values), values);
}
