use ghd::text::{
    chars_of, decimal_string, digit_value, ends_with, find_last, followed_by, same_text,
};

#[test]
fn chars_of_keeps_every_character_in_order() {
    assert_eq!(chars_of("a/é.z"), vec!['a', '/', 'é', '.', 'z']);
    assert_eq!(chars_of(""), Vec::<char>::new());
}

#[test]
fn ends_with_accepts_a_true_suffix() {
    assert!(ends_with("tool-linux-x64.tar.gz", "linux-x64.tar.gz"));
    assert!(ends_with("tool", "tool"));
    assert!(ends_with("tool", ""));
    assert!(ends_with("", ""));
}

#[test]
fn ends_with_rejects_everything_else() {
    assert!(!ends_with("tool-darwin-x64.tar.gz", "linux-x64.tar.gz"));
    assert!(!ends_with("gz", "tar.gz"));
    assert!(!ends_with("", "x"));
    assert!(!ends_with("tool.tar.gz", "tool"));
}

#[test]
fn ends_with_compares_characters_not_bytes() {
    assert!(ends_with("naïve-é", "ve-é"));
    assert!(!ends_with("naive-e", "ve-é"));
}

#[test]
fn same_text_is_equality() {
    assert!(same_text("zip", "zip"));
    assert!(same_text("", ""));
    assert!(!same_text("zip", "Zip"));
    assert!(!same_text("zip", "zipp"));
    assert!(!same_text("gz", "zg"));
}

#[test]
fn concat_puts_the_second_behind_the_first() {
    assert_eq!(followed_by("Bearer ", "abc"), "Bearer abc");
    assert_eq!(followed_by("", "abc"), "abc");
    assert_eq!(followed_by("abc", ""), "abc");
}

#[test]
fn find_last_gives_the_last_occurrence() {
    let chars: Vec<char> = "a.b.c".chars().collect();
    assert_eq!(find_last(&chars, '.'), Some(3));
    assert_eq!(find_last(&chars, 'a'), Some(0));
    assert_eq!(find_last(&chars, '/'), None);
    assert_eq!(find_last(&Vec::new(), '.'), None);
}

#[test]
fn decimal_string_writes_base_ten() {
    assert_eq!(decimal_string(0), "0");
    assert_eq!(decimal_string(7), "7");
    assert_eq!(decimal_string(10), "10");
    assert_eq!(decimal_string(404), "404");
    assert_eq!(decimal_string(65535), "65535");
    assert_eq!(decimal_string(1234567890), "1234567890");
    assert_eq!(decimal_string(u64::MAX), "18446744073709551615");
}

#[test]
fn digit_value_knows_the_ten_digits() {
    assert_eq!(digit_value('0'), Some(0));
    assert_eq!(digit_value('5'), Some(5));
    assert_eq!(digit_value('9'), Some(9));
    assert_eq!(digit_value('a'), None);
    assert_eq!(digit_value(' '), None);
    assert_eq!(digit_value('\u{0663}'), None);
}
