use pet_repair::text::{
    chars_equal, chars_of, contains_str, copy_range, eq_ignore_ascii_case, find, index_of_or_len,
    is_whitespace, lower_char, lowered, occurs_at, push_decimal, push_hex8, push_padded, str_eq,
    string_of, trimmed, with_number,
};

#[test]
fn text_helpers() {
    assert!(str_eq("修复", "修复"));
    assert!(!str_eq("a", "ab"));
    assert_eq!(trimmed("\t go \u{3000}\n"), "go");
    assert_eq!(trimmed("   "), "");
    assert!(eq_ignore_ascii_case("ChatGPT.EXE", "chatgpt.exe"));
    assert!(!eq_ignore_ascii_case("É", "é"));
    assert_eq!(with_number("n=", 0), "n=0");
    assert_eq!(with_number("n=", 1234567890123), "n=1234567890123");
}

#[test]
fn character_helpers() {
    assert!(is_whitespace('\u{3000}'));
    assert!(!is_whitespace('x'));
    assert_eq!(lower_char('Q'), 'q');
    assert_eq!(lower_char('É'), 'É');
    assert_eq!(lowered("AbC宠"), vec!['a', 'b', 'c', '宠']);
    let chars = chars_of("宠物 · 修复");
    assert_eq!(chars.len(), 7);
    assert!(occurs_at(&chars, " · ", 2));
    assert!(!occurs_at(&chars, " · ", 3));
    assert_eq!(find(&chars, " · ", 0), Some(2));
    assert_eq!(find(&chars, " · ", 3), None);
    assert_eq!(string_of(&chars, 5, 7), "修复");
    assert_eq!(copy_range(&chars, 0, 2), vec!['宠', '物']);
    assert_eq!(index_of_or_len(&chars, '·'), 3);
    assert_eq!(index_of_or_len(&chars, 'z'), 7);
    assert!(chars_equal(&['g', 'o'], "go"));
    assert!(!chars_equal(&['g'], "go"));
    assert!(contains_str("a\\windowsapps\\b", "\\windowsapps\\"));
    assert!(!contains_str("abc", "abd"));
}

#[test]
fn number_formatting() {
    let mut s = String::from("x");
    push_decimal(&mut s, 0);
    push_decimal(&mut s, 907);
    assert_eq!(s, "x0907");
    let mut h = String::new();
    push_hex8(&mut h, 0x80088);
    push_hex8(&mut h, 0xDEADBEEF);
    assert_eq!(h, "00080088DEADBEEF");
    let mut p = String::new();
    push_padded(&mut p, 42, 4);
    push_padded(&mut p, 12345, 2);
    assert_eq!(p, "004212345");
}
