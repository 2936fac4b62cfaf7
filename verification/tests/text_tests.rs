use veea::text::chars_vec;
use veea::text::contains_chars;
use veea::text::normalized;
use veea::text::pad2;
use veea::text::pad4;
use veea::text::str_eq;
use veea::text::title_excluded;
use veea::text::u32_string;

#[test]
fn normalized_replaces_reserved_characters() {
    assert_eq!(normalized("a|b\\c:d/e<f>g\"h?i*j"), "a_b_c_d_e_f_g_h_i_j");
}

#[test]
fn normalized_keeps_clean_titles() {
    assert_eq!(normalized("Meeting Notes 2024"), "Meeting Notes 2024");
    assert_eq!(normalized(""), "");
}

#[test]
fn decimal_formatting_is_zero_padded() {
    assert_eq!(pad2(3), "03");
    assert_eq!(pad2(12), "12");
    assert_eq!(pad4(7), "0007");
    assert_eq!(pad4(2024), "2024");
    assert_eq!(u32_string(0), "0");
    assert_eq!(u32_string(7), "7");
    assert_eq!(u32_string(120), "120");
    assert_eq!(u32_string(4294967295), "4294967295");
}

#[test]
fn string_equality_by_characters() {
    assert!(str_eq("focus", "focus"));
    assert!(!str_eq("focus", "title"));
    assert!(!str_eq("ab", "abc"));
    assert!(str_eq("", ""));
}

#[test]
fn substring_search_finds_needles() {
    let hay = chars_vec("the quick brown fox");
    assert!(contains_chars(&hay, &chars_vec("quick")));
    assert!(contains_chars(&hay, &chars_vec("fox")));
    assert!(contains_chars(&hay, &chars_vec("the")));
    assert!(contains_chars(&hay, &chars_vec("")));
    assert!(!contains_chars(&hay, &chars_vec("wolf")));
    assert!(!contains_chars(&chars_vec("ab"), &chars_vec("abc")));
}

#[test]
fn exclusion_matching_is_case_insensitive() {
    let excludes = vec!["secret".to_string(), "Bank".to_string()];
    assert!(title_excluded("My SECRET Meeting", &excludes));
    assert!(title_excluded("online BANKING portal", &excludes));
    assert!(!title_excluded("ordinary window", &excludes));
    assert!(!title_excluded("ordinary window", &Vec::new()));
}
