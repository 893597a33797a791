use lineark::text::{eq_ignore_ascii_case, join_strings, text_less};

#[test]
fn eq_ignore_ascii_case_folds_ascii_letters() {
    assert!(eq_ignore_ascii_case("ENG", "eng"));
    assert!(eq_ignore_ascii_case("Hello-World", "hELLO-wORLD"));
    assert!(!eq_ignore_ascii_case("eng", "engg"));
    assert!(!eq_ignore_ascii_case("É", "é"));
}

#[test]
fn join_strings_separates_parts() {
    let parts = vec!["a".to_string(), "b".to_string(), "c".to_string()];
    assert_eq!(join_strings(&parts, ", "), "a, b, c");
    assert_eq!(join_strings(&Vec::new(), ", "), "");
}

#[test]
fn text_less_is_str_order() {
    assert!(text_less("abc", "abd"));
    assert!(text_less("ab", "abc"));
    assert!(!text_less("abc", "abc"));
    assert!(!text_less("b", "abc"));
    assert!(text_less("Z", "a"));
}
