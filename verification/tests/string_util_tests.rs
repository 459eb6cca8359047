use mobdtimer::string_util::{prepend_if_missing, remove_trailing, split_into_two};

#[test]
fn returns_tuple_for_two_elements() {
    assert_eq!(
        split_into_two("tuv:wxy", ":"),
        ("tuv".to_string(), "wxy".to_string())
    );
}

#[test]
fn returns_tuple_with_null_2nd_when_split_string_not_found() {
    let (first, second) = split_into_two("abc", ":");

    assert_eq!(first, "abc");
    assert_eq!(second, "");
}

#[test]
fn returns_empty_tuple_when_string_empty() {
    let (first, second) = split_into_two("", ":");

    assert_eq!(first, "");
    assert_eq!(second, "");
}

#[test]
fn splits_at_the_first_of_several_occurrences() {
    assert_eq!(
        split_into_two("a:b:c", ":"),
        ("a".to_string(), "b:c".to_string())
    );
}

#[test]
fn splits_on_a_two_character_separator() {
    assert_eq!(
        split_into_two("https://example.org/x", "//"),
        ("https:".to_string(), "example.org/x".to_string())
    );
}

#[test]
fn returns_same_when_no_trailing_char() {
    assert_eq!(remove_trailing("abc", ':'), "abc");
}

#[test]
fn returns_trailing_char_when_exists() {
    assert_eq!(remove_trailing("abc:", ':'), "abc");
}

#[test]
fn removes_everything_after_the_first_occurrence() {
    assert_eq!(remove_trailing("ab:cd:ef", ':'), "ab");
}

#[test]
fn returns_same_when_char_in_first_position() {
    assert_eq!(prepend_if_missing("/abc", "/"), "/abc");
}

#[test]
fn prepends_char_when_not_exists_in_first_position() {
    assert_eq!(prepend_if_missing("abc", "/"), "/abc");
}
