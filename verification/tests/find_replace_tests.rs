use lattice::find_replace::{case_insensitive_replace, find_from, replace_matches, try_case_insensitive_replace};

#[test]
fn replaces_ignoring_case() {
    assert_eq!(case_insensitive_replace("Hello World hello", "HELLO", "Hi"), "Hi World Hi");
    assert_eq!(case_insensitive_replace("aAaA", "a", "b"), "bbbb");
}

#[test]
fn text_without_match_is_unchanged() {
    assert_eq!(case_insensitive_replace("abc", "x", "y"), "abc");
    assert_eq!(case_insensitive_replace("", "x", "y"), "");
}

#[test]
fn matches_do_not_overlap() {
    assert_eq!(case_insensitive_replace("AAAA", "aa", "b"), "bb");
    assert_eq!(case_insensitive_replace("aaa", "AA", "b"), "ba");
}

#[test]
fn empty_needle_matches_between_characters() {
    assert_eq!(case_insensitive_replace("ab", "", "-"), "-a-b-");
}

#[test]
fn accented_letters_keep_their_length() {
    assert_eq!(case_insensitive_replace("ÉCOLE école", "école", "X"), "X X");
}

#[test]
fn lowercase_that_grows_the_text_cannot_be_cut() {
    // 'İ' lowercases to two characters, so the offsets no longer fit the text.
    assert_eq!(try_case_insensitive_replace("İx", "x", "y"), None);
    assert_eq!(try_case_insensitive_replace("Ab", "B", "c"), Some("Ac".to_string()));
}

#[test]
fn replace_matches_uses_the_given_forms() {
    assert_eq!(replace_matches("ABC", "abc", "b", 1, "-"), Some("A-C".to_string()));
    assert_eq!(replace_matches("ABC", "abc", "z", 1, "-"), Some("ABC".to_string()));
    // A resume point past the end of the text cannot be cut.
    assert_eq!(replace_matches("ABC", "abc", "c", 5, "-"), None);
}

#[test]
fn search_starts_at_a_character() {
    assert_eq!(find_from("xaxa", b"a", 0), Some(1));
    assert_eq!(find_from("xaxa", b"a", 2), Some(3));
    assert_eq!(find_from("xaxa", b"a", 4), None);
    assert_eq!(find_from("é", b"", 1), Some(2));
}
