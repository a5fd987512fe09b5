use lattice::data_ops::{cell_text_matches, dedup_rows, find_replace_cells, std_replace, try_find_replace_cells};

fn row(k: &[&str]) -> Vec<String> {
    k.iter().map(|s| s.to_string()).collect()
}

fn cells(v: &[(u32, u32, &str)]) -> Vec<(u32, u32, String)> {
    v.iter().map(|&(r, c, t)| (r, c, t.to_string())).collect()
}

#[test]
fn dedup_keeps_first_of_each_key() {
    let keys = vec![row(&["a", "1"]), row(&["b", "2"]), row(&["a", "1"]), row(&["c", "3"]), row(&["b", "2"])];
    assert_eq!(dedup_rows(&keys), vec![0, 1, 3]);
    assert_eq!(dedup_rows(&vec![]), Vec::<usize>::new());
    assert_eq!(dedup_rows(&vec![row(&["x"]), row(&["x"]), row(&["x"])]), vec![0]);
}

#[test]
fn dedup_keys_are_joined_with_nul() {
    // "a\0b" as one column and ("a", "b") as two join to the same key.
    let keys = vec![row(&["a\0b"]), row(&["a", "b"]), row(&["ab"])];
    assert_eq!(dedup_rows(&keys), vec![0, 2]);
}

#[test]
fn std_replace_matches_str_replace() {
    for (s, p, r) in [("aaa", "aa", "b"), ("hello world", "o", "0"), ("ab", "", "-"), ("", "", "x"), ("héé", "é", "e")] {
        assert_eq!(std_replace(s, p, r), s.replace(p, r));
    }
}

#[test]
fn matching_cells() {
    assert!(cell_text_matches("Hello", "ell", true));
    assert!(!cell_text_matches("Hello", "ELL", true));
    assert!(cell_text_matches("Hello", "ELL", false));
    assert!(!cell_text_matches("", "", true));
}

#[test]
fn find_only_lists_matches() {
    let c = cells(&[(0, 0, "apple"), (1, 0, "banana"), (2, 1, "Apple pie"), (3, 0, "")]);
    let r = find_replace_cells(&c, "apple", None, true);
    assert_eq!(r.matches, cells(&[(0, 0, "apple")]));
    assert!(r.replaced.is_empty());
    let r = find_replace_cells(&c, "apple", None, false);
    assert_eq!(r.matches, cells(&[(0, 0, "apple"), (2, 1, "Apple pie")]));
}

#[test]
fn find_and_replace() {
    let c = cells(&[(0, 0, "hello world"), (0, 1, "Hello"), (1, 0, "other")]);
    let r = find_replace_cells(&c, "hello", Some("bye"), true);
    assert_eq!(r.replaced, cells(&[(0, 0, "bye world")]));
    let r = find_replace_cells(&c, "hello", Some("bye"), false);
    assert_eq!(r.matches.len(), 2);
    assert_eq!(r.replaced, cells(&[(0, 0, "bye world"), (0, 1, "bye")]));
}

#[test]
fn uncuttable_case_insensitive_replacement() {
    let c = cells(&[(0, 0, "İx")]);
    assert!(try_find_replace_cells(&c, "x", Some("y"), false).is_none());
    assert!(try_find_replace_cells(&c, "x", None, false).is_some());
    assert_eq!(try_find_replace_cells(&c, "x", Some("y"), true).unwrap().replaced, cells(&[(0, 0, "İy")]));
}
