use sshfm::listing::{lex_le_str, sort_entries, DirEntry};

fn entry(name: &str, is_dir: bool) -> DirEntry {
    DirEntry { name: name.to_string(), is_dir }
}

fn pairs(v: Vec<DirEntry>) -> Vec<(String, bool)> {
    v.into_iter().map(|e| (e.name, e.is_dir)).collect()
}

#[test]
fn directories_come_before_files() {
    let sorted = pairs(sort_entries(vec![
        entry("notes.txt", false),
        entry("src", true),
        entry("Makefile", false),
        entry("docs", true),
    ]));
    assert_eq!(
        sorted,
        vec![
            ("docs".to_string(), true),
            ("src".to_string(), true),
            ("Makefile".to_string(), false),
            ("notes.txt".to_string(), false),
        ]
    );
}

#[test]
fn names_sort_by_codepoint_within_a_group() {
    // uppercase letters come before lowercase in codepoint order
    let sorted = pairs(sort_entries(vec![
        entry("a.txt", false),
        entry("Z.txt", false),
        entry("A.txt", false),
        entry("z.txt", false),
    ]));
    assert_eq!(
        sorted,
        vec![
            ("A.txt".to_string(), false),
            ("Z.txt".to_string(), false),
            ("a.txt".to_string(), false),
            ("z.txt".to_string(), false),
        ]
    );
}

#[test]
fn a_prefix_comes_before_its_extensions() {
    let sorted = pairs(sort_entries(vec![
        entry("ab", false),
        entry("a", false),
        entry("abc", false),
    ]));
    assert_eq!(
        sorted,
        vec![
            ("a".to_string(), false),
            ("ab".to_string(), false),
            ("abc".to_string(), false),
        ]
    );
}

#[test]
fn duplicate_entries_are_kept() {
    let sorted = pairs(sort_entries(vec![
        entry("same", false),
        entry("same", true),
        entry("same", false),
    ]));
    assert_eq!(
        sorted,
        vec![
            ("same".to_string(), true),
            ("same".to_string(), false),
            ("same".to_string(), false),
        ]
    );
}

#[test]
fn empty_listing_sorts_to_empty() {
    assert!(sort_entries(Vec::new()).is_empty());
}

#[test]
fn lexicographic_order_on_names() {
    assert!(lex_le_str("abc", "abd"));
    assert!(!lex_le_str("abd", "abc"));
    assert!(lex_le_str("", "a"));
    assert!(!lex_le_str("a", ""));
    assert!(lex_le_str("same", "same"));
    assert!(lex_le_str("A", "a"));
}
