use cargo_bay::discover::{BinKind, Freshness, Prebuilt};
use cargo_bay::ordering::stable_sort;
use cargo_bay::text::{comes_before, contains_text, number, pad, same_text};
use cargo_bay::text_map::TextMap;
use std::path::PathBuf;

#[test]
fn texts_are_padded_by_characters() {
    assert_eq!(pad("ab", 4), "ab  ");
    assert_eq!(pad("abcd", 4), "abcd");
    assert_eq!(pad("abcde", 4), "abcde");
    assert_eq!(pad("é", 3), "é  ");
    assert_eq!(pad("", 2), "  ");
}

#[test]
fn numbers_are_decimal() {
    assert_eq!(number(0), "0");
    assert_eq!(number(7), "7");
    assert_eq!(number(10), "10");
    assert_eq!(number(90_210), "90210");
    assert_eq!(number(usize::MAX), usize::MAX.to_string());
}

#[test]
fn substrings_are_found_anywhere() {
    assert!(contains_text("cargo-bay", "cargo"));
    assert!(contains_text("cargo-bay", "bay"));
    assert!(contains_text("cargo-bay", "o-b"));
    assert!(contains_text("aab", "ab"));
    assert!(contains_text("abc", ""));
    assert!(contains_text("", ""));
    assert!(!contains_text("cargo-bay", "bays"));
    assert!(!contains_text("", "a"));
    assert!(!contains_text("abc", "ac"));
}

#[test]
fn texts_are_ordered_like_strings() {
    let all = ["", "A", "Z", "a", "a-b", "ab", "abc", "b", "é", "\u{ffff}", "\u{10000}"];
    for a in all {
        for b in all {
            assert_eq!(comes_before(a, b), a < b, "{a} {b}");
            assert_eq!(same_text(a, b), a == b, "{a} {b}");
        }
    }
}

#[test]
fn sorting_keeps_equal_keys_in_order() {
    let item = |kind, mtime| Prebuilt {
        kind,
        path: PathBuf::new(),
        freshness: Freshness::Fresh,
        mtime,
    };
    let sorted = stable_sort(vec![
        item(BinKind::Release, 1),
        item(BinKind::Debug, 2),
        item(BinKind::Installed, 1),
        item(BinKind::Release, 3),
        item(BinKind::Installed, 2),
    ]);
    let seen: Vec<(BinKind, i128)> = sorted.iter().map(|p| (p.kind, p.mtime)).collect();
    assert_eq!(
        seen,
        [
            (BinKind::Release, 3),
            (BinKind::Debug, 2),
            (BinKind::Installed, 2),
            (BinKind::Release, 1),
            (BinKind::Installed, 1),
        ]
    );
}

#[test]
fn a_map_holds_each_key_once() {
    let mut map = TextMap::new();
    assert_eq!(map.len(), 0);
    map.insert("a".to_string(), 1);
    map.insert("b".to_string(), 2);
    map.insert("a".to_string(), 3);
    assert_eq!(map.len(), 2);
    assert_eq!(map.get("a"), Some(&3));
    assert_eq!(map.position("b"), Some(1));
    assert_eq!(map.key_at(0), "a");
    assert_eq!(*map.value_at(1), 2);
    map.remove("a");
    map.remove("c");
    assert_eq!(map.len(), 1);
    assert_eq!(map.get("a"), None);
    assert_eq!(map.position("c"), None);
    assert_eq!(map.get("b"), Some(&2));
}
