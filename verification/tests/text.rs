use prompts_cli::text::{contains_all, contains_text, copy_texts, rank, same_text, texts_of, Rank};

#[test]
fn rank_orders_as_str_does() {
    let samples = ["", "a", "ab", "abc", "b", "B", "tag1", "tag2", "tag10", "é", "z", "中", "a\u{0}"];
    for a in samples {
        for b in samples {
            let expected = if a < b {
                Rank::Before
            } else if a == b {
                Rank::Same
            } else {
                Rank::After
            };
            assert_eq!(rank(a, b), expected);
        }
    }
}

#[test]
fn a_prefix_comes_before_the_longer_text() {
    assert_eq!(rank("tag", "tag1"), Rank::Before);
    assert_eq!(rank("tag1", "tag"), Rank::After);
    assert_eq!(rank("", ""), Rank::Same);
}

#[test]
fn same_text_compares_content() {
    assert!(same_text("json", "json"));
    assert!(!same_text("json", "jsom"));
    assert!(!same_text("json", "jso"));
    assert!(!same_text("", "a"));
    assert!(same_text("", ""));
}

#[test]
fn contains_text_finds_exact_texts_only() {
    let list = vec!["tag1".to_string(), "tag2".to_string()];
    assert!(contains_text(&list, "tag1"));
    assert!(contains_text(&list, "tag2"));
    assert!(!contains_text(&list, "tag"));
    assert!(!contains_text(&list, "TAG1"));
    assert!(!contains_text(&[], "tag1"));
}

#[test]
fn contains_all_asks_for_each() {
    let list = vec!["a".to_string(), "b".to_string(), "c".to_string()];
    assert!(contains_all(&list, &[]));
    assert!(contains_all(&list, &["c".to_string(), "a".to_string()]));
    assert!(!contains_all(&list, &["a".to_string(), "d".to_string()]));
    assert!(!contains_all(&[], &["a".to_string()]));
    assert!(contains_all(&[], &[]));
}

#[test]
fn copies_hold_the_same_texts() {
    let list = vec!["x".to_string(), "".to_string(), "y".to_string()];
    assert_eq!(copy_texts(&list), list);
    assert_eq!(texts_of(&list), &list[..]);
    assert_eq!(copy_texts(&[]).len(), 0);
}
