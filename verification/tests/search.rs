use prompts_cli::search::{accepts, has_all};
use prompts_cli::{search_prompts, Prompt};

#[test]
fn test_fuzzy_search_prompts() {
    let prompts = vec![
        Prompt {
            hash: "1".to_string(),
            content: "This is the first prompt.".to_string(),
            tags: Some(vec!["tagA".to_string(), "tagB".to_string()]),
            categories: Some(vec!["catX".to_string()]),
        },
        Prompt {
            hash: "2".to_string(),
            content: "Second prompt here.".to_string(),
            tags: Some(vec!["tagB".to_string(), "tagC".to_string()]),
            categories: Some(vec!["catY".to_string()]),
        },
        Prompt {
            hash: "3".to_string(),
            content: "A third one for testing.".to_string(),
            tags: Some(vec!["tagA".to_string()]),
            categories: Some(vec!["catX".to_string(), "catZ".to_string()]),
        },
    ];

    // Test fuzzy search by query
    let results = search_prompts(&prompts, "frst prmpt", &[], &[]);
    assert_eq!(results.len(), 1);
    assert_eq!(results[0].content, "This is the first prompt.");

    // Test fuzzy search with no good match
    let results = search_prompts(&prompts, "xyz", &[], &[]);
    assert_eq!(results.len(), 0);

    // Test search by tag
    let results = search_prompts(&prompts, "", &["tagC".to_string()], &[]);
    assert_eq!(results.len(), 1);
    assert_eq!(results[0].content, "Second prompt here.");

    // Test search by category and fuzzy query
    let results = search_prompts(&prompts, "thrd tst", &[], &["catX".to_string()]);
    assert_eq!(results.len(), 1);
    assert_eq!(results[0].content, "A third one for testing.");

    // Test filtering that results in no matches
    let results = search_prompts(&prompts, "", &["tagD".to_string()], &[]);
    assert_eq!(results.len(), 0);
}

fn sample() -> Vec<Prompt> {
    vec![
        Prompt {
            hash: "1".to_string(),
            content: "This is the first prompt.".to_string(),
            tags: Some(vec!["tagA".to_string(), "tagB".to_string()]),
            categories: Some(vec!["catX".to_string()]),
        },
        Prompt {
            hash: "2".to_string(),
            content: "Second prompt here.".to_string(),
            tags: Some(vec!["tagB".to_string(), "tagC".to_string()]),
            categories: Some(vec!["catY".to_string()]),
        },
        Prompt {
            hash: "3".to_string(),
            content: "A third one for testing.".to_string(),
            tags: None,
            categories: None,
        },
    ]
}

#[test]
fn empty_query_without_filters_finds_everything_in_order() {
    let prompts = sample();
    let results = search_prompts(&prompts, "", &[], &[]);
    assert_eq!(results, prompts);
}

#[test]
fn search_of_nothing_finds_nothing() {
    assert_eq!(search_prompts(&[], "", &[], &[]).len(), 0);
    assert_eq!(search_prompts(&[], "query", &["t".to_string()], &[]).len(), 0);
}

#[test]
fn tag_filter_asks_for_every_tag() {
    let prompts = sample();
    let both = search_prompts(&prompts, "", &["tagA".to_string(), "tagB".to_string()], &[]);
    assert_eq!(both.len(), 1);
    assert_eq!(both[0].hash, "1");
    let shared = search_prompts(&prompts, "", &["tagB".to_string()], &[]);
    assert_eq!(shared.len(), 2);
    assert_eq!(shared[0].hash, "1");
    assert_eq!(shared[1].hash, "2");
    let never = search_prompts(&prompts, "", &["tagA".to_string(), "tagC".to_string()], &[]);
    assert_eq!(never.len(), 0);
}

#[test]
fn a_prompt_without_tags_fails_every_tag_filter() {
    let prompts = sample();
    let results = search_prompts(&prompts, "third", &["tagA".to_string()], &[]);
    assert_eq!(results.len(), 0);
    let results = search_prompts(&prompts, "third", &[], &["catX".to_string()]);
    assert_eq!(results.len(), 0);
    let results = search_prompts(&prompts, "third", &[], &[]);
    assert_eq!(results.len(), 1);
}

#[test]
fn query_and_filters_must_all_hold() {
    let prompts = sample();
    let results = search_prompts(&prompts, "prompt", &["tagB".to_string()], &["catY".to_string()]);
    assert_eq!(results.len(), 1);
    assert_eq!(results[0].hash, "2");
    let results = search_prompts(&prompts, "first", &["tagB".to_string()], &["catY".to_string()]);
    assert_eq!(results.len(), 0);
}

#[test]
fn unmatched_query_finds_nothing() {
    let prompts = sample();
    assert_eq!(search_prompts(&prompts, "xyz", &[], &[]).len(), 0);
    assert_eq!(search_prompts(&prompts, "promptz", &[], &[]).len(), 0);
}

fn content(text: &str) -> Prompt {
    Prompt { hash: "h".to_string(), content: text.to_string(), tags: None, categories: None }
}

#[test]
fn query_matches_characters_in_order_with_gaps() {
    assert!(accepts(&content("axbycz"), "abc", &[], &[]));
    assert!(accepts(&content("axbycz"), "xyz", &[], &[]));
    assert!(!accepts(&content("axbycz"), "cba", &[], &[]));
    assert!(!accepts(&content("abc"), "abx", &[], &[]));
    assert!(!accepts(&content(""), "a", &[], &[]));
    assert!(accepts(&content(""), "", &[], &[]));
    assert!(accepts(&content("abc"), "abc", &[], &[]));
    assert!(!accepts(&content("abc"), "abcd", &[], &[]));
    assert!(!accepts(&content("aab"), "aaa", &[], &[]));
}

#[test]
fn case_counts_only_for_a_query_with_a_capital() {
    assert!(accepts(&content("Hello World"), "hello", &[], &[]));
    assert!(accepts(&content("Hello World"), "hw", &[], &[]));
    assert!(accepts(&content("Hello World"), "HW", &[], &[]));
    assert!(!accepts(&content("hello world"), "HW", &[], &[]));
    assert!(!accepts(&content("hello world"), "Hello", &[], &[]));
    assert!(accepts(&content("HELLO"), "hello", &[], &[]));
}

#[test]
fn only_ascii_letters_are_folded() {
    assert!(!accepts(&content("École"), "école", &[], &[]));
    assert!(accepts(&content("école"), "école", &[], &[]));
    assert!(!accepts(&content("abcdefaghi"), "中", &[], &[]));
}

#[test]
fn has_all_on_given_lists() {
    let have = Some(vec!["a".to_string(), "b".to_string()]);
    assert!(has_all(&have, &[]));
    assert!(has_all(&None, &[]));
    assert!(has_all(&have, &["a".to_string()]));
    assert!(has_all(&have, &["b".to_string(), "a".to_string()]));
    assert!(!has_all(&have, &["a".to_string(), "c".to_string()]));
    assert!(!has_all(&None, &["a".to_string()]));
    assert!(!has_all(&Some(vec![]), &["a".to_string()]));
}
