use prompts_cli::named::{accepts_named, contains_chars, finds, search_named_prompts, NamedPrompt};

fn texts(items: &[&str]) -> Vec<String> {
    items.iter().map(|s| s.to_string()).collect()
}

fn named(name: &str, text: &str, tags: &[&str], categories: &[&str]) -> NamedPrompt {
    NamedPrompt {
        name: name.to_string(),
        text: text.to_string(),
        tags: texts(tags),
        categories: texts(categories),
    }
}

fn sample() -> Vec<NamedPrompt> {
    vec![
        named("Prompt One", "This is the first prompt.", &["tagA", "tagB"], &["catX"]),
        named("Prompt Two", "Second prompt here.", &["tagB", "tagC"], &["catY"]),
        named("Another Prompt", "A third one for testing.", &["tagA"], &["catX", "catZ"]),
    ]
}

fn names(found: &[NamedPrompt]) -> Vec<String> {
    found.iter().map(|p| p.name.clone()).collect()
}

#[test]
fn search_by_a_word_of_the_text() {
    let found = search_named_prompts(&sample(), "first", &[], &[]);
    assert_eq!(names(&found), texts(&["Prompt One"]));
}

#[test]
fn search_by_a_tag() {
    let found = search_named_prompts(&sample(), "", &texts(&["tagC"]), &[]);
    assert_eq!(names(&found), texts(&["Prompt Two"]));
}

#[test]
fn search_by_a_category_and_a_word() {
    let found = search_named_prompts(&sample(), "third", &[], &texts(&["catX"]));
    assert_eq!(names(&found), texts(&["Another Prompt"]));
}

#[test]
fn an_empty_query_without_filters_finds_all_in_order() {
    let prompts = sample();
    assert_eq!(search_named_prompts(&prompts, "", &[], &[]), prompts);
    assert_eq!(search_named_prompts(&[], "", &[], &[]).len(), 0);
}

#[test]
fn the_query_is_looked_for_in_name_and_text_without_regard_to_case() {
    let prompts = sample();
    assert_eq!(names(&search_named_prompts(&prompts, "PROMPT", &[], &[])).len(), 3);
    assert_eq!(names(&search_named_prompts(&prompts, "another", &[], &[])), texts(&["Another Prompt"]));
    assert_eq!(names(&search_named_prompts(&prompts, "SECOND prompt", &[], &[])), texts(&["Prompt Two"]));
    assert_eq!(names(&search_named_prompts(&prompts, "t o", &[], &[])), texts(&["Prompt One"]));
    assert_eq!(search_named_prompts(&prompts, "frst", &[], &[]).len(), 0);
    assert_eq!(search_named_prompts(&prompts, "xyz", &[], &[]).len(), 0);
    let odd = vec![named("ÉCOLE", "Straße", &[], &[])];
    assert_eq!(search_named_prompts(&odd, "école", &[], &[]).len(), 1);
    assert_eq!(search_named_prompts(&odd, "STRASSE", &[], &[]).len(), 0);
    assert_eq!(search_named_prompts(&odd, "aße", &[], &[]).len(), 1);
}

#[test]
fn every_tag_and_every_category_is_asked_for() {
    let prompts = sample();
    assert_eq!(names(&search_named_prompts(&prompts, "", &texts(&["tagA", "tagB"]), &[])), texts(&["Prompt One"]));
    assert_eq!(names(&search_named_prompts(&prompts, "", &texts(&["tagB"]), &[])).len(), 2);
    assert_eq!(search_named_prompts(&prompts, "", &texts(&["tagA", "tagC"]), &[]).len(), 0);
    assert_eq!(search_named_prompts(&prompts, "", &texts(&["tagA"]), &texts(&["catZ"])).len(), 1);
    assert_eq!(search_named_prompts(&prompts, "first", &texts(&["tagC"]), &[]).len(), 0);
    assert!(accepts_named(&prompts[0], "one", &texts(&["tagB"]), &texts(&["catX"])));
    assert!(!accepts_named(&prompts[0], "one", &texts(&["tagB"]), &texts(&["catY"])));
}

#[test]
fn finds_takes_the_lower_case_as_given() {
    assert!(finds("name", "text", "", "anything"));
    assert!(finds("name", "text", "AM", "am"));
    assert!(finds("name", "text", "EX", "ex"));
    assert!(!finds("name", "text", "AM", "AM"));
    assert!(!finds("", "", "a", "a"));
}

#[test]
fn parts_of_a_sequence_of_characters() {
    let chars = |s: &str| s.chars().collect::<Vec<char>>();
    for (hay, needle) in [("", ""), ("abc", ""), ("abc", "a"), ("abc", "c"), ("abc", "bc"), ("abc", "abc"),
        ("abc", "abcd"), ("abc", "ac"), ("", "a"), ("aab", "ab"), ("abab", "bab"), ("éé", "é"), ("ab", "ba")] {
        assert_eq!(contains_chars(&chars(hay), &chars(needle)), hay.contains(needle), "{} {}", hay, needle);
    }
}
