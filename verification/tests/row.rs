use prompts_cli::row::{from_row, to_row, PromptRow};
use prompts_cli::{AppError, Prompt};

#[test]
fn a_row_holds_tags_and_categories_as_json_arrays() {
    let prompt = Prompt::new("test content", Some(vec!["tag1".to_string()]), None);
    let row = to_row(&prompt).unwrap();
    assert_eq!(row.content, "test content");
    assert_eq!(row.tags, "[\"tag1\"]");
    assert_eq!(row.categories, "[]");
    assert_eq!(row.hash, prompt.hash);
}

#[test]
fn texts_are_escaped_in_a_row() {
    let prompt = Prompt::new(
        "c",
        Some(vec!["a\"b".to_string(), "é".to_string()]),
        Some(vec!["x".to_string(), "y".to_string()]),
    );
    let row = to_row(&prompt).unwrap();
    assert_eq!(row.tags, "[\"a\\\"b\",\"é\"]");
    assert_eq!(row.categories, "[\"x\",\"y\"]");
}

#[test]
fn a_row_gives_its_prompt_back() {
    let prompt = Prompt::new(
        "test content",
        Some(vec!["tag1".to_string(), "tag2".to_string()]),
        Some(vec!["cat1".to_string()]),
    );
    let row = to_row(&prompt).unwrap();
    assert_eq!(from_row(&row).unwrap(), prompt);
}

#[test]
fn a_prompt_without_tags_comes_back_with_an_empty_list() {
    let prompt = Prompt::new("bare", None, None);
    let back = from_row(&to_row(&prompt).unwrap()).unwrap();
    assert_eq!(back.content, "bare");
    assert_eq!(back.hash, prompt.hash);
    assert_eq!(back.tags, Some(vec![]));
    assert_eq!(back.categories, Some(vec![]));
}

fn row(tags: &str, categories: &str) -> PromptRow {
    PromptRow {
        hash: "h".to_string(),
        content: "c".to_string(),
        tags: tags.to_string(),
        categories: categories.to_string(),
    }
}

#[test]
fn null_in_a_row_is_no_list() {
    let prompt = from_row(&row("null", "[\"a\"]")).unwrap();
    assert_eq!(prompt.tags, None);
    assert_eq!(prompt.categories, Some(vec!["a".to_string()]));
    assert_eq!(prompt.hash, "h");
    assert_eq!(prompt.content, "c");
}

#[test]
fn a_row_that_cannot_be_read_is_a_json_error() {
    for (tags, categories) in [("not json", "[]"), ("[]", "{"), ("[1]", "[]"), ("", "[]"), ("[]", "\"a\"")] {
        match from_row(&row(tags, categories)) {
            Err(AppError::Json(detail)) => assert!(!detail.is_empty()),
            other => panic!("unexpected outcome {:?}", other),
        }
    }
}

#[test]
fn every_list_of_texts_has_a_row() {
    let odd = vec![
        "".to_string(),
        "\u{0}\u{1f}\n\t\\\"".to_string(),
        "\u{7f}\u{80}é中\u{10ffff}".to_string(),
        "[\"nested\"]".to_string(),
    ];
    let prompt = Prompt::new("c", Some(odd.clone()), Some(vec![]));
    let row = to_row(&prompt).unwrap();
    assert_eq!(row.categories, "[]");
    assert_eq!(from_row(&row).unwrap().tags, Some(odd));
    let long = vec!["x".repeat(100_000); 8];
    let prompt = Prompt::new("c", None, Some(long.clone()));
    let row = to_row(&prompt).unwrap();
    assert_eq!(row.tags, "[]");
    assert_eq!(from_row(&row).unwrap().categories, Some(long));
}
