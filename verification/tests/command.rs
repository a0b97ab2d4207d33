use prompts_cli::command::{list_line, only_match, parse_key_val, short_hash};
use prompts_cli::Prompt;

#[test]
fn key_and_value_are_split_at_the_first_equals() {
    assert_eq!(parse_key_val("name=World"), Ok(("name".to_string(), "World".to_string())));
    assert_eq!(parse_key_val("a=b=c"), Ok(("a".to_string(), "b=c".to_string())));
    assert_eq!(parse_key_val("=value"), Ok(("".to_string(), "value".to_string())));
    assert_eq!(parse_key_val("key="), Ok(("key".to_string(), "".to_string())));
    assert_eq!(parse_key_val("="), Ok(("".to_string(), "".to_string())));
    assert_eq!(parse_key_val("clé=valeur é"), Ok(("clé".to_string(), "valeur é".to_string())));
}

#[test]
fn a_text_without_equals_is_an_error() {
    assert_eq!(
        parse_key_val("name"),
        Err("invalid KEY=VALUE: no '=' found in `name`".to_string())
    );
    assert_eq!(parse_key_val(""), Err("invalid KEY=VALUE: no '=' found in ``".to_string()));
}

#[test]
fn only_one_match_is_a_match() {
    let one = vec![Prompt::new("a", None, None)];
    let two = vec![Prompt::new("a", None, None), Prompt::new("b", None, None)];
    assert_eq!(only_match(&one), Some(&one[0]));
    assert_eq!(only_match(&two), None);
    assert_eq!(only_match(&[]), None);
}

#[test]
fn the_short_hash_is_the_first_twelve_characters_of_a_digest() {
    let prompt = Prompt::new("test content", None, None);
    assert_eq!(short_hash(&prompt.hash), "6ae8a7555520");
    assert_eq!(short_hash("0123456789ab"), "0123456789ab");
    assert_eq!(short_hash("0123456789abc"), "0123456789ab");
}

#[test]
fn the_short_hash_counts_bytes() {
    assert_eq!(short_hash("éééééé"), "éééééé");
    assert_eq!(short_hash("ééééééxyz"), "éééééé");
}

#[test]
fn a_line_of_the_list() {
    let prompt = Prompt::new("Config test prompt content", None, None);
    let line = list_line(&prompt);
    assert_eq!(line, format!("{} - Config test prompt content", &prompt.hash[..12]));
    let prompt = Prompt::new("test content", None, None);
    assert_eq!(list_line(&prompt), "6ae8a7555520 - test content");
}
