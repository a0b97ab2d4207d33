//! A prompt as a row of the table of an SQL store: the identifier and the
//! content as they are, the tags and the categories as JSON arrays.

use crate::edit::values_of;
use crate::error::AppError;
use crate::prompt::{Prompt, PromptView};
use crate::text::texts_of;
use vstd::prelude::*;
use vstd::string::*;

verus! {

/// The error of an encoding or a decoding, as `serde_json` reports it.
#[verifier::external_type_specification]
#[verifier::external_body]
pub struct ExJsonError(serde_json::Error);

/// The JSON text that `serde_json` writes for a list of strings.
pub uninterp spec fn json_of_texts(texts: Seq<Seq<char>>) -> Seq<char>;

/// What `serde_json` reads out of a text as an optional list of strings:
/// nothing where the text is not one.
pub uninterp spec fn texts_of_json(json: Seq<char>) -> Option<Option<Seq<Seq<char>>>>;

/// Calls `serde_json::to_string` on a slice of strings. Claimed: it succeeds,
/// and the text depends on the strings alone. Its documentation names two
/// causes of failure, an implementation of `Serialize` that fails and a map
/// whose keys are not strings; a slice of strings has neither, and the text
/// is written into a vector, which takes every write.
#[verifier::external_body]
fn encode_texts(texts: &[String]) -> (outcome: Result<String, serde_json::Error>)
    ensures
        outcome is Ok,
        outcome matches Ok(json) ==> json@ == json_of_texts(texts.deep_view()),
{
    serde_json::to_string(texts)
}

/// Calls `serde_json::from_str` for an optional list of strings. Claimed:
/// whether it succeeds and what it gives depend on the text alone.
#[verifier::external_body]
fn decode_texts(json: &str) -> (outcome: Result<Option<Vec<String>>, serde_json::Error>)
    ensures
        match outcome {
            Ok(texts) => texts_of_json(json@) == Some(texts.deep_view()),
            Err(_) => texts_of_json(json@) is None,
        },
{
    serde_json::from_str(json)
}

/// Calls `to_string` on a `serde_json::Error`. Nothing is claimed of the text.
#[verifier::external_body]
fn json_error_text(error: &serde_json::Error) -> (text: String) {
    error.to_string()
}

/// The error of the application for an encoding or decoding that failed.
pub fn json_failure(error: &serde_json::Error) -> (failure: AppError)
    ensures
        failure is Json,
{
    AppError::Json(json_error_text(error))
}

/// A row of the table of prompts.
#[derive(Debug, Clone, PartialEq)]
pub struct PromptRow {
    /// The identifier, the key of the table.
    pub hash: String,
    /// The content.
    pub content: String,
    /// The tags, as a JSON array.
    pub tags: String,
    /// The categories, as a JSON array.
    pub categories: String,
}

/// What a row holds.
pub struct PromptRowView {
    pub hash: Seq<char>,
    pub content: Seq<char>,
    pub tags: Seq<char>,
    pub categories: Seq<char>,
}

impl View for PromptRow {
    type V = PromptRowView;

    open spec fn view(&self) -> PromptRowView {
        PromptRowView {
            hash: self.hash@,
            content: self.content@,
            tags: self.tags@,
            categories: self.categories@,
        }
    }
}

/// The row for a prompt: a prompt without tags or categories gets an empty
/// array for them.
pub open spec fn row_of(prompt: PromptView) -> PromptRowView {
    PromptRowView {
        hash: prompt.hash,
        content: prompt.content,
        tags: json_of_texts(values_of(prompt.tags)),
        categories: json_of_texts(values_of(prompt.categories)),
    }
}

/// The prompt that a row holds, if its tags and its categories can be read.
pub open spec fn prompt_of(row: PromptRowView) -> Option<PromptView> {
    match (texts_of_json(row.tags), texts_of_json(row.categories)) {
        (Some(tags), Some(categories)) => Some(
            PromptView { content: row.content, tags, categories, hash: row.hash },
        ),
        _ => None,
    }
}

/// Encodes the texts of an optional list, an empty list where there is none.
/// It succeeds on every list.
fn encode_optional(list: &Option<Vec<String>>) -> (outcome: Result<String, serde_json::Error>)
    ensures
        outcome matches Ok(json) && json@ == json_of_texts(values_of(list.deep_view())),
{
    match list {
        Some(texts) => encode_texts(texts_of(texts)),
        None => {
            let none: Vec<String> = Vec::new();
            assert(none.deep_view() =~= Seq::<Seq<char>>::empty());
            encode_texts(texts_of(&none))
        },
    }
}

/// Makes the row for a prompt. Every prompt has a row.
pub fn to_row(prompt: &Prompt) -> (outcome: Result<PromptRow, AppError>)
    ensures
        outcome matches Ok(row) && row@ == row_of(prompt@),
{
    let tags = match encode_optional(&prompt.tags) {
        Ok(json) => json,
        Err(error) => {
            return Err(json_failure(&error));
        },
    };
    let categories = match encode_optional(&prompt.categories) {
        Ok(json) => json,
        Err(error) => {
            return Err(json_failure(&error));
        },
    };
    Ok(PromptRow { hash: prompt.hash.clone(), content: prompt.content.clone(), tags, categories })
}

/// Reads the prompt out of a row. Tags or categories that cannot be read
/// are a JSON error.
pub fn from_row(row: &PromptRow) -> (outcome: Result<Prompt, AppError>)
    ensures
        match prompt_of(row@) {
            Some(prompt) => outcome matches Ok(read) && read@ == prompt,
            None => outcome matches Err(failure) && failure is Json,
        },
{
    let tags = match decode_texts(row.tags.as_str()) {
        Ok(texts) => texts,
        Err(error) => {
            return Err(json_failure(&error));
        },
    };
    let categories = match decode_texts(row.categories.as_str()) {
        Ok(texts) => texts,
        Err(error) => {
            return Err(json_failure(&error));
        },
    };
    Ok(Prompt { content: row.content.clone(), tags, categories, hash: row.hash.clone() })
}

} // verus!
