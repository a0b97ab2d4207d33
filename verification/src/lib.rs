//! Content-addressed prompt management.
//!
//! A prompt is a text with optional tags and categories; the SHA-256 digest
//! of the text identifies it. A store holds prompts by identifier, and the
//! repository adds, lists, searches, edits and deletes them. Every function
//! states what it returns or changes over plain mathematical values, and
//! `laws` proves what follows for all stores and inputs.

pub mod command;
pub mod digest;
pub mod edit;
pub mod error;
pub mod generator;
pub mod laws;
pub mod named;
pub mod prompt;
pub mod repository;
pub mod row;
pub mod search;
pub mod settings;
pub mod storage;
pub mod template;
pub mod text;
pub mod transfer;
pub mod tui;

pub use crate::error::AppError;
pub use crate::generator::{GeneratorType, LLMTextGenerator, MockTextGenerator, TextGenerator};
pub use crate::prompt::Prompt;
pub use crate::repository::Prompts;
pub use crate::search::search_prompts;
pub use crate::storage::{MemoryStorage, Storage};
