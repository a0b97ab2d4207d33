//! The prompt record and its mathematical view.

use crate::digest::{content_digest, digest_of};
use crate::text::{copy_texts, texts_of};
use vstd::prelude::*;
use vstd::string::*;
use vstd::utf8::*;

verus! {

/// A stored text snippet with optional tags and categories, identified by the
/// digest of its content.
#[derive(Debug, Clone, PartialEq)]
pub struct Prompt {
    /// The text of the prompt.
    pub content: String,
    /// Optional tags.
    pub tags: Option<Vec<String>>,
    /// Optional categories.
    pub categories: Option<Vec<String>>,
    /// The identifier: the digest of `content` for a prompt made by `new`.
    pub hash: String,
}

/// What a prompt holds, as plain mathematical values.
pub struct PromptView {
    pub content: Seq<char>,
    pub tags: Option<Seq<Seq<char>>>,
    pub categories: Option<Seq<Seq<char>>>,
    pub hash: Seq<char>,
}

impl PromptView {
    /// The prompt that `Prompt::new` makes of these values.
    pub open spec fn fresh(
        content: Seq<char>,
        tags: Option<Seq<Seq<char>>>,
        categories: Option<Seq<Seq<char>>>,
    ) -> PromptView {
        PromptView { content, tags, categories, hash: content_digest(content) }
    }

    /// The identifier is the digest of the content.
    pub open spec fn content_addressed(self) -> bool {
        self.hash == content_digest(self.content)
    }
}

impl View for Prompt {
    type V = PromptView;

    open spec fn view(&self) -> PromptView {
        PromptView {
            content: self.content@,
            tags: self.tags.deep_view(),
            categories: self.categories.deep_view(),
            hash: self.hash@,
        }
    }
}

impl DeepView for Prompt {
    type V = PromptView;

    open spec fn deep_view(&self) -> PromptView {
        self@
    }
}

/// A copy of an optional list of strings.
pub fn copy_optional_texts(list: &Option<Vec<String>>) -> (copy: Option<Vec<String>>)
    ensures
        copy.deep_view() == list.deep_view(),
{
    match list {
        Some(items) => Some(copy_texts(texts_of(items))),
        None => None,
    }
}

/// The prompts of a vector as a slice.
pub fn prompts_of(list: &Vec<Prompt>) -> (prompts: &[Prompt])
    ensures
        prompts.deep_view() == list.deep_view(),
{
    let prompts = list.as_slice();
    assert(prompts.deep_view() =~= list.deep_view());
    prompts
}

/// Copies of the given prompts, in their order.
pub fn copy_prompts(prompts: &[Prompt]) -> (copies: Vec<Prompt>)
    ensures
        copies.deep_view() == prompts.deep_view(),
{
    let ghost all = prompts.deep_view();
    let mut copies: Vec<Prompt> = Vec::new();
    let mut i: usize = 0;
    assert(copies.deep_view() =~= all.subrange(0, 0));
    while i < prompts.len()
        invariant
            i <= prompts.len(),
            all == prompts.deep_view(),
            copies.deep_view() == all.subrange(0, i as int),
        decreases prompts.len() - i,
    {
        let ghost before = copies.deep_view();
        copies.push(prompts[i].duplicate());
        assert(copies.deep_view() =~= before.push(all[i as int]));
        assert(before.push(all[i as int]) =~= all.subrange(0, i as int + 1));
        i += 1;
    }
    assert(all.subrange(0, i as int) =~= all);
    copies
}

impl Prompt {
    /// Makes a prompt of `content`; its identifier is computed from the content.
    pub fn new(content: &str, tags: Option<Vec<String>>, categories: Option<Vec<String>>) -> (prompt:
        Prompt)
        ensures
            prompt@ == PromptView::fresh(content@, tags.deep_view(), categories.deep_view()),
            prompt@.content_addressed(),
            prompt@.hash.len() == 64,
            is_char_boundary(encode_utf8(prompt@.hash), 12),
    {
        let hash = digest_of(content);
        Prompt { content: String::from_str(content), tags, categories, hash }
    }

    /// A copy with the same content, tags, categories and identifier.
    pub fn duplicate(&self) -> (copy: Prompt)
        ensures
            copy@ == self@,
    {
        Prompt {
            content: self.content.clone(),
            tags: copy_optional_texts(&self.tags),
            categories: copy_optional_texts(&self.categories),
            hash: self.hash.clone(),
        }
    }
}

} // verus!
