//! Prompts that go by a name, as a file of prompts holds them, and the
//! search in them: the query is looked for in the name and in the text,
//! without regard to case.

use crate::text::{chars_of, contains_all, copy_texts, texts_of};
use vstd::prelude::*;
use vstd::string::*;

verus! {

/// A prompt with a name.
#[derive(Debug, Clone, PartialEq)]
pub struct NamedPrompt {
    /// The name, by which the prompt is found.
    pub name: String,
    /// The text of the prompt.
    pub text: String,
    /// The tags.
    pub tags: Vec<String>,
    /// The categories.
    pub categories: Vec<String>,
}

/// What a named prompt holds, as plain mathematical values.
pub struct NamedPromptView {
    pub name: Seq<char>,
    pub text: Seq<char>,
    pub tags: Seq<Seq<char>>,
    pub categories: Seq<Seq<char>>,
}

impl View for NamedPrompt {
    type V = NamedPromptView;

    open spec fn view(&self) -> NamedPromptView {
        NamedPromptView {
            name: self.name@,
            text: self.text@,
            tags: self.tags.deep_view(),
            categories: self.categories.deep_view(),
        }
    }
}

impl DeepView for NamedPrompt {
    type V = NamedPromptView;

    open spec fn deep_view(&self) -> NamedPromptView {
        self@
    }
}

/// The text in lower case, as `str::to_lowercase` gives it.
pub uninterp spec fn lowercase(text: Seq<char>) -> Seq<char>;

/// Calls `str::to_lowercase`. Claimed: the result depends on the text alone.
#[verifier::external_body]
fn lowercase_of(text: &str) -> (lower: String)
    ensures
        lower@ == lowercase(text@),
{
    text.to_lowercase()
}

/// `needle` stands in `hay` at the position.
pub open spec fn occurs_at(hay: Seq<char>, needle: Seq<char>, at: int) -> bool {
    &&& 0 <= at
    &&& at + needle.len() <= hay.len()
    &&& hay.subrange(at, at + needle.len()) == needle
}

/// `needle` stands somewhere in `hay`.
pub open spec fn occurs_in(hay: Seq<char>, needle: Seq<char>) -> bool {
    exists|at: int| occurs_at(hay, needle, at)
}

/// Whether a query, given with its lower case, is found in a name or a text
/// that are given in lower case: an empty query is found everywhere.
pub open spec fn found_in(
    name_lower: Seq<char>,
    text_lower: Seq<char>,
    query: Seq<char>,
    query_lower: Seq<char>,
) -> bool {
    query.len() == 0 || occurs_in(name_lower, query_lower) || occurs_in(text_lower, query_lower)
}

/// Whether a list has every value that is asked for. Nothing asked for is
/// had by every list.
pub open spec fn has_every(have: Seq<Seq<char>>, wanted: Seq<Seq<char>>) -> bool {
    forall|j: int| 0 <= j < wanted.len() ==> have.contains(#[trigger] wanted[j])
}

/// Whether a named prompt passes the query and both filters.
pub open spec fn named_accepted(
    prompt: NamedPromptView,
    query: Seq<char>,
    tags: Seq<Seq<char>>,
    categories: Seq<Seq<char>>,
) -> bool {
    &&& found_in(lowercase(prompt.name), lowercase(prompt.text), query, lowercase(query))
    &&& has_every(prompt.tags, tags)
    &&& has_every(prompt.categories, categories)
}

/// `named_accepted` for a fixed query and fixed filters, as a predicate.
pub open spec fn named_acceptance(
    query: Seq<char>,
    tags: Seq<Seq<char>>,
    categories: Seq<Seq<char>>,
) -> spec_fn(NamedPromptView) -> bool {
    |prompt: NamedPromptView| named_accepted(prompt, query, tags, categories)
}

/// Decides whether `needle` stands in `hay` at the position.
fn stands_at(hay: &Vec<char>, needle: &Vec<char>, at: usize) -> (yes: bool)
    requires
        at + needle.len() <= hay.len(),
    ensures
        yes == occurs_at(hay@, needle@, at as int),
{
    let ghost part = hay@.subrange(at as int, at + needle.len());
    let mut i: usize = 0;
    while i < needle.len()
        invariant
            i <= needle.len(),
            at + needle.len() <= hay.len(),
            part == hay@.subrange(at as int, at + needle.len()),
            forall|j: int| 0 <= j < i ==> part[j] == needle@[j],
        decreases needle.len() - i,
    {
        if hay[at + i] != needle[i] {
            assert(part[i as int] != needle@[i as int]);
            return false;
        }
        i += 1;
    }
    assert(part =~= needle@);
    true
}

/// Decides whether `needle` stands somewhere in `hay`.
pub fn contains_chars(hay: &Vec<char>, needle: &Vec<char>) -> (yes: bool)
    ensures
        yes == occurs_in(hay@, needle@),
{
    if needle.len() > hay.len() {
        return false;
    }
    let last = hay.len() - needle.len();
    let mut at: usize = 0;
    while at < last
        invariant
            at <= last,
            last == hay.len() - needle.len(),
            needle.len() <= hay.len(),
            forall|k: int| 0 <= k < at ==> !occurs_at(hay@, needle@, k),
        decreases last - at,
    {
        if stands_at(hay, needle, at) {
            return true;
        }
        at += 1;
    }
    stands_at(hay, needle, last)
}

/// Decides whether a query is found in a name or a text. The name, the text
/// and the second form of the query are given in lower case.
pub fn finds(name_lower: &str, text_lower: &str, query: &str, query_lower: &str) -> (yes: bool)
    ensures
        yes == found_in(name_lower@, text_lower@, query@, query_lower@),
{
    if query.is_empty() {
        return true;
    }
    let needle = chars_of(query_lower);
    contains_chars(&chars_of(name_lower), &needle) || contains_chars(&chars_of(text_lower), &needle)
}

/// Decides whether a named prompt passes the query and both filters.
pub fn accepts_named(prompt: &NamedPrompt, query: &str, tags: &[String], categories: &[String]) -> (pass:
    bool)
    ensures
        pass == named_accepted(prompt@, query@, tags.deep_view(), categories.deep_view()),
{
    let query_lower = lowercase_of(query);
    let name_lower = lowercase_of(prompt.name.as_str());
    let text_lower = lowercase_of(prompt.text.as_str());
    finds(name_lower.as_str(), text_lower.as_str(), query, query_lower.as_str()) && contains_all(
        texts_of(&prompt.tags),
        tags,
    ) && contains_all(texts_of(&prompt.categories), categories)
}

/// A copy of a named prompt.
fn copy_named(prompt: &NamedPrompt) -> (copy: NamedPrompt)
    ensures
        copy@ == prompt@,
{
    NamedPrompt {
        name: prompt.name.clone(),
        text: prompt.text.clone(),
        tags: copy_texts(texts_of(&prompt.tags)),
        categories: copy_texts(texts_of(&prompt.categories)),
    }
}

/// Returns copies of the named prompts whose name or text holds the query,
/// case apart, and that have every tag and every category asked for, in the
/// order in which they were given.
pub fn search_named_prompts(
    prompts: &[NamedPrompt],
    query: &str,
    tags: &[String],
    categories: &[String],
) -> (found: Vec<NamedPrompt>)
    ensures
        found.deep_view() == prompts.deep_view().filter(
            named_acceptance(query@, tags.deep_view(), categories.deep_view()),
        ),
{
    let ghost pass = named_acceptance(query@, tags.deep_view(), categories.deep_view());
    let ghost all = prompts.deep_view();
    let mut found: Vec<NamedPrompt> = Vec::new();
    let mut i: usize = 0;
    proof {
        assert(all.subrange(0, 0) =~= Seq::<NamedPromptView>::empty());
        reveal(Seq::filter);
    }
    while i < prompts.len()
        invariant
            i <= prompts.len(),
            all == prompts.deep_view(),
            pass == named_acceptance(query@, tags.deep_view(), categories.deep_view()),
            found.deep_view() == all.subrange(0, i as int).filter(pass),
        decreases prompts.len() - i,
    {
        let ghost before = found.deep_view();
        let prompt = &prompts[i];
        proof {
            all.subrange(0, i as int).lemma_filter_push(all[i as int], pass);
            assert(all.subrange(0, i as int).push(all[i as int]) =~= all.subrange(0, i as int + 1));
        }
        if accepts_named(prompt, query, tags, categories) {
            found.push(copy_named(prompt));
            assert(found.deep_view() =~= before.push(all[i as int]));
        }
        i += 1;
    }
    assert(all.subrange(0, i as int) =~= all);
    found
}

} // verus!
