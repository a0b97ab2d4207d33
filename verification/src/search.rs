//! Search over prompts: a fuzzy match of the query against the content,
//! combined with tag and category filters that must all hold.

use crate::prompt::{Prompt, PromptView};
use crate::text::{contains_all, texts_of};
use fuzzy_matcher::skim::SkimMatcherV2;
use fuzzy_matcher::FuzzyMatcher;
use vstd::prelude::*;
use vstd::string::*;

verus! {

/// The code of a character, with the ASCII capitals mapped to small letters.
pub open spec fn ascii_folded(c: char) -> int {
    if 'A' <= c <= 'Z' {
        c as int + 32
    } else {
        c as int
    }
}

/// Whether the matcher takes two characters as the same.
pub open spec fn same_char(c: char, p: char, case_sensitive: bool) -> bool {
    if case_sensitive {
        c == p
    } else {
        ascii_folded(c) == ascii_folded(p)
    }
}

/// Whether the text holds an ASCII capital letter.
pub open spec fn has_ascii_capital(text: Seq<char>) -> bool {
    exists|i: int| 0 <= i < text.len() && 'A' <= #[trigger] text[i] <= 'Z'
}

/// Whether the characters of `pattern` occur in `choice` in their order, not
/// necessarily next to each other.
pub open spec fn occurs_in_order(choice: Seq<char>, pattern: Seq<char>, case_sensitive: bool) -> bool
    decreases choice.len(),
{
    if pattern.len() == 0 {
        true
    } else if choice.len() == 0 {
        false
    } else if same_char(choice[0], pattern[0], case_sensitive) {
        occurs_in_order(choice.skip(1), pattern.skip(1), case_sensitive)
    } else {
        occurs_in_order(choice.skip(1), pattern, case_sensitive)
    }
}

/// Whether `pattern` matches `choice` fuzzily: its characters occur in
/// `choice` in order. Case counts only when the pattern holds an ASCII
/// capital.
pub open spec fn fuzzy_matches(choice: Seq<char>, pattern: Seq<char>) -> bool {
    occurs_in_order(choice, pattern, has_ascii_capital(pattern))
}

/// Calls `fuzzy_match` of `fuzzy_matcher::skim::SkimMatcherV2`, in its
/// default configuration, on `choice` and `pattern`. Claimed: there is a
/// score exactly when the pattern's characters occur in the choice in order,
/// compared with smart case. Nothing is claimed of the score itself.
#[verifier::external_body]
fn skim_score(choice: &str, pattern: &str) -> (score: Option<i64>)
    ensures
        score is Some <==> fuzzy_matches(choice@, pattern@),
{
    SkimMatcherV2::default().fuzzy_match(choice, pattern)
}

/// Whether a record with the values `have` passes a filter that asks for all
/// of `wanted`. An empty filter passes every record.
pub open spec fn holds_all(have: Option<Seq<Seq<char>>>, wanted: Seq<Seq<char>>) -> bool {
    wanted.len() == 0 || match have {
        Some(values) => forall|j: int| 0 <= j < wanted.len() ==> values.contains(#[trigger] wanted[j]),
        None => false,
    }
}

/// Whether a prompt passes the query and both filters.
pub open spec fn accepted(
    prompt: PromptView,
    query: Seq<char>,
    tags: Seq<Seq<char>>,
    categories: Seq<Seq<char>>,
) -> bool {
    &&& query.len() == 0 || fuzzy_matches(prompt.content, query)
    &&& holds_all(prompt.tags, tags)
    &&& holds_all(prompt.categories, categories)
}

/// `accepted` for a fixed query and fixed filters, as a predicate on prompts.
pub open spec fn acceptance(
    query: Seq<char>,
    tags: Seq<Seq<char>>,
    categories: Seq<Seq<char>>,
) -> spec_fn(PromptView) -> bool {
    |prompt: PromptView| accepted(prompt, query, tags, categories)
}

/// Decides a tag or category filter for one record.
pub fn has_all(have: &Option<Vec<String>>, wanted: &[String]) -> (pass: bool)
    ensures
        pass == holds_all(have.deep_view(), wanted.deep_view()),
{
    if wanted.len() == 0 {
        return true;
    }
    match have {
        Some(values) => contains_all(texts_of(values), wanted),
        None => false,
    }
}

/// Decides whether one prompt passes the query and both filters.
pub fn accepts(prompt: &Prompt, query: &str, tags: &[String], categories: &[String]) -> (pass: bool)
    ensures
        pass == accepted(prompt@, query@, tags.deep_view(), categories.deep_view()),
{
    let content_match = query.is_empty() || skim_score(prompt.content.as_str(), query).is_some();
    content_match && has_all(&prompt.tags, tags) && has_all(&prompt.categories, categories)
}

/// Returns copies of the prompts that pass the query and both filters, in
/// the order in which they were given.
pub fn search_prompts(prompts: &[Prompt], query: &str, tags: &[String], categories: &[String]) -> (found:
    Vec<Prompt>)
    ensures
        found.deep_view() == prompts.deep_view().filter(
            acceptance(query@, tags.deep_view(), categories.deep_view()),
        ),
{
    let ghost pass = acceptance(query@, tags.deep_view(), categories.deep_view());
    let ghost all = prompts.deep_view();
    let mut found: Vec<Prompt> = Vec::new();
    let mut i: usize = 0;
    proof {
        assert(all.subrange(0, 0) =~= Seq::<PromptView>::empty());
        reveal(Seq::filter);
    }
    while i < prompts.len()
        invariant
            i <= prompts.len(),
            all == prompts.deep_view(),
            pass == acceptance(query@, tags.deep_view(), categories.deep_view()),
            found.deep_view() == all.subrange(0, i as int).filter(pass),
        decreases prompts.len() - i,
    {
        let ghost before = found.deep_view();
        let prompt = &prompts[i];
        proof {
            all.subrange(0, i as int).lemma_filter_push(all[i as int], pass);
            assert(all.subrange(0, i as int).push(all[i as int]) =~= all.subrange(0, i as int + 1));
        }
        if accepts(prompt, query, tags, categories) {
            found.push(prompt.duplicate());
            assert(found.deep_view() =~= before.push(all[i as int]));
        }
        i += 1;
    }
    assert(all.subrange(0, i as int) =~= all);
    found
}

} // verus!
