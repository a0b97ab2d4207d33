//! Moving prompts between a store and a directory of files, one file for
//! each prompt: what is imported, and how the files are named.

use crate::error::AppError;
use crate::prompt::{Prompt, PromptView};
use crate::repository::Prompts;
use crate::storage::{saved, Records, Storage};
use crate::text::same_text;
use vstd::prelude::*;
use vstd::string::*;

verus! {

/// The records after each prompt of `items` was added in turn.
pub open spec fn imported(records: Records, items: Seq<PromptView>) -> Records
    decreases items.len(),
{
    if items.len() == 0 {
        records
    } else {
        saved(imported(records, items.drop_last()), items.last())
    }
}

/// The name of the file that holds the prompt with the identifier `hash`.
pub open spec fn file_name_of(hash: Seq<char>) -> Seq<char> {
    hash + ".json"@
}

/// Whether a file of this name holds a prompt: the name ends in `.json` and
/// is longer than that.
pub open spec fn names_prompt_file(name: Seq<char>) -> bool {
    name.len() > 5 && name.subrange(name.len() - 5, name.len() as int) == ".json"@
}

/// Gives the name of the file for a prompt.
pub fn file_name(hash: &str) -> (name: String)
    ensures
        name@ == file_name_of(hash@),
{
    String::from_str(hash).concat(".json")
}

/// Decides whether a file in a directory of prompts holds one.
pub fn is_prompt_file(name: &str) -> (holds: bool)
    ensures
        holds == names_prompt_file(name@),
{
    let len = name.unicode_len();
    if len <= 5 {
        return false;
    }
    same_text(name.substring_char(len - 5, len), ".json")
}

/// Adds each of the prompts in turn and returns how many were handed in,
/// those that the store already held included. Stops at the first failure.
pub fn import_prompts<S: Storage>(api: &mut Prompts<S>, prompts: &[Prompt]) -> (outcome: Result<
    usize,
    AppError,
>)
    ensures
        final(api).dependable() == old(api).dependable(),
        old(api).dependable() ==> outcome is Ok,
        outcome matches Ok(count) ==> count == prompts.len() && final(api)@ == imported(
            old(api)@,
            prompts.deep_view(),
        ),
        outcome is Err ==> exists|added: int|
            0 <= added < prompts.len() && final(api)@ == imported(
                old(api)@,
                #[trigger] prompts.deep_view().subrange(0, added),
            ),
{
    let ghost all = prompts.deep_view();
    let ghost start = api@;
    let mut count: usize = 0;
    assert(all.subrange(0, 0) =~= Seq::empty());
    while count < prompts.len()
        invariant
            count <= prompts.len(),
            all == prompts.deep_view(),
            start == old(api)@,
            api.dependable() == old(api).dependable(),
            api@ == imported(start, all.subrange(0, count as int)),
        decreases prompts.len() - count,
    {
        let mut prompt = prompts[count].duplicate();
        proof {
            let next = all.subrange(0, count as int + 1);
            assert(next.drop_last() =~= all.subrange(0, count as int));
            assert(next.last() == all[count as int]);
        }
        match api.add_prompt(&mut prompt) {
            Ok(_) => {},
            Err(error) => {
                assert(api@ == imported(old(api)@, prompts.deep_view().subrange(0, count as int)));
                return Err(error);
            },
        }
        count += 1;
    }
    assert(all.subrange(0, count as int) =~= all);
    Ok(count)
}

} // verus!
