//! The storage interface, its mathematical model, and a backend that keeps
//! the records in memory.

use crate::error::AppError;
use crate::prompt::{copy_prompts, prompts_of, Prompt, PromptView};
use crate::text::same_text;
use vstd::prelude::*;
use vstd::string::*;

verus! {

/// The records of a store, by identifier.
pub type Records = Map<Seq<char>, PromptView>;

/// Every record stands under its own identifier.
pub open spec fn keyed(records: Records) -> bool {
    forall|k: Seq<char>| records.contains_key(k) ==> (#[trigger] records[k]).hash == k
}

/// The records after `prompt` is saved: a record whose identifier is taken
/// stays as it is.
pub open spec fn saved(records: Records, prompt: PromptView) -> Records {
    if records.contains_key(prompt.hash) {
        records
    } else {
        records.insert(prompt.hash, prompt)
    }
}

/// No two prompts of the sequence have the same identifier.
pub open spec fn distinct(items: Seq<PromptView>) -> bool {
    forall|i: int, j: int|
        0 <= i < j < items.len() ==> (#[trigger] items[i]).hash != (#[trigger] items[j]).hash
}

/// `items` holds each record of `records` once, in any order.
pub open spec fn is_listing(items: Seq<PromptView>, records: Records) -> bool {
    &&& forall|i: int|
        0 <= i < items.len() ==> records.contains_key((#[trigger] items[i]).hash)
            && records[items[i].hash] == items[i]
    &&& distinct(items)
    &&& forall|k: Seq<char>| #[trigger]
        records.contains_key(k) ==> exists|i: int|
            0 <= i < items.len() && (#[trigger] items[i]).hash == k
}

/// The records that a sequence of prompts with different identifiers holds.
pub open spec fn indexed(items: Seq<PromptView>) -> Records {
    Map::new(
        |k: Seq<char>| exists|i: int| 0 <= i < items.len() && (#[trigger] items[i]).hash == k,
        |k: Seq<char>| items[choose|i: int| 0 <= i < items.len() && (#[trigger] items[i]).hash == k],
    )
}

/// A store of prompts. `save_prompt` and `delete_prompt` change it;
/// `load_prompts` lists it. A call may fail; it has then changed nothing.
pub trait Storage {
    /// The records in the store.
    spec fn records(&self) -> Records;

    /// Whether no call on this store fails.
    spec fn dependable(&self) -> bool;

    /// Saves a prompt under its identifier. Where the identifier is taken the
    /// store stays as it is; a backend may report that as an error.
    fn save_prompt(&mut self, prompt: &mut Prompt) -> (outcome: Result<(), AppError>)
        ensures
            *final(prompt) == *old(prompt),
            final(self).dependable() == old(self).dependable(),
            old(self).dependable() ==> outcome is Ok,
            outcome is Ok ==> final(self).records() == saved(old(self).records(), old(prompt)@),
            outcome is Err ==> final(self).records() == old(self).records(),
    ;

    /// Lists all records, in no particular order.
    fn load_prompts(&self) -> (outcome: Result<Vec<Prompt>, AppError>)
        ensures
            self.dependable() ==> outcome is Ok,
            outcome matches Ok(prompts) ==> is_listing(prompts.deep_view(), self.records()),
    ;

    /// Deletes the record with the identifier `hash`, if there is one.
    fn delete_prompt(&mut self, hash: &str) -> (outcome: Result<(), AppError>)
        ensures
            final(self).dependable() == old(self).dependable(),
            old(self).dependable() ==> outcome is Ok,
            outcome is Ok ==> final(self).records() == old(self).records().remove(hash@),
            outcome is Err ==> final(self).records() == old(self).records(),
    ;
}

/// A sequence of prompts with different identifiers lists the records it
/// holds.
pub proof fn lemma_indexed_listing(items: Seq<PromptView>)
    requires
        distinct(items),
    ensures
        is_listing(items, indexed(items)),
        keyed(indexed(items)),
{
    let records = indexed(items);
    assert forall|i: int| 0 <= i < items.len() implies records.contains_key(
        (#[trigger] items[i]).hash,
    ) && records[items[i].hash] == items[i] by {
        let k = items[i].hash;
        let c = choose|c: int| 0 <= c < items.len() && (#[trigger] items[c]).hash == k;
        assert(c == i);
    }
}

/// A listing determines the records.
pub proof fn lemma_listing_indexed(items: Seq<PromptView>, records: Records)
    requires
        is_listing(items, records),
    ensures
        records == indexed(items),
        distinct(items),
        keyed(records),
{
    lemma_indexed_listing(items);
    let other = indexed(items);
    assert forall|k: Seq<char>| records.contains_key(k) implies other.contains_key(k)
        && other[k] == records[k] by {
        let i = choose|i: int| 0 <= i < items.len() && (#[trigger] items[i]).hash == k;
        assert(other[items[i].hash] == items[i]);
    }
    assert(records =~= other);
}

/// Appending a prompt with a new identifier saves it.
pub proof fn lemma_indexed_push(items: Seq<PromptView>, prompt: PromptView)
    requires
        distinct(items),
        !indexed(items).contains_key(prompt.hash),
    ensures
        distinct(items.push(prompt)),
        indexed(items.push(prompt)) == saved(indexed(items), prompt),
{
    let longer = items.push(prompt);
    assert forall|i: int, j: int| 0 <= i < j < longer.len() implies (#[trigger] longer[i]).hash != (
    #[trigger] longer[j]).hash by {
        if j == items.len() {
            assert(longer[i] == items[i]);
            if items[i].hash == prompt.hash {
                assert(indexed(items).contains_key(items[i].hash));
            }
        } else {
            assert(longer[i] == items[i] && longer[j] == items[j]);
        }
    }
    lemma_indexed_listing(items);
    lemma_indexed_listing(longer);
    let a = indexed(longer);
    let b = indexed(items).insert(prompt.hash, prompt);
    assert forall|k: Seq<char>| a.contains_key(k) <==> b.contains_key(k) by {
        if a.contains_key(k) {
            let i = choose|i: int| 0 <= i < longer.len() && (#[trigger] longer[i]).hash == k;
            if i < items.len() {
                assert(items[i].hash == k);
            }
        }
        if indexed(items).contains_key(k) {
            let i = choose|i: int| 0 <= i < items.len() && (#[trigger] items[i]).hash == k;
            assert(longer[i].hash == k);
        }
        if k == prompt.hash {
            assert(longer[items.len() as int].hash == k);
        }
    }
    assert forall|k: Seq<char>| a.contains_key(k) implies a[k] == b[k] by {
        let i = choose|i: int| 0 <= i < longer.len() && (#[trigger] longer[i]).hash == k;
        assert(a[longer[i].hash] == longer[i]);
        if i < items.len() {
            assert(longer[i] == items[i]);
            assert(indexed(items)[items[i].hash] == items[i]);
        }
    }
    assert(a =~= b);
}

/// Taking out the prompt at a position deletes its record.
pub proof fn lemma_indexed_remove(items: Seq<PromptView>, at: int)
    requires
        distinct(items),
        0 <= at < items.len(),
    ensures
        distinct(items.remove(at)),
        indexed(items.remove(at)) == indexed(items).remove(items[at].hash),
{
    let shorter = items.remove(at);
    assert forall|i: int, j: int| 0 <= i < j < shorter.len() implies (#[trigger] shorter[i]).hash
        != (#[trigger] shorter[j]).hash by {
        let x = if i < at {
            i
        } else {
            i + 1
        };
        let y = if j < at {
            j
        } else {
            j + 1
        };
        assert(shorter[i] == items[x] && shorter[j] == items[y]);
    }
    lemma_indexed_listing(items);
    lemma_indexed_listing(shorter);
    let a = indexed(shorter);
    let b = indexed(items).remove(items[at].hash);
    assert forall|k: Seq<char>| a.contains_key(k) <==> b.contains_key(k) by {
        if a.contains_key(k) {
            let i = choose|i: int| 0 <= i < shorter.len() && (#[trigger] shorter[i]).hash == k;
            let x = if i < at {
                i
            } else {
                i + 1
            };
            assert(items[x].hash == k);
            if x < at {
                assert(items[x].hash != items[at].hash);
            } else {
                assert(items[at].hash != items[x].hash);
            }
        }
        if b.contains_key(k) {
            let x = choose|x: int| 0 <= x < items.len() && (#[trigger] items[x]).hash == k;
            let i = if x < at {
                x
            } else {
                x - 1
            };
            assert(shorter[i].hash == k);
        }
    }
    assert forall|k: Seq<char>| a.contains_key(k) implies a[k] == b[k] by {
        let i = choose|i: int| 0 <= i < shorter.len() && (#[trigger] shorter[i]).hash == k;
        let x = if i < at {
            i
        } else {
            i + 1
        };
        assert(a[shorter[i].hash] == shorter[i]);
        assert(shorter[i] == items[x]);
        assert(indexed(items)[items[x].hash] == items[x]);
    }
    assert(a =~= b);
}

/// Finds the position of the first prompt with the identifier `hash`.
pub fn position_of(prompts: &[Prompt], hash: &str) -> (found: Option<usize>)
    ensures
        match found {
            Some(at) => at < prompts.len() && prompts.deep_view()[at as int].hash == hash@
                && forall|j: int| 0 <= j < at ==> (#[trigger] prompts.deep_view()[j]).hash != hash@,
            None => forall|j: int|
                0 <= j < prompts.len() ==> (#[trigger] prompts.deep_view()[j]).hash != hash@,
        },
{
    let mut i: usize = 0;
    while i < prompts.len()
        invariant
            i <= prompts.len(),
            forall|j: int| 0 <= j < i ==> (#[trigger] prompts.deep_view()[j]).hash != hash@,
        decreases prompts.len() - i,
    {
        if same_text(prompts[i].hash.as_str(), hash) {
            return Some(i);
        }
        i += 1;
    }
    None
}

/// Whether one of the prompts has the identifier `hash`.
pub fn has_hash(prompts: &[Prompt], hash: &str) -> (found: bool)
    ensures
        found == exists|j: int|
            0 <= j < prompts.len() && (#[trigger] prompts.deep_view()[j]).hash == hash@,
{
    position_of(prompts, hash).is_some()
}

/// A store that keeps its records in memory. No call on it fails.
pub struct MemoryStorage {
    prompts: Vec<Prompt>,
}

impl MemoryStorage {
    #[verifier::type_invariant]
    spec fn well_formed(self) -> bool {
        distinct(self.prompts.deep_view())
    }

    /// An empty store.
    pub fn new() -> (store: MemoryStorage)
        ensures
            store.records() == Records::empty(),
    {
        let store = MemoryStorage { prompts: Vec::new() };
        assert(store.prompts.deep_view() =~= Seq::<PromptView>::empty());
        assert(indexed(store.prompts.deep_view()) =~= Records::empty());
        store
    }
}

impl Storage for MemoryStorage {
    closed spec fn records(&self) -> Records {
        indexed(self.prompts.deep_view())
    }

    open spec fn dependable(&self) -> bool {
        true
    }

    fn save_prompt(&mut self, prompt: &mut Prompt) -> (outcome: Result<(), AppError>) {
        proof {
            use_type_invariant(&*self);
        }
        let ghost before = self.prompts.deep_view();
        if !has_hash(prompts_of(&self.prompts), prompt.hash.as_str()) {
            let copy = prompt.duplicate();
            let mut prompts: Vec<Prompt> = Vec::new();
            assert(prompts.deep_view() =~= Seq::<PromptView>::empty());
            core::mem::swap(&mut self.prompts, &mut prompts);
            prompts.push(copy);
            proof {
                lemma_indexed_push(before, prompt@);
                assert(prompts.deep_view() =~= before.push(prompt@));
            }
            self.prompts = prompts;
        }
        Ok(())
    }

    fn load_prompts(&self) -> (outcome: Result<Vec<Prompt>, AppError>) {
        proof {
            use_type_invariant(self);
            lemma_indexed_listing(self.prompts.deep_view());
        }
        let prompts = copy_prompts(prompts_of(&self.prompts));
        Ok(prompts)
    }

    fn delete_prompt(&mut self, hash: &str) -> (outcome: Result<(), AppError>) {
        proof {
            use_type_invariant(&*self);
        }
        let ghost before = self.prompts.deep_view();
        match position_of(prompts_of(&self.prompts), hash) {
            Some(at) => {
                let mut prompts: Vec<Prompt> = Vec::new();
                assert(prompts.deep_view() =~= Seq::<PromptView>::empty());
                core::mem::swap(&mut self.prompts, &mut prompts);
                let _ = prompts.remove(at);
                proof {
                    lemma_indexed_remove(before, at as int);
                    assert(prompts.deep_view() =~= before.remove(at as int));
                }
                self.prompts = prompts;
            },
            None => {
                assert(indexed(before).remove(hash@) =~= indexed(before));
            },
        }
        Ok(())
    }
}

} // verus!
