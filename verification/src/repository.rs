//! The prompt repository: adding without duplicates, listing, searching,
//! editing and deleting. Each operation reads the store, decides on a plan
//! of changes, and carries the plan out.

use crate::edit::{edited, edited_prompt};
use crate::error::AppError;
use crate::prompt::{prompts_of, Prompt, PromptView};
use crate::search::{acceptance, accepted, search_prompts};
use crate::storage::{distinct, has_hash, is_listing, position_of, saved, Records, Storage};
use crate::text::texts_of;
use vstd::prelude::*;
use vstd::string::*;

verus! {

/// A change to a store.
#[derive(Debug, Clone, PartialEq)]
pub enum Change {
    /// Save this prompt.
    Save(Prompt),
    /// Delete the record with this identifier.
    Delete(String),
}

/// A change as plain mathematical values.
pub enum ChangeView {
    Save(PromptView),
    Delete(Seq<char>),
}

impl View for Change {
    type V = ChangeView;

    open spec fn view(&self) -> ChangeView {
        match self {
            Change::Save(prompt) => ChangeView::Save(prompt@),
            Change::Delete(hash) => ChangeView::Delete(hash@),
        }
    }
}

impl DeepView for Change {
    type V = ChangeView;

    open spec fn deep_view(&self) -> ChangeView {
        self@
    }
}

/// The records after one change.
pub open spec fn changed(records: Records, change: ChangeView) -> Records {
    match change {
        ChangeView::Save(prompt) => saved(records, prompt),
        ChangeView::Delete(hash) => records.remove(hash),
    }
}

/// The records after the changes of a plan, made in their order.
pub open spec fn applied(records: Records, plan: Seq<ChangeView>) -> Records
    decreases plan.len(),
{
    if plan.len() == 0 {
        records
    } else {
        changed(applied(records, plan.drop_last()), plan.last())
    }
}

/// Whether one of the prompts has the identifier.
pub open spec fn lists_hash(loaded: Seq<PromptView>, hash: Seq<char>) -> bool {
    exists|i: int| 0 <= i < loaded.len() && (#[trigger] loaded[i]).hash == hash
}

/// The first of the prompts with the identifier, where there is one.
pub open spec fn first_with(loaded: Seq<PromptView>, hash: Seq<char>) -> PromptView {
    loaded[choose|i: int|
        0 <= i < loaded.len() && (#[trigger] loaded[i]).hash == hash && forall|j: int|
            0 <= j < i ==> (#[trigger] loaded[j]).hash != hash]
}

/// The plan for adding a prompt: it is saved unless its identifier is
/// among those that were loaded.
pub open spec fn add_plan(loaded: Seq<PromptView>, prompt: PromptView) -> Seq<ChangeView> {
    if lists_hash(loaded, prompt.hash) {
        Seq::empty()
    } else {
        seq![ChangeView::Save(prompt)]
    }
}

/// The plan for an edit: the record under the identifier is deleted and
/// the edited prompt is saved. Where no prompt with the identifier was
/// loaded nothing is done.
pub open spec fn edit_plan(
    loaded: Seq<PromptView>,
    hash: Seq<char>,
    new_text: Option<Seq<char>>,
    add_tags: Option<Seq<Seq<char>>>,
    remove_tags: Option<Seq<Seq<char>>>,
    add_categories: Option<Seq<Seq<char>>>,
    remove_categories: Option<Seq<Seq<char>>>,
) -> Seq<ChangeView> {
    if lists_hash(loaded, hash) {
        seq![
            ChangeView::Delete(hash),
            ChangeView::Save(
                edited(
                    first_with(loaded, hash),
                    new_text,
                    add_tags,
                    remove_tags,
                    add_categories,
                    remove_categories,
                ),
            ),
        ]
    } else {
        Seq::empty()
    }
}

/// The plan for deleting: the record under the identifier is deleted.
pub open spec fn delete_plan(hash: Seq<char>) -> Seq<ChangeView> {
    seq![ChangeView::Delete(hash)]
}

/// The tags of an optional filter, none where there is no filter.
pub open spec fn filter_of(tags: Option<Seq<Seq<char>>>) -> Seq<Seq<char>> {
    match tags {
        Some(values) => values,
        None => Seq::empty(),
    }
}

/// What is listed of the loaded prompts: all of them, or with tags given
/// those that have all the tags.
pub open spec fn listing_of(loaded: Seq<PromptView>, tags: Option<Seq<Seq<char>>>) -> Seq<
    PromptView,
> {
    match tags {
        Some(wanted) => loaded.filter(acceptance(Seq::empty(), wanted, Seq::empty())),
        None => loaded,
    }
}

/// What is shown of the loaded prompts: those that match the query and
/// have all the tags.
pub open spec fn showing_of(
    loaded: Seq<PromptView>,
    query: Seq<char>,
    tags: Option<Seq<Seq<char>>>,
) -> Seq<PromptView> {
    loaded.filter(acceptance(query, filter_of(tags), Seq::empty()))
}

/// The records that pass a query and both filters.
pub open spec fn selected(
    records: Records,
    query: Seq<char>,
    tags: Seq<Seq<char>>,
    categories: Seq<Seq<char>>,
) -> Records {
    records.restrict(Set::new(|k: Seq<char>| accepted(records[k], query, tags, categories)))
}

/// The records after the record under `hash` is edited: the old record
/// leaves and the edited one is saved. Without such a record nothing changes.
pub open spec fn after_edit(
    records: Records,
    hash: Seq<char>,
    new_text: Option<Seq<char>>,
    add_tags: Option<Seq<Seq<char>>>,
    remove_tags: Option<Seq<Seq<char>>>,
    add_categories: Option<Seq<Seq<char>>>,
    remove_categories: Option<Seq<Seq<char>>>,
) -> Records {
    if records.contains_key(hash) {
        saved(
            records.remove(hash),
            edited(
                records[hash],
                new_text,
                add_tags,
                remove_tags,
                add_categories,
                remove_categories,
            ),
        )
    } else {
        records
    }
}

/// The changes of a plan as a slice.
fn changes_of(plan: &Vec<Change>) -> (changes: &[Change])
    ensures
        changes.deep_view() == plan.deep_view(),
{
    let changes = plan.as_slice();
    assert(changes.deep_view() =~= plan.deep_view());
    changes
}

/// Decides what adding a prompt does, given the prompts that were loaded.
pub fn plan_add(loaded: &[Prompt], prompt: &Prompt) -> (plan: Vec<Change>)
    ensures
        plan.deep_view() == add_plan(loaded.deep_view(), prompt@),
{
    let mut plan: Vec<Change> = Vec::new();
    if !has_hash(loaded, prompt.hash.as_str()) {
        plan.push(Change::Save(prompt.duplicate()));
    }
    assert(plan.deep_view() =~= add_plan(loaded.deep_view(), prompt@));
    plan
}

/// Decides what an edit does, given the prompts that were loaded.
pub fn plan_edit(
    loaded: &[Prompt],
    hash: &str,
    new_text: &Option<String>,
    add_tags: &Option<Vec<String>>,
    remove_tags: &Option<Vec<String>>,
    add_categories: &Option<Vec<String>>,
    remove_categories: &Option<Vec<String>>,
) -> (plan: Vec<Change>)
    ensures
        plan.deep_view() == edit_plan(
            loaded.deep_view(),
            hash@,
            new_text.deep_view(),
            add_tags.deep_view(),
            remove_tags.deep_view(),
            add_categories.deep_view(),
            remove_categories.deep_view(),
        ),
{
    let mut plan: Vec<Change> = Vec::new();
    match position_of(loaded, hash) {
        Some(at) => {
            let changed = edited_prompt(
                &loaded[at],
                new_text,
                add_tags,
                remove_tags,
                add_categories,
                remove_categories,
            );
            plan.push(Change::Delete(String::from_str(hash)));
            plan.push(Change::Save(changed));
            proof {
                let items = loaded.deep_view();
                let c = choose|i: int|
                    0 <= i < items.len() && (#[trigger] items[i]).hash == hash@ && forall|j: int|
                        0 <= j < i ==> (#[trigger] items[j]).hash != hash@;
                assert(c == at);
            }
        },
        None => {},
    }
    assert(plan.deep_view() =~= edit_plan(
        loaded.deep_view(),
        hash@,
        new_text.deep_view(),
        add_tags.deep_view(),
        remove_tags.deep_view(),
        add_categories.deep_view(),
        remove_categories.deep_view(),
    ));
    plan
}

/// Decides what deleting does.
pub fn plan_delete(hash: &str) -> (plan: Vec<Change>)
    ensures
        plan.deep_view() == delete_plan(hash@),
{
    let mut plan: Vec<Change> = Vec::new();
    plan.push(Change::Delete(String::from_str(hash)));
    assert(plan.deep_view() =~= delete_plan(hash@));
    plan
}

/// Picks what is listed of the loaded prompts.
pub fn listed(loaded: Vec<Prompt>, tags: &Option<Vec<String>>) -> (prompts: Vec<Prompt>)
    ensures
        prompts.deep_view() == listing_of(loaded.deep_view(), tags.deep_view()),
{
    match tags {
        Some(wanted) => {
            let none: Vec<String> = Vec::new();
            proof {
                reveal_strlit("");
                assert(""@ =~= Seq::<char>::empty());
                assert(none.deep_view() =~= Seq::<Seq<char>>::empty());
            }
            search_prompts(prompts_of(&loaded), "", texts_of(wanted), texts_of(&none))
        },
        None => loaded,
    }
}

/// Picks what is shown of the loaded prompts.
pub fn shown(loaded: &[Prompt], query: &str, tags: &Option<Vec<String>>) -> (prompts: Vec<Prompt>)
    ensures
        prompts.deep_view() == showing_of(loaded.deep_view(), query@, tags.deep_view()),
{
    let none: Vec<String> = Vec::new();
    assert(none.deep_view() =~= Seq::<Seq<char>>::empty());
    match tags {
        Some(wanted) => search_prompts(loaded, query, texts_of(wanted), texts_of(&none)),
        None => search_prompts(loaded, query, texts_of(&none), texts_of(&none)),
    }
}

/// What passes a predicate out of a sequence of prompts with different
/// identifiers: prompts of the sequence that pass, with different
/// identifiers, and all of those that pass.
pub proof fn lemma_filter_distinct(items: Seq<PromptView>, pass: spec_fn(PromptView) -> bool)
    requires
        distinct(items),
    ensures
        distinct(items.filter(pass)),
        forall|i: int|
            0 <= i < items.filter(pass).len() ==> pass(#[trigger] items.filter(pass)[i])
                && items.contains(items.filter(pass)[i]),
        forall|j: int|
            0 <= j < items.len() && pass(#[trigger] items[j]) ==> items.filter(pass).contains(
                items[j],
            ),
    decreases items.len(),
{
    reveal(Seq::filter);
    if items.len() > 0 {
        let front = items.drop_last();
        let last = items.last();
        lemma_filter_distinct(front, pass);
        let kept = items.filter(pass);
        let before = front.filter(pass);
        assert forall|i: int| 0 <= i < kept.len() implies pass(#[trigger] kept[i])
            && items.contains(kept[i]) by {
            if i < before.len() {
                assert(kept[i] == before[i]);
                assert(front.contains(before[i]));
                let k = choose|k: int| 0 <= k < front.len() && front[k] == before[i];
                assert(items[k] == kept[i]);
            } else {
                assert(kept[i] == last);
                assert(items[items.len() - 1] == last);
            }
        }
        assert forall|j: int| 0 <= j < items.len() && pass(#[trigger] items[j]) implies kept.contains(
            items[j],
        ) by {
            if j < front.len() {
                assert(front[j] == items[j]);
                assert(before.contains(front[j]));
                let k = choose|k: int| 0 <= k < before.len() && before[k] == front[j];
                assert(kept[k] == items[j]);
            } else {
                assert(kept[kept.len() - 1] == items[j]);
            }
        }
        assert forall|i: int, j: int| 0 <= i < j < kept.len() implies (#[trigger] kept[i]).hash != (
        #[trigger] kept[j]).hash by {
            if j < before.len() {
                assert(kept[i] == before[i] && kept[j] == before[j]);
            } else {
                assert(kept[j] == last);
                assert(kept[i] == before[i]);
                assert(front.contains(before[i]));
                let k = choose|k: int| 0 <= k < front.len() && front[k] == before[i];
                assert(items[k] == kept[i]);
                assert(items[k].hash != items[items.len() - 1].hash);
            }
        }
    }
}

/// Searching a listing of the records lists the selected records.
pub proof fn lemma_search_listing(
    items: Seq<PromptView>,
    records: Records,
    query: Seq<char>,
    tags: Seq<Seq<char>>,
    categories: Seq<Seq<char>>,
)
    requires
        is_listing(items, records),
    ensures
        is_listing(
            items.filter(acceptance(query, tags, categories)),
            selected(records, query, tags, categories),
        ),
{
    let pass = acceptance(query, tags, categories);
    let found = items.filter(pass);
    let chosen = selected(records, query, tags, categories);
    lemma_filter_distinct(items, pass);
    assert forall|i: int| 0 <= i < found.len() implies chosen.contains_key(
        (#[trigger] found[i]).hash,
    ) && chosen[found[i].hash] == found[i] by {
        assert(pass(found[i]));
        assert(items.contains(found[i]));
        let k = choose|k: int| 0 <= k < items.len() && items[k] == found[i];
        assert(records[items[k].hash] == items[k]);
    }
    assert forall|k: Seq<char>| #[trigger] chosen.contains_key(k) implies exists|i: int|
        0 <= i < found.len() && (#[trigger] found[i]).hash == k by {
        assert(records.contains_key(k));
        let j = choose|j: int| 0 <= j < items.len() && (#[trigger] items[j]).hash == k;
        assert(records[items[j].hash] == items[j]);
        assert(pass(items[j]));
        assert(found.contains(items[j]));
        let i = choose|i: int| 0 <= i < found.len() && found[i] == items[j];
        assert(found[i].hash == k);
    }
}

/// A listing holds a prompt with an identifier exactly when the store
/// holds a record under it, and then the first such prompt is that record.
pub proof fn lemma_listing_finds(loaded: Seq<PromptView>, records: Records, hash: Seq<char>)
    requires
        is_listing(loaded, records),
    ensures
        lists_hash(loaded, hash) == records.contains_key(hash),
        records.contains_key(hash) ==> first_with(loaded, hash) == records[hash],
{
    if lists_hash(loaded, hash) {
        let i = choose|i: int| 0 <= i < loaded.len() && (#[trigger] loaded[i]).hash == hash;
        assert(records.contains_key(loaded[i].hash));
        assert forall|j: int| 0 <= j < i implies (#[trigger] loaded[j]).hash != hash by {
            assert(loaded[j].hash != loaded[i].hash);
        }
        let c = choose|c: int|
            0 <= c < loaded.len() && (#[trigger] loaded[c]).hash == hash && forall|j: int|
                0 <= j < c ==> (#[trigger] loaded[j]).hash != hash;
        assert(records[loaded[c].hash] == loaded[c]);
    }
}

/// Carried out on the store that was loaded, the plan for adding saves the
/// prompt.
pub proof fn lemma_add_plan(loaded: Seq<PromptView>, records: Records, prompt: PromptView)
    requires
        is_listing(loaded, records),
    ensures
        applied(records, add_plan(loaded, prompt)) == saved(records, prompt),
        add_plan(loaded, prompt).len() > 0 <==> !records.contains_key(prompt.hash),
{
    lemma_listing_finds(loaded, records, prompt.hash);
    let plan = add_plan(loaded, prompt);
    if plan.len() > 0 {
        assert(plan.drop_last() =~= Seq::<ChangeView>::empty());
        assert(applied(records, plan.drop_last()) == records);
    }
}

/// Carried out on the store that was loaded, the plan for an edit makes
/// the edit.
pub proof fn lemma_edit_plan(
    loaded: Seq<PromptView>,
    records: Records,
    hash: Seq<char>,
    new_text: Option<Seq<char>>,
    add_tags: Option<Seq<Seq<char>>>,
    remove_tags: Option<Seq<Seq<char>>>,
    add_categories: Option<Seq<Seq<char>>>,
    remove_categories: Option<Seq<Seq<char>>>,
)
    requires
        is_listing(loaded, records),
    ensures
        applied(
            records,
            edit_plan(
                loaded,
                hash,
                new_text,
                add_tags,
                remove_tags,
                add_categories,
                remove_categories,
            ),
        ) == after_edit(
            records,
            hash,
            new_text,
            add_tags,
            remove_tags,
            add_categories,
            remove_categories,
        ),
{
    lemma_listing_finds(loaded, records, hash);
    let plan = edit_plan(
        loaded,
        hash,
        new_text,
        add_tags,
        remove_tags,
        add_categories,
        remove_categories,
    );
    if plan.len() > 0 {
        let first = plan.drop_last();
        assert(first.len() == 1);
        assert(first.drop_last() =~= Seq::<ChangeView>::empty());
        assert(applied(records, first.drop_last()) == records);
        assert(first.last() == ChangeView::Delete(hash));
        assert(applied(records, first) == records.remove(hash));
    }
}

/// The repository: the operations of the application on a store.
pub struct Prompts<S: Storage> {
    storage: S,
}

impl<S: Storage> View for Prompts<S> {
    type V = Records;

    closed spec fn view(&self) -> Records {
        self.storage.records()
    }
}

impl<S: Storage> Prompts<S> {
    /// Whether no call on the store behind the repository fails.
    pub closed spec fn dependable(&self) -> bool {
        self.storage.dependable()
    }

    /// A repository on the given store.
    pub fn new(storage: S) -> (api: Self)
        ensures
            api@ == storage.records(),
            api.dependable() == storage.dependable(),
    {
        Prompts { storage }
    }

    /// Makes the changes of a plan in their order and stops at the first
    /// that fails: the changes before it are then made, and no other.
    pub fn carry_out(&mut self, plan: &[Change]) -> (outcome: Result<(), AppError>)
        ensures
            final(self).dependable() == old(self).dependable(),
            old(self).dependable() ==> outcome is Ok,
            outcome is Ok ==> final(self)@ == applied(old(self)@, plan.deep_view()),
            outcome is Err ==> exists|made: int|
                0 <= made < plan.len() && final(self)@ == applied(
                    old(self)@,
                    #[trigger] plan.deep_view().subrange(0, made),
                ),
    {
        let ghost all = plan.deep_view();
        let ghost start = self@;
        let mut i: usize = 0;
        assert(all.subrange(0, 0) =~= Seq::<ChangeView>::empty());
        while i < plan.len()
            invariant
                i <= plan.len(),
                all == plan.deep_view(),
                start == old(self)@,
                self.dependable() == old(self).dependable(),
                self@ == applied(start, all.subrange(0, i as int)),
            decreases plan.len() - i,
        {
            proof {
                let next = all.subrange(0, i as int + 1);
                assert(next.drop_last() =~= all.subrange(0, i as int));
                assert(next.last() == all[i as int]);
            }
            let outcome = match &plan[i] {
                Change::Save(prompt) => {
                    let mut copy = prompt.duplicate();
                    self.storage.save_prompt(&mut copy)
                },
                Change::Delete(hash) => self.storage.delete_prompt(hash.as_str()),
            };
            match outcome {
                Ok(()) => {},
                Err(error) => {
                    assert(self@ == applied(old(self)@, plan.deep_view().subrange(0, i as int)));
                    return Err(error);
                },
            }
            i += 1;
        }
        assert(all.subrange(0, i as int) =~= all);
        Ok(())
    }

    /// Saves the prompt unless a record with its identifier exists. Returns
    /// whether it was saved.
    pub fn add_prompt(&mut self, prompt: &mut Prompt) -> (outcome: Result<bool, AppError>)
        ensures
            *final(prompt) == *old(prompt),
            final(self).dependable() == old(self).dependable(),
            old(self).dependable() ==> outcome is Ok,
            outcome matches Ok(added) ==> added == !old(self)@.contains_key(old(prompt)@.hash)
                && final(self)@ == saved(old(self)@, old(prompt)@),
            outcome is Err ==> final(self)@ == old(self)@,
    {
        let loaded = match self.storage.load_prompts() {
            Ok(loaded) => loaded,
            Err(error) => {
                return Err(error);
            },
        };
        let plan = plan_add(prompts_of(&loaded), prompt);
        proof {
            lemma_add_plan(loaded.deep_view(), self@, prompt@);
        }
        let added = plan.len() > 0;
        let ghost before = self@;
        match self.carry_out(changes_of(&plan)) {
            Ok(()) => Ok(added),
            Err(error) => {
                proof {
                    let steps = plan.deep_view();
                    let made = choose|made: int|
                        0 <= made < steps.len() && self@ == applied(
                            before,
                            #[trigger] steps.subrange(0, made),
                        );
                    assert(steps.subrange(0, made) =~= Seq::<ChangeView>::empty());
                }
                Err(error)
            },
        }
    }

    /// Lists the records; with tags given, those that have all of them.
    pub fn list_prompts(&self, tags: Option<Vec<String>>) -> (outcome: Result<Vec<Prompt>, AppError>)
        ensures
            self.dependable() ==> outcome is Ok,
            outcome matches Ok(prompts) ==> match tags {
                Some(wanted) => is_listing(
                    prompts.deep_view(),
                    selected(self@, Seq::empty(), wanted.deep_view(), Seq::empty()),
                ),
                None => is_listing(prompts.deep_view(), self@),
            },
    {
        let loaded = match self.storage.load_prompts() {
            Ok(loaded) => loaded,
            Err(error) => {
                return Err(error);
            },
        };
        proof {
            lemma_search_listing(
                loaded.deep_view(),
                self@,
                Seq::empty(),
                filter_of(tags.deep_view()),
                Seq::empty(),
            );
        }
        Ok(listed(loaded, &tags))
    }

    /// Lists the records that match the query and have all the given tags.
    pub fn show_prompt(&self, query: &str, tags: Option<Vec<String>>) -> (outcome: Result<
        Vec<Prompt>,
        AppError,
    >)
        ensures
            self.dependable() ==> outcome is Ok,
            outcome matches Ok(prompts) ==> is_listing(
                prompts.deep_view(),
                selected(self@, query@, filter_of(tags.deep_view()), Seq::empty()),
            ),
    {
        let loaded = match self.storage.load_prompts() {
            Ok(loaded) => loaded,
            Err(error) => {
                return Err(error);
            },
        };
        proof {
            lemma_search_listing(
                loaded.deep_view(),
                self@,
                query@,
                filter_of(tags.deep_view()),
                Seq::empty(),
            );
        }
        Ok(shown(prompts_of(&loaded), query, &tags))
    }

    /// Edits the record under `hash`: replaces its content where a new text
    /// is given, merges tags and categories, deletes the old record and saves
    /// the edited one. Without such a record nothing is done.
    pub fn edit_prompt(
        &mut self,
        hash: &str,
        new_text: Option<String>,
        add_tags: Option<Vec<String>>,
        remove_tags: Option<Vec<String>>,
        add_categories: Option<Vec<String>>,
        remove_categories: Option<Vec<String>>,
    ) -> (outcome: Result<(), AppError>)
        ensures
            final(self).dependable() == old(self).dependable(),
            old(self).dependable() ==> outcome is Ok,
            outcome is Ok ==> final(self)@ == after_edit(
                old(self)@,
                hash@,
                new_text.deep_view(),
                add_tags.deep_view(),
                remove_tags.deep_view(),
                add_categories.deep_view(),
                remove_categories.deep_view(),
            ),
            outcome is Err ==> final(self)@ == old(self)@ || final(self)@ == old(self)@.remove(hash@),
    {
        let loaded = match self.storage.load_prompts() {
            Ok(loaded) => loaded,
            Err(error) => {
                return Err(error);
            },
        };
        let plan = plan_edit(
            prompts_of(&loaded),
            hash,
            &new_text,
            &add_tags,
            &remove_tags,
            &add_categories,
            &remove_categories,
        );
        proof {
            lemma_listing_finds(loaded.deep_view(), self@, hash@);
            lemma_edit_plan(
                loaded.deep_view(),
                self@,
                hash@,
                new_text.deep_view(),
                add_tags.deep_view(),
                remove_tags.deep_view(),
                add_categories.deep_view(),
                remove_categories.deep_view(),
            );
        }
        let ghost before = self@;
        let outcome = self.carry_out(changes_of(&plan));
        proof {
            if outcome is Err {
                let steps = plan.deep_view();
                let made = choose|made: int|
                    0 <= made < steps.len() && self@ == applied(
                        before,
                        #[trigger] steps.subrange(0, made),
                    );
                let done = steps.subrange(0, made);
                if made == 0 {
                    assert(done =~= Seq::<ChangeView>::empty());
                } else {
                    assert(made == 1);
                    assert(done.drop_last() =~= Seq::<ChangeView>::empty());
                    assert(applied(before, done.drop_last()) == before);
                    assert(done.last() == ChangeView::Delete(hash@));
                }
            }
        }
        outcome
    }

    /// Deletes the record under `hash`, if there is one.
    pub fn delete_prompt(&mut self, hash: &str) -> (outcome: Result<(), AppError>)
        ensures
            final(self).dependable() == old(self).dependable(),
            old(self).dependable() ==> outcome is Ok,
            outcome is Ok ==> final(self)@ == old(self)@.remove(hash@),
            outcome is Err ==> final(self)@ == old(self)@,
    {
        let plan = plan_delete(hash);
        proof {
            let steps = delete_plan(hash@);
            assert(steps.drop_last() =~= Seq::<ChangeView>::empty());
            assert(applied(self@, steps.drop_last()) == self@);
        }
        let ghost before = self@;
        let outcome = self.carry_out(changes_of(&plan));
        proof {
            if outcome is Err {
                let steps = plan.deep_view();
                let made = choose|made: int|
                    0 <= made < steps.len() && self@ == applied(
                        before,
                        #[trigger] steps.subrange(0, made),
                    );
                assert(steps.subrange(0, made) =~= Seq::<ChangeView>::empty());
            }
        }
        outcome
    }
}

} // verus!
