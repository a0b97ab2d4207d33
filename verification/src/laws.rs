//! What holds of the repository whatever the store and the inputs: each law
//! is stated over the model that the contracts of the operations use, and
//! proved.

use crate::digest::content_digest;
use crate::edit::{arranged, edited, kept, merged, values_of};
use crate::prompt::PromptView;
use crate::repository::after_edit;
use crate::search::{acceptance, fuzzy_matches, holds_all};
use crate::storage::{
    distinct, indexed, is_listing, keyed, lemma_indexed_push, lemma_listing_indexed, saved, Records,
};
use crate::template::{is_plain, opens_block, plain_from, rendered, rendered_from};
use crate::text::{ascending, lemma_text_order, text_lt};
use crate::transfer::{file_name_of, imported};
use vstd::prelude::*;

verus! {

/// A prompt made of any content, added to an empty store and then listed:
/// the listing holds exactly one record, that prompt, and its identifier is
/// the digest of the content.
pub proof fn law_add_then_list(
    content: Seq<char>,
    tags: Option<Seq<Seq<char>>>,
    categories: Option<Seq<Seq<char>>>,
    listing: Seq<PromptView>,
)
    requires
        is_listing(listing, saved(Records::empty(), PromptView::fresh(content, tags, categories))),
    ensures
        !Records::empty().contains_key(PromptView::fresh(content, tags, categories).hash),
        listing.len() == 1,
        listing[0] == PromptView::fresh(content, tags, categories),
        listing[0].hash == content_digest(content),
{
    let prompt = PromptView::fresh(content, tags, categories);
    let records = saved(Records::empty(), prompt);
    assert(records.contains_key(prompt.hash));
    let i = choose|i: int| 0 <= i < listing.len() && (#[trigger] listing[i]).hash == prompt.hash;
    assert(listing[i].hash == prompt.hash);
    if listing.len() > 1 {
        assert(records.contains_key(listing[0].hash));
        assert(records.contains_key(listing[1].hash));
        assert(listing[0].hash != listing[1].hash);
    }
    assert(records[listing[0].hash] == listing[0]);
}

/// A second prompt with the content of one that was added is a duplicate,
/// whatever its tags and categories: the store holds its identifier, and
/// saving it changes nothing. On a store that was empty exactly one record
/// is there.
pub proof fn law_add_twice(
    records: Records,
    content: Seq<char>,
    tags: Option<Seq<Seq<char>>>,
    categories: Option<Seq<Seq<char>>>,
    other_tags: Option<Seq<Seq<char>>>,
    other_categories: Option<Seq<Seq<char>>>,
)
    ensures
        ({
            let first = PromptView::fresh(content, tags, categories);
            let second = PromptView::fresh(content, other_tags, other_categories);
            let once = saved(records, first);
            &&& once.contains_key(second.hash)
            &&& saved(once, second) == once
            &&& records == Records::empty() ==> once.dom() == set![content_digest(content)]
                && once[content_digest(content)] == first
        }),
{
    let first = PromptView::fresh(content, tags, categories);
    let once = saved(records, first);
    if records == Records::empty() {
        assert(once.dom() =~= set![content_digest(content)]);
    }
}

/// An edit that gives the record a text with another digest: the record
/// leaves its old identifier, a record stands under the digest of the new
/// text, which is the edited record where that identifier was free, and
/// every other record stays as it was.
pub proof fn law_edit_replaces(
    records: Records,
    hash: Seq<char>,
    text: Seq<char>,
    add_tags: Option<Seq<Seq<char>>>,
    remove_tags: Option<Seq<Seq<char>>>,
    add_categories: Option<Seq<Seq<char>>>,
    remove_categories: Option<Seq<Seq<char>>>,
)
    requires
        records.contains_key(hash),
        content_digest(text) != hash,
    ensures
        ({
            let after = after_edit(
                records,
                hash,
                Some(text),
                add_tags,
                remove_tags,
                add_categories,
                remove_categories,
            );
            let changed = edited(
                records[hash],
                Some(text),
                add_tags,
                remove_tags,
                add_categories,
                remove_categories,
            );
            &&& !after.contains_key(hash)
            &&& after.contains_key(content_digest(text))
            &&& changed.content == text
            &&& changed.hash == content_digest(text)
            &&& !records.contains_key(content_digest(text)) ==> after[content_digest(text)]
                == changed
            &&& forall|k: Seq<char>|
                k != hash && k != content_digest(text) ==> (after.contains_key(k)
                    <==> records.contains_key(k)) && (records.contains_key(k) ==> after[k]
                    == records[k])
        }),
{
}

/// An edit without a new text keeps the content and the identifier of the
/// record, and every other record.
pub proof fn law_edit_in_place(
    records: Records,
    hash: Seq<char>,
    add_tags: Option<Seq<Seq<char>>>,
    remove_tags: Option<Seq<Seq<char>>>,
    add_categories: Option<Seq<Seq<char>>>,
    remove_categories: Option<Seq<Seq<char>>>,
)
    requires
        keyed(records),
        records.contains_key(hash),
    ensures
        ({
            let after = after_edit(
                records,
                hash,
                None,
                add_tags,
                remove_tags,
                add_categories,
                remove_categories,
            );
            &&& after.dom() == records.dom()
            &&& after[hash].content == records[hash].content
            &&& after[hash].hash == hash
            &&& after[hash].tags == Some(merged(values_of(records[hash].tags), add_tags, remove_tags))
            &&& after[hash].categories == Some(
                merged(values_of(records[hash].categories), add_categories, remove_categories),
            )
            &&& forall|k: Seq<char>| k != hash && records.contains_key(k) ==> after[k] == records[k]
        }),
{
    let after = after_edit(
        records,
        hash,
        None,
        add_tags,
        remove_tags,
        add_categories,
        remove_categories,
    );
    assert(records[hash].hash == hash);
    assert(after.dom() =~= records.dom());
}

/// What passes a predicate out of a sequence are the elements of the
/// sequence of which the predicate holds.
pub proof fn lemma_filter_members<A>(s: Seq<A>, pass: spec_fn(A) -> bool)
    ensures
        forall|x: A| #[trigger] s.filter(pass).contains(x) <==> s.contains(x) && pass(x),
{
    assert forall|x: A| #[trigger] s.filter(pass).contains(x) <==> s.contains(x) && pass(x) by {
        let found = s.filter(pass);
        if found.contains(x) {
            let i = choose|i: int| 0 <= i < found.len() && found[i] == x;
            s.lemma_filter_pred(pass, i);
            s.lemma_filter_contains_rev(pass, x);
        }
        if s.contains(x) && pass(x) {
            let j = choose|j: int| 0 <= j < s.len() && s[j] == x;
            s.lemma_filter_contains(pass, j);
        }
    }
}

/// A text can be put into any ascending sequence.
proof fn lemma_insert_exists(a: Seq<Seq<char>>, x: Seq<char>)
    requires
        ascending(a),
    ensures
        exists|b: Seq<Seq<char>>| ascending(b) && b.to_set() == a.to_set().insert(x),
    decreases a.len(),
{
    if a.len() == 0 {
        let b = seq![x];
        assert(b.to_set() =~= a.to_set().insert(x)) by {
            assert forall|t: Seq<char>| b.contains(t) <==> t == x by {
                if t == x {
                    assert(b[0] == t);
                }
            }
        }
        assert(ascending(b));
    } else {
        let last = a.last();
        let front = a.drop_last();
        lemma_text_order(last, x, last);
        assert(a =~= front.push(last));
        front.lemma_push_to_set_commute(last);
        if last == x {
            assert(a.contains(x)) by {
                assert(a[a.len() - 1] == x);
            }
            assert(a.to_set() =~= a.to_set().insert(x));
        } else if text_lt(last, x) {
            let b = a.push(x);
            a.lemma_push_to_set_commute(x);
            assert forall|i: int, j: int| 0 <= i < j < b.len() implies text_lt(b[i], b[j]) by {
                if j < a.len() {
                    assert(text_lt(a[i], a[j]));
                } else if i < a.len() - 1 {
                    assert(text_lt(a[i], a[a.len() - 1]));
                    lemma_text_order(a[i], last, x);
                }
            }
            assert(ascending(b));
        } else {
            assert(ascending(front));
            lemma_insert_exists(front, x);
            let inner = choose|b: Seq<Seq<char>>|
                ascending(b) && b.to_set() == front.to_set().insert(x);
            let b = inner.push(last);
            inner.lemma_push_to_set_commute(last);
            assert(b.to_set() =~= a.to_set().insert(x));
            assert forall|i: int, j: int| 0 <= i < j < b.len() implies text_lt(b[i], b[j]) by {
                if j < inner.len() {
                    assert(text_lt(inner[i], inner[j]));
                } else {
                    assert(inner.contains(inner[i]));
                    assert(inner.to_set().contains(inner[i]));
                    if inner[i] != x {
                        assert(front.to_set().contains(inner[i]));
                        assert(front.contains(inner[i]));
                        let k = choose|k: int| 0 <= k < front.len() && front[k] == inner[i];
                        assert(text_lt(a[k], a[a.len() - 1]));
                    }
                }
            }
            assert(ascending(b));
        }
    }
}

/// The elements of any sequence of texts have an ascending arrangement.
pub proof fn lemma_arranged(s: Seq<Seq<char>>)
    ensures
        ascending(arranged(s.to_set())),
        arranged(s.to_set()).to_set() == s.to_set(),
    decreases s.len(),
{
    if s.len() == 0 {
        let none = Seq::<Seq<char>>::empty();
        assert(none.to_set() =~= s.to_set());
        assert(ascending(none));
    } else {
        let front = s.drop_last();
        lemma_arranged(front);
        lemma_insert_exists(arranged(front.to_set()), s.last());
        assert(s =~= front.push(s.last()));
        front.lemma_push_to_set_commute(s.last());
    }
}

/// The values of a record after an edit are the existing and the added
/// values without the removed ones: a value that the edit does not name
/// stays, an added one is there unless it is removed too, a removed one is
/// gone.
pub proof fn law_edit_merges(
    existing: Seq<Seq<char>>,
    add: Option<Seq<Seq<char>>>,
    remove: Option<Seq<Seq<char>>>,
)
    ensures
        forall|t: Seq<char>| #[trigger]
            merged(existing, add, remove).contains(t) <==> (existing.contains(t) || values_of(
                add,
            ).contains(t)) && !values_of(remove).contains(t),
{
    let base = match add {
        Some(added) => arranged((existing + added).to_set()),
        None => existing,
    };
    assert forall|t: Seq<char>| base.contains(t) <==> existing.contains(t) || values_of(
        add,
    ).contains(t) by {
        match add {
            Some(added) => {
                lemma_arranged(existing + added);
                vstd::seq_lib::seq_to_set_distributes_over_add(existing, added);
                assert(base.to_set().contains(t) <==> base.contains(t));
                assert(existing.to_set().contains(t) <==> existing.contains(t));
                assert(added.to_set().contains(t) <==> added.contains(t));
            },
            None => {
                assert(!Seq::<Seq<char>>::empty().contains(t));
            },
        }
    }
    match remove {
        Some(removed) => {
            lemma_filter_members(base, kept(removed));
        },
        None => {
            assert forall|t: Seq<char>| !Seq::<Seq<char>>::empty().contains(t) by {}
        },
    }
}

/// Deleting takes out the record under the identifier and no other; where
/// no record stands under it, the store stays as it is.
pub proof fn law_delete(records: Records, hash: Seq<char>)
    ensures
        !records.remove(hash).contains_key(hash),
        forall|k: Seq<char>|
            k != hash ==> (records.remove(hash).contains_key(k) <==> records.contains_key(k)) && (
            records.contains_key(k) ==> records.remove(hash)[k] == records[k]),
        !records.contains_key(hash) ==> records.remove(hash) == records,
{
    if !records.contains_key(hash) {
        assert(records.remove(hash) =~= records);
    }
}

/// A search with an empty query and no filters finds every prompt.
pub proof fn law_search_everything(prompts: Seq<PromptView>)
    ensures
        prompts.filter(acceptance(Seq::empty(), Seq::empty(), Seq::empty())) == prompts,
    decreases prompts.len(),
{
    reveal(Seq::filter);
    let pass = acceptance(Seq::empty(), Seq::empty(), Seq::empty());
    if prompts.len() > 0 {
        law_search_everything(prompts.drop_last());
        assert(pass(prompts.last()));
        assert(prompts.drop_last().push(prompts.last()) =~= prompts);
    }
}

/// A search finds the prompts that pass the query and the filters, and no
/// others; each prompt found has every tag and every category asked for.
pub proof fn law_search_filters(
    prompts: Seq<PromptView>,
    query: Seq<char>,
    tags: Seq<Seq<char>>,
    categories: Seq<Seq<char>>,
)
    ensures
        forall|p: PromptView| #[trigger]
            prompts.filter(acceptance(query, tags, categories)).contains(p) ==> prompts.contains(p)
                && holds_all(p.tags, tags) && holds_all(p.categories, categories) && (query.len()
                == 0 || fuzzy_matches(p.content, query)),
        forall|p: PromptView|
            prompts.contains(p) && holds_all(p.tags, tags) && holds_all(p.categories, categories)
                && (query.len() == 0 || fuzzy_matches(p.content, query)) ==> #[trigger] prompts.filter(
                acceptance(query, tags, categories),
            ).contains(p),
        forall|p: PromptView, j: int| #[trigger]
            prompts.filter(acceptance(query, tags, categories)).contains(p) && 0 <= j < tags.len()
                ==> p.tags is Some && p.tags->0.contains(#[trigger] tags[j]),
{
    lemma_filter_members(prompts, acceptance(query, tags, categories));
}

/// A query that matches the content of no prompt finds nothing.
pub proof fn law_search_unmatched(
    prompts: Seq<PromptView>,
    query: Seq<char>,
    tags: Seq<Seq<char>>,
    categories: Seq<Seq<char>>,
)
    requires
        forall|i: int| 0 <= i < prompts.len() ==> !fuzzy_matches((#[trigger] prompts[i]).content, query),
    ensures
        prompts.filter(acceptance(query, tags, categories)).len() == 0,
{
    let pass = acceptance(query, tags, categories);
    assert forall|i: int| 0 <= i < prompts.len() implies !pass(#[trigger] prompts[i]) by {
        assert(!fuzzy_matches(prompts[i].content, query));
        assert(query.len() > 0);
    }
    assert(prompts.all(|p: PromptView| !pass(p)));
    prompts.lemma_all_neg_filter_empty(pass);
}

/// Every record stands under its own identifier, which is the digest of its
/// content.
pub open spec fn content_addressed(records: Records) -> bool {
    forall|k: Seq<char>|
        records.contains_key(k) ==> (#[trigger] records[k]).hash == k
            && records[k].content_addressed()
}

/// The identifiers stay the digests of the contents: a store in which every
/// record stands under the digest of its content is such a store again after
/// a prompt made of any content was added, after any edit, and after any
/// record was deleted.
pub proof fn law_addressing_kept(
    records: Records,
    content: Seq<char>,
    tags: Option<Seq<Seq<char>>>,
    categories: Option<Seq<Seq<char>>>,
    hash: Seq<char>,
    new_text: Option<Seq<char>>,
    add_tags: Option<Seq<Seq<char>>>,
    remove_tags: Option<Seq<Seq<char>>>,
    add_categories: Option<Seq<Seq<char>>>,
    remove_categories: Option<Seq<Seq<char>>>,
)
    requires
        content_addressed(records),
    ensures
        content_addressed(saved(records, PromptView::fresh(content, tags, categories))),
        content_addressed(
            after_edit(
                records,
                hash,
                new_text,
                add_tags,
                remove_tags,
                add_categories,
                remove_categories,
            ),
        ),
        content_addressed(records.remove(hash)),
{
    let after = after_edit(
        records,
        hash,
        new_text,
        add_tags,
        remove_tags,
        add_categories,
        remove_categories,
    );
    if records.contains_key(hash) {
        assert(records[hash].hash == hash);
        assert(content_addressed(records.remove(hash)));
    }
}

/// Different identifiers give different file names, so that the files of an
/// export stand for the records one for one.
pub proof fn law_file_names_differ(a: Seq<char>, b: Seq<char>)
    requires
        file_name_of(a) == file_name_of(b),
    ensures
        a == b,
{
    let ending = ".json"@;
    assert(file_name_of(a).len() == a.len() + ending.len());
    assert(file_name_of(b).len() == b.len() + ending.len());
    assert forall|i: int| 0 <= i < a.len() implies a[i] == b[i] by {
        assert(file_name_of(a)[i] == a[i]);
        assert(file_name_of(b)[i] == b[i]);
    }
    assert(a =~= b);
}

/// From a position on from which a text holds no opening brace, the text is
/// plain and renders to itself.
proof fn lemma_text_renders_from(text: Seq<char>, at: int, values: Map<Seq<char>, Seq<char>>)
    requires
        0 <= at <= text.len(),
        forall|i: int| at <= i < text.len() ==> text[i] != '{',
    ensures
        plain_from(text, at),
        rendered_from(text, at, values) == Some(text.subrange(at, text.len() as int)),
    decreases text.len() - at,
{
    if at < text.len() {
        lemma_text_renders_from(text, at + 1, values);
        assert(!opens_block(text, at));
        assert(seq![text[at]] + text.subrange(at + 1, text.len() as int) =~= text.subrange(
            at,
            text.len() as int,
        ));
    } else {
        assert(text.subrange(at, text.len() as int) =~= Seq::<char>::empty());
    }
}

/// A text without an opening brace is a plain template, and it renders to
/// itself whatever values are given.
pub proof fn law_text_renders_as_it_is(text: Seq<char>, values: Map<Seq<char>, Seq<char>>)
    requires
        forall|i: int| 0 <= i < text.len() ==> text[i] != '{',
    ensures
        is_plain(text),
        rendered(text, values) == Some(text),
{
    lemma_text_renders_from(text, 0, values);
    assert(text.subrange(0, text.len() as int) =~= text);
}

/// Adding the prompts of a sequence with different identifiers to an empty
/// store gives the records that the sequence holds.
proof fn lemma_imported_indexed(items: Seq<PromptView>)
    requires
        distinct(items),
    ensures
        imported(Records::empty(), items) == indexed(items),
    decreases items.len(),
{
    if items.len() == 0 {
        assert(indexed(items) =~= Records::empty());
    } else {
        let front = items.drop_last();
        let last = items.last();
        assert forall|i: int, j: int| 0 <= i < j < front.len() implies (#[trigger] front[i]).hash != (
        #[trigger] front[j]).hash by {
            assert(front[i] == items[i] && front[j] == items[j]);
        }
        lemma_imported_indexed(front);
        if indexed(front).contains_key(last.hash) {
            let i = choose|i: int| 0 <= i < front.len() && (#[trigger] front[i]).hash == last.hash;
            assert(items[i].hash != items[items.len() - 1].hash);
        }
        lemma_indexed_push(front, last);
        assert(front.push(last) =~= items);
    }
}

/// The round trip: what a store lists, added to an empty store in the
/// order of the listing, gives a store with the same records.
pub proof fn law_round_trip(records: Records, listing: Seq<PromptView>)
    requires
        is_listing(listing, records),
    ensures
        imported(Records::empty(), listing) == records,
{
    lemma_listing_indexed(listing, records);
    lemma_imported_indexed(listing);
}

} // verus!
