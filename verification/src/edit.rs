//! Editing a prompt: replacing its content and merging additions and
//! removals into its tags and categories.

use crate::digest::{content_digest, digest_of};
use crate::prompt::{Prompt, PromptView};
use crate::text::{
    ascending, contains_text, copy_texts, lemma_ascending_distinct, lemma_text_order, rank,
    text_lt, texts_of, Rank,
};
use vstd::prelude::*;
use vstd::string::*;

verus! {

/// The texts of a finite set in ascending order, each once.
pub open spec fn arranged(values: Set<Seq<char>>) -> Seq<Seq<char>> {
    choose|s: Seq<Seq<char>>| ascending(s) && s.to_set() == values
}

/// The predicate that holds of the texts that do not occur in `removed`.
pub open spec fn kept(removed: Seq<Seq<char>>) -> spec_fn(Seq<char>) -> bool {
    |t: Seq<char>| !removed.contains(t)
}

/// The values of a record after an edit. With additions, the existing and
/// the added values are put together in ascending order, each once; without,
/// the existing values stay as they are. Then the values to remove leave.
pub open spec fn merged(
    existing: Seq<Seq<char>>,
    add: Option<Seq<Seq<char>>>,
    remove: Option<Seq<Seq<char>>>,
) -> Seq<Seq<char>> {
    let base = match add {
        Some(added) => arranged((existing + added).to_set()),
        None => existing,
    };
    match remove {
        Some(removed) => base.filter(kept(removed)),
        None => base,
    }
}

/// The values of an optional list, none where there is no list.
pub open spec fn values_of(list: Option<Seq<Seq<char>>>) -> Seq<Seq<char>> {
    match list {
        Some(values) => values,
        None => Seq::empty(),
    }
}

/// The prompt that an edit makes of `prompt`. A new text replaces the
/// content and the identifier; tags and categories are merged.
pub open spec fn edited(
    prompt: PromptView,
    new_text: Option<Seq<char>>,
    add_tags: Option<Seq<Seq<char>>>,
    remove_tags: Option<Seq<Seq<char>>>,
    add_categories: Option<Seq<Seq<char>>>,
    remove_categories: Option<Seq<Seq<char>>>,
) -> PromptView {
    PromptView {
        content: match new_text {
            Some(text) => text,
            None => prompt.content,
        },
        tags: Some(merged(values_of(prompt.tags), add_tags, remove_tags)),
        categories: Some(merged(values_of(prompt.categories), add_categories, remove_categories)),
        hash: match new_text {
            Some(text) => content_digest(text),
            None => prompt.hash,
        },
    }
}

/// The last elements of two ascending sequences with the same elements are
/// the same.
proof fn lemma_ascending_same_last(a: Seq<Seq<char>>, b: Seq<Seq<char>>)
    requires
        ascending(a),
        ascending(b),
        a.to_set() == b.to_set(),
        a.len() > 0,
        b.len() > 0,
    ensures
        a.last() == b.last(),
{
    let x = a.last();
    let y = b.last();
    if x != y {
        assert(a.contains(x));
        assert(a.to_set().contains(x));
        assert(b.contains(x));
        let j = choose|j: int| 0 <= j < b.len() && b[j] == x;
        assert(j < b.len() - 1);
        assert(text_lt(b[j], b[b.len() - 1]));
        assert(b.contains(y));
        assert(b.to_set().contains(y));
        assert(a.contains(y));
        let i = choose|i: int| 0 <= i < a.len() && a[i] == y;
        assert(i < a.len() - 1);
        assert(text_lt(a[i], a[a.len() - 1]));
        lemma_text_order(x, y, x);
    }
}

/// Without its last element an ascending sequence holds all its elements but
/// that one.
proof fn lemma_ascending_drop_last(a: Seq<Seq<char>>)
    requires
        ascending(a),
        a.len() > 0,
    ensures
        ascending(a.drop_last()),
        a.drop_last().to_set() == a.to_set().remove(a.last()),
{
    let front = a.drop_last();
    lemma_ascending_distinct(a);
    assert forall|t: Seq<char>| front.to_set().contains(t) <==> a.to_set().remove(
        a.last(),
    ).contains(t) by {
        if front.contains(t) {
            let k = choose|k: int| 0 <= k < front.len() && front[k] == t;
            assert(a[k] == t);
            assert(a.contains(t));
        }
        if a.contains(t) && t != a.last() {
            let k = choose|k: int| 0 <= k < a.len() && a[k] == t;
            assert(front[k] == t);
            assert(front.contains(t));
        }
    }
    assert(front.to_set() =~= a.to_set().remove(a.last()));
}

/// A set of texts has at most one ascending arrangement.
pub proof fn lemma_ascending_unique(a: Seq<Seq<char>>, b: Seq<Seq<char>>)
    requires
        ascending(a),
        ascending(b),
        a.to_set() == b.to_set(),
    ensures
        a == b,
    decreases a.len(),
{
    if a.len() == 0 {
        if b.len() > 0 {
            assert(b.contains(b[0]));
            assert(b.to_set().contains(b[0]));
            assert(a.contains(b[0]));
        }
        assert(a =~= b);
    } else {
        assert(a.contains(a[0]));
        assert(a.to_set().contains(a[0]));
        assert(b.contains(a[0]));
        lemma_ascending_same_last(a, b);
        lemma_ascending_drop_last(a);
        lemma_ascending_drop_last(b);
        lemma_ascending_unique(a.drop_last(), b.drop_last());
        assert(a =~= a.drop_last().push(a.last()));
        assert(b =~= b.drop_last().push(b.last()));
    }
}

/// An ascending sequence is the arrangement of its elements.
pub proof fn lemma_ascending_is_arranged(s: Seq<Seq<char>>)
    requires
        ascending(s),
    ensures
        s == arranged(s.to_set()),
{
    let t = arranged(s.to_set());
    assert(ascending(t) && t.to_set() == s.to_set());
    lemma_ascending_unique(s, t);
}

/// Puts `item` into an ascending list at its place, unless it is there.
pub fn insert_ascending(list: &mut Vec<String>, item: String)
    requires
        ascending(old(list).deep_view()),
    ensures
        ascending(final(list).deep_view()),
        final(list).deep_view().to_set() == old(list).deep_view().to_set().insert(item@),
{
    let ghost before = list.deep_view();
    let mut i: usize = 0;
    let mut present = false;
    while i < list.len()
        invariant_except_break
            !present,
        invariant
            i <= list.len(),
            list.deep_view() == before,
            forall|j: int| 0 <= j < i ==> text_lt(before[j], item@),
        ensures
            present ==> i < list.len() && before[i as int] == item@,
            !present ==> (i == list.len() || text_lt(item@, before[i as int])),
        decreases list.len() - i,
    {
        match rank(list[i].as_str(), item.as_str()) {
            Rank::Before => {
                i += 1;
            },
            Rank::Same => {
                present = true;
                break ;
            },
            Rank::After => {
                break ;
            },
        }
    }
    if present {
        assert(before.contains(item@));
        assert(before.to_set().insert(item@) =~= before.to_set());
    } else {
        list.insert(i, item);
        proof {
            let after = list.deep_view();
            assert(after =~= before.insert(i as int, item@));
            assert forall|x: int, y: int| 0 <= x < y < after.len() implies text_lt(
                after[x],
                after[y],
            ) by {
                if y < i {
                    assert(text_lt(before[x], before[y]));
                } else if y == i {
                    assert(text_lt(before[x], item@));
                } else if x == i {
                    if y - 1 > i {
                        assert(text_lt(before[i as int], before[y - 1]));
                    }
                    lemma_text_order(item@, before[i as int], before[y - 1]);
                } else if x < i {
                    assert(text_lt(before[x], before[y - 1]));
                } else {
                    assert(text_lt(before[x - 1], before[y - 1]));
                }
            }
            assert forall|t: Seq<char>| after.to_set().contains(t) <==> before.to_set().insert(
                item@,
            ).contains(t) by {
                if after.contains(t) {
                    let k = choose|k: int| 0 <= k < after.len() && after[k] == t;
                    if k < i {
                        assert(before[k] == t);
                        assert(before.contains(t));
                    } else if k > i {
                        assert(before[k - 1] == t);
                        assert(before.contains(t));
                    }
                }
                if before.contains(t) {
                    let k = choose|k: int| 0 <= k < before.len() && before[k] == t;
                    if k < i {
                        assert(after[k] == t);
                    } else {
                        assert(after[k + 1] == t);
                    }
                    assert(after.contains(t));
                }
                if t == item@ {
                    assert(after[i as int] == t);
                    assert(after.contains(t));
                }
            }
            assert(after.to_set() =~= before.to_set().insert(item@));
        }
    }
}

/// Puts every text of `items` into the ascending list `list`.
fn insert_all(list: &mut Vec<String>, items: &[String])
    requires
        ascending(old(list).deep_view()),
    ensures
        ascending(final(list).deep_view()),
        final(list).deep_view().to_set() == old(list).deep_view().to_set() + items.deep_view().to_set(),
{
    let ghost start = list.deep_view().to_set();
    let ghost all = items.deep_view();
    let mut i: usize = 0;
    proof {
        assert(all.subrange(0, 0).to_set() =~= Set::<Seq<char>>::empty());
        assert(start + Set::<Seq<char>>::empty() =~= start);
    }
    while i < items.len()
        invariant
            i <= items.len(),
            all == items.deep_view(),
            ascending(list.deep_view()),
            list.deep_view().to_set() == start + all.subrange(0, i as int).to_set(),
        decreases items.len() - i,
    {
        let item = items[i].clone();
        proof {
            let front = all.subrange(0, i as int);
            assert(front.push(all[i as int]) =~= all.subrange(0, i as int + 1));
            front.lemma_push_to_set_commute(all[i as int]);
            assert((start + front.to_set()).insert(item@) =~= start + front.to_set().insert(
                item@,
            ));
        }
        insert_ascending(list, item);
        i += 1;
    }
    assert(all.subrange(0, i as int) =~= all);
}

/// Returns the texts of `list` that do not occur in `removed`, in their order.
pub fn without(list: &[String], removed: &[String]) -> (rest: Vec<String>)
    ensures
        rest.deep_view() == list.deep_view().filter(kept(removed.deep_view())),
{
    let ghost keep = kept(removed.deep_view());
    let ghost all = list.deep_view();
    let mut rest: Vec<String> = Vec::new();
    let mut i: usize = 0;
    proof {
        assert(all.subrange(0, 0) =~= Seq::<Seq<char>>::empty());
        reveal(Seq::filter);
    }
    while i < list.len()
        invariant
            i <= list.len(),
            all == list.deep_view(),
            keep == kept(removed.deep_view()),
            rest.deep_view() == all.subrange(0, i as int).filter(keep),
        decreases list.len() - i,
    {
        let ghost before = rest.deep_view();
        proof {
            all.subrange(0, i as int).lemma_filter_push(all[i as int], keep);
            assert(all.subrange(0, i as int).push(all[i as int]) =~= all.subrange(0, i as int + 1));
        }
        if !contains_text(removed, list[i].as_str()) {
            rest.push(list[i].clone());
            assert(rest.deep_view() =~= before.push(all[i as int]));
        }
        i += 1;
    }
    assert(all.subrange(0, i as int) =~= all);
    rest
}

/// Merges additions and removals into the values of a record.
pub fn merge_values(existing: &[String], add: &Option<Vec<String>>, remove: &Option<Vec<String>>) -> (
    values: Vec<String>)
    ensures
        values.deep_view() == merged(existing.deep_view(), add.deep_view(), remove.deep_view()),
{
    let base = match add {
        Some(added) => {
            let mut list: Vec<String> = Vec::new();
            assert(list.deep_view() =~= Seq::<Seq<char>>::empty());
            insert_all(&mut list, existing);
            insert_all(&mut list, texts_of(added));
            proof {
                let both = existing.deep_view() + added.deep_view();
                vstd::seq_lib::seq_to_set_distributes_over_add(
                    existing.deep_view(),
                    added.deep_view(),
                );
                assert(list.deep_view().to_set() =~= both.to_set());
                lemma_ascending_is_arranged(list.deep_view());
            }
            list
        },
        None => copy_texts(existing),
    };
    match remove {
        Some(removed) => without(texts_of(&base), texts_of(removed)),
        None => base,
    }
}

/// The values of an optional list, as a slice.
fn values_in(list: &Option<Vec<String>>) -> (values: &[String])
    ensures
        values.deep_view() == values_of(list.deep_view()),
{
    match list {
        Some(items) => texts_of(items),
        None => {
            let values: &[String] = &[];
            assert(values.deep_view() =~= Seq::<Seq<char>>::empty());
            values
        },
    }
}

/// Applies an edit to a prompt and returns the edited prompt.
pub fn edited_prompt(
    prompt: &Prompt,
    new_text: &Option<String>,
    add_tags: &Option<Vec<String>>,
    remove_tags: &Option<Vec<String>>,
    add_categories: &Option<Vec<String>>,
    remove_categories: &Option<Vec<String>>,
) -> (result: Prompt)
    ensures
        result@ == edited(
            prompt@,
            new_text.deep_view(),
            add_tags.deep_view(),
            remove_tags.deep_view(),
            add_categories.deep_view(),
            remove_categories.deep_view(),
        ),
{
    let tags = merge_values(values_in(&prompt.tags), add_tags, remove_tags);
    let categories = merge_values(values_in(&prompt.categories), add_categories, remove_categories);
    match new_text {
        Some(text) => Prompt {
            content: text.clone(),
            tags: Some(tags),
            categories: Some(categories),
            hash: digest_of(text.as_str()),
        },
        None => Prompt {
            content: prompt.content.clone(),
            tags: Some(tags),
            categories: Some(categories),
            hash: prompt.hash.clone(),
        },
    }
}

} // verus!
