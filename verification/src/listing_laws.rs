//! What holds of every listing: it is in order, directories first; it holds
//! the entries that are shown and no others; and entries that the order does
//! not tell apart stay as they were read.

use crate::listing::{
    arranged, goes_before, is_hidden, is_listed, is_markdown, keyed_by_lowercase, listing, place,
    EntryModel, KeyedModel,
};
use crate::names::{
    lemma_lex_less_irreflexive, lemma_lex_less_total, lemma_lex_less_transitive, lex_less,
    lowercase,
};
use vstd::prelude::*;
use vstd::seq_lib::*;

verus! {

/// Whether no entry of `items` stands behind one that it goes before.
pub open spec fn ordered(items: Seq<KeyedModel>) -> bool {
    forall|i: int, j: int|
        0 <= i < j < items.len() ==> !goes_before(#[trigger] items[j], #[trigger] items[i])
}

/// Whether the order does not tell `a` and `b` apart.
pub open spec fn ranks_with(a: KeyedModel, b: KeyedModel) -> bool {
    !goes_before(a, b) && !goes_before(b, a)
}

/// The test for being shown, as a predicate.
pub open spec fn shown() -> spec_fn(KeyedModel) -> bool {
    |item: KeyedModel| is_listed(item)
}

/// The test for being level with `rank`, as a predicate.
pub open spec fn level_with(rank: KeyedModel) -> spec_fn(KeyedModel) -> bool {
    |item: KeyedModel| ranks_with(item, rank)
}

/// The test for being shown and level with `rank`, as a predicate.
pub open spec fn shown_level_with(rank: KeyedModel) -> spec_fn(KeyedModel) -> bool {
    |item: KeyedModel| is_listed(item) && ranks_with(item, rank)
}

/// Of two entries at most one goes before the other.
pub proof fn lemma_goes_before_asymmetric(a: KeyedModel, b: KeyedModel)
    requires
        goes_before(a, b),
    ensures
        !goes_before(b, a),
{
    if a.entry.is_dir == b.entry.is_dir {
        if lex_less(b.key, a.key) {
            lemma_lex_less_transitive(a.key, b.key, a.key);
            lemma_lex_less_irreflexive(a.key);
        }
    }
}

/// If `a` is not behind `b` and `b` is not behind `c`, then `a` is not
/// behind `c`.
pub proof fn lemma_not_behind_transitive(a: KeyedModel, b: KeyedModel, c: KeyedModel)
    requires
        !goes_before(b, a),
        !goes_before(c, b),
    ensures
        !goes_before(c, a),
{
    if goes_before(c, a) {
        if a.entry.is_dir == b.entry.is_dir && b.entry.is_dir == c.entry.is_dir {
            lemma_lex_less_total(b.key, a.key);
            if a.key != b.key {
                lemma_lex_less_transitive(c.key, a.key, b.key);
            }
        }
    }
}

/// Entries that the order does not tell apart are of one kind and one key.
pub proof fn lemma_level_means_same_key(a: KeyedModel, b: KeyedModel)
    ensures
        ranks_with(a, b) <==> a.entry.is_dir == b.entry.is_dir && a.key == b.key,
{
    lemma_lex_less_total(a.key, b.key);
    lemma_lex_less_irreflexive(a.key);
}

/// Where an entry is put, every entry behind it is one that it goes before,
/// and the entry in front of it is not.
pub proof fn lemma_place_divides(sorted: Seq<KeyedModel>, item: KeyedModel)
    ensures
        place(sorted, item) <= sorted.len(),
        forall|i: int|
            place(sorted, item) <= i < sorted.len() ==> goes_before(item, #[trigger] sorted[i]),
        place(sorted, item) > 0 ==> !goes_before(item, sorted[place(sorted, item) - 1]),
    decreases sorted.len(),
{
    if sorted.len() > 0 && goes_before(item, sorted.last()) {
        let front = sorted.drop_last();
        lemma_place_divides(front, item);
        assert forall|i: int| place(sorted, item) <= i < sorted.len() implies goes_before(
            item,
            #[trigger] sorted[i],
        ) by {
            if i < front.len() {
                assert(sorted[i] == front[i]);
            }
        }
    }
}

/// Putting an entry in its place keeps a sequence in order.
pub proof fn lemma_insert_keeps_order(sorted: Seq<KeyedModel>, item: KeyedModel)
    requires
        ordered(sorted),
    ensures
        ordered(sorted.insert(place(sorted, item) as int, item)),
{
    let at = place(sorted, item) as int;
    let grown = sorted.insert(at, item);
    lemma_place_divides(sorted, item);
    sorted.insert_ensures(at, item);
    assert forall|i: int, j: int| 0 <= i < j < grown.len() implies !goes_before(
        #[trigger] grown[j],
        #[trigger] grown[i],
    ) by {
        if j == at {
            if i < at - 1 {
                lemma_not_behind_transitive(sorted[i], sorted[at - 1], item);
            }
        } else if i == at {
            lemma_goes_before_asymmetric(item, sorted[j - 1]);
        }
    }
}

/// A listing is in order: no entry stands behind one that it goes before.
pub proof fn law_arranged_in_order(items: Seq<KeyedModel>)
    ensures
        ordered(arranged(items)),
    decreases items.len(),
{
    if items.len() > 0 {
        law_arranged_in_order(items.drop_last());
        if is_listed(items.last()) {
            lemma_insert_keeps_order(arranged(items.drop_last()), items.last());
        }
    }
}

/// In a listing every directory stands in front of every file.
pub proof fn law_directories_first(items: Seq<KeyedModel>)
    ensures
        forall|i: int, j: int|
            0 <= i < j < arranged(items).len() && (#[trigger] arranged(items)[j]).entry.is_dir
                ==> (#[trigger] arranged(items)[i]).entry.is_dir,
{
    law_arranged_in_order(items);
}

/// Within the directories of a listing, and within its files, the keys
/// never fall.
pub proof fn law_keys_rise_within_kind(items: Seq<KeyedModel>)
    ensures
        forall|i: int, j: int|
            0 <= i < j < arranged(items).len() && (#[trigger] arranged(items)[i]).entry.is_dir == (
            #[trigger] arranged(items)[j]).entry.is_dir ==> !lex_less(
                arranged(items)[j].key,
                arranged(items)[i].key,
            ),
{
    law_arranged_in_order(items);
}

/// A listing holds the entries that are shown, each as often as it was
/// read, and nothing else.
pub proof fn law_arranged_selects(items: Seq<KeyedModel>)
    ensures
        arranged(items).to_multiset() == items.filter(shown()).to_multiset(),
    decreases items.len(),
{
    if items.len() > 0 {
        let earlier = items.drop_last();
        let before = arranged(earlier);
        let item = items.last();
        law_arranged_selects(earlier);
        assert(items =~= earlier.push(item));
        earlier.lemma_filter_push(item, shown());
        if is_listed(item) {
            lemma_place_divides(before, item);
            to_multiset_insert(before, place(before, item) as int, item);
            to_multiset_build(earlier.filter(shown()), item);
        }
    } else {
        reveal(Seq::filter);
        assert(items =~= Seq::<KeyedModel>::empty());
    }
}

/// Every entry of a listing was read and is shown.
pub proof fn law_arranged_members(items: Seq<KeyedModel>, i: int)
    requires
        0 <= i < arranged(items).len(),
    ensures
        is_listed(arranged(items)[i]),
        items.contains(arranged(items)[i]),
{
    let item = arranged(items)[i];
    law_arranged_selects(items);
    arranged(items).to_multiset_ensures();
    items.filter(shown()).to_multiset_ensures();
    assert(items.filter(shown()).to_multiset().count(item) > 0);
    items.lemma_filter_contains_rev(shown(), item);
}

/// A listing is stable: the entries that the order does not tell apart
/// stand in it as they were read.
pub proof fn law_arranged_stable(items: Seq<KeyedModel>, rank: KeyedModel)
    ensures
        arranged(items).filter(level_with(rank)) == items.filter(shown_level_with(rank)),
    decreases items.len(),
{
    reveal(Seq::filter);
    if items.len() > 0 {
        let earlier = items.drop_last();
        let before = arranged(earlier);
        let item = items.last();
        law_arranged_stable(earlier, rank);
        if is_listed(item) {
            let at = place(before, item) as int;
            let head = before.subrange(0, at);
            let tail = before.subrange(at, before.len() as int);
            lemma_place_divides(before, item);
            assert(before =~= head + tail);
            Seq::filter_distributes_over_add(head, tail, level_with(rank));
            Seq::filter_distributes_over_add(head.push(item), tail, level_with(rank));
            head.lemma_filter_push(item, level_with(rank));
            if ranks_with(item, rank) {
                assert forall|i: int| 0 <= i < tail.len() implies !level_with(rank)(
                    #[trigger] tail[i],
                ) by {
                    lemma_level_means_same_key(tail[i], rank);
                    lemma_level_means_same_key(item, rank);
                    lemma_level_means_same_key(item, tail[i]);
                }
                tail.lemma_all_neg_filter_empty(level_with(rank));
                assert(head.filter(level_with(rank)).push(item) + Seq::<KeyedModel>::empty()
                    =~= head.filter(level_with(rank)).push(item));
                assert(head.filter(level_with(rank)) + Seq::<KeyedModel>::empty()
                    =~= head.filter(level_with(rank)));
            }
        }
    }
}

/// Whether entry `a` is listed strictly before entry `b`, by their names.
pub open spec fn name_goes_before(a: EntryModel, b: EntryModel) -> bool {
    if a.is_dir != b.is_dir {
        a.is_dir
    } else {
        lex_less(lowercase(a.name), lowercase(b.name))
    }
}

/// Whether an entry is shown, by its name and kind.
pub open spec fn is_shown_entry(entry: EntryModel) -> bool {
    !is_hidden(entry.name) && (entry.is_dir || is_markdown(lowercase(entry.name)))
}

/// Every entry of the listing of a directory is level with or behind the
/// entries in front of it, by kind and lower-case name.
pub proof fn law_listing_in_order(entries: Seq<EntryModel>)
    ensures
        forall|i: int, j: int|
            0 <= i < j < listing(entries).len() ==> !name_goes_before(
                #[trigger] listing(entries)[j],
                #[trigger] listing(entries)[i],
            ),
{
    let items = keyed_by_lowercase(entries);
    let chosen = arranged(items);
    law_arranged_in_order(items);
    assert forall|i: int, j: int| 0 <= i < j < listing(entries).len() implies !name_goes_before(
        #[trigger] listing(entries)[j],
        #[trigger] listing(entries)[i],
    ) by {
        lemma_keyed_by_name(entries, i);
        lemma_keyed_by_name(entries, j);
        assert(!goes_before(chosen[j], chosen[i]));
    }
}

/// An entry of the arranged entries of a directory was read there, and its
/// key is its name in lower case.
proof fn lemma_keyed_by_name(entries: Seq<EntryModel>, i: int)
    requires
        0 <= i < arranged(keyed_by_lowercase(entries)).len(),
    ensures
        entries.contains(arranged(keyed_by_lowercase(entries))[i].entry),
        arranged(keyed_by_lowercase(entries))[i].key == lowercase(
            arranged(keyed_by_lowercase(entries))[i].entry.name,
        ),
        is_listed(arranged(keyed_by_lowercase(entries))[i]),
{
    let items = keyed_by_lowercase(entries);
    law_arranged_members(items, i);
    let at = choose|at: int| 0 <= at < items.len() && items[at] == arranged(items)[i];
    assert(items[at].entry == entries[at]);
}

/// The listing of a directory holds no entry that was not read or is not
/// shown, and misses none that was read and is shown.
pub proof fn law_listing_is_the_shown_entries(entries: Seq<EntryModel>)
    ensures
        forall|i: int|
            0 <= i < listing(entries).len() ==> entries.contains(#[trigger] listing(entries)[i])
                && is_shown_entry(listing(entries)[i]),
        forall|i: int|
            0 <= i < entries.len() && is_shown_entry(#[trigger] entries[i]) ==> listing(
                entries,
            ).contains(entries[i]),
{
    let items = keyed_by_lowercase(entries);
    let chosen = arranged(items);
    assert forall|i: int| 0 <= i < listing(entries).len() implies entries.contains(
        #[trigger] listing(entries)[i],
    ) && is_shown_entry(listing(entries)[i]) by {
        lemma_keyed_by_name(entries, i);
    }
    assert forall|i: int| 0 <= i < entries.len() && is_shown_entry(
        #[trigger] entries[i],
    ) implies listing(entries).contains(entries[i]) by {
        items.lemma_filter_contains(shown(), i);
        law_arranged_selects(items);
        chosen.to_multiset_ensures();
        items.filter(shown()).to_multiset_ensures();
        assert(chosen.to_multiset().count(items[i]) > 0);
        let at = choose|at: int| 0 <= at < chosen.len() && chosen[at] == items[i];
        assert(listing(entries)[at] == entries[i]);
    }
}

} // verus!
