//! The listing of a directory: which of its entries are shown, and in what
//! order.
//!
//! An entry whose name begins with a dot is never shown. Of the others,
//! every directory is shown, and every file whose name, in lower case, ends
//! in `.md` or `.markdown`. Directories come first; among directories and
//! among files the lower-case names decide, in the order of the dictionary.
//! Entries that this order does not tell apart stay as they were read.
//! Nothing below the directory is read: a node of the listing never has
//! children.

use crate::names::{
    chars_end_with, chars_less, chars_of, ends_with, lex_less, lowercase, to_lowercase,
};
use vstd::prelude::*;
use vstd::string::StrSliceExecFns;

verus! {

/// An entry of a directory as it was read: its name, its full path, and
/// whether it is a directory.
#[derive(Clone, Debug, PartialEq, Eq)]
pub struct Entry {
    pub name: String,
    pub path: String,
    pub is_dir: bool,
}

/// An `Entry` as a mathematical value.
pub struct EntryModel {
    pub name: Seq<char>,
    pub path: Seq<char>,
    pub is_dir: bool,
}

impl View for Entry {
    type V = EntryModel;

    open spec fn view(&self) -> EntryModel {
        EntryModel { name: self.name@, path: self.path@, is_dir: self.is_dir }
    }
}

impl DeepView for Entry {
    type V = EntryModel;

    open spec fn deep_view(&self) -> EntryModel {
        self@
    }
}

/// An entry together with the key that it is listed by: its name in lower
/// case.
#[derive(Clone, Debug, PartialEq, Eq)]
pub struct Keyed {
    pub entry: Entry,
    pub key: String,
}

/// A `Keyed` as a mathematical value.
pub struct KeyedModel {
    pub entry: EntryModel,
    pub key: Seq<char>,
}

impl View for Keyed {
    type V = KeyedModel;

    open spec fn view(&self) -> KeyedModel {
        KeyedModel { entry: self.entry@, key: self.key@ }
    }
}

impl DeepView for Keyed {
    type V = KeyedModel;

    open spec fn deep_view(&self) -> KeyedModel {
        self@
    }
}

/// A node of the listing. `children` is kept for listings in depth; a
/// listing of one directory leaves it empty.
#[derive(Debug, PartialEq, Eq)]
pub struct FileNode {
    pub name: String,
    pub path: String,
    pub is_dir: bool,
    pub children: Option<Vec<FileNode>>,
}

impl FileNode {
    /// The entry that the node shows.
    pub open spec fn entry(self) -> EntryModel {
        EntryModel { name: self.name@, path: self.path@, is_dir: self.is_dir }
    }

    /// Whether two nodes show the same entry and, node for node, the same
    /// nodes below it.
    pub open spec fn same_as(self, other: FileNode) -> bool
        decreases self,
    {
        &&& self.entry() == other.entry()
        &&& match (self.children, other.children) {
            (None, None) => true,
            (Some(mine), Some(theirs)) => {
                &&& mine.len() == theirs.len()
                &&& forall|i: int|
                    0 <= i < mine.len() ==> (#[trigger] mine[i]).same_as(theirs[i])
            },
            _ => false,
        }
    }
}

impl Clone for FileNode {
    /// A copy of the node and of all that hangs below it.
    fn clone(&self) -> (copy: Self)
        ensures
            copy.same_as(*self),
        decreases self,
    {
        let children = match &self.children {
            Some(nodes) => {
                let mut copies: Vec<FileNode> = Vec::new();
                for i in 0..nodes.len()
                    invariant
                        self.children == Some(*nodes),
                        copies.len() == i,
                        forall|j: int| 0 <= j < i ==> (#[trigger] copies[j]).same_as(nodes[j]),
                {
                    proof {
                        let below = self.children->0;
                        vstd::std_specs::vec::axiom_vec_index_decreases(below, i as int);
                    }
                    copies.push(nodes[i].clone());
                }
                Some(copies)
            },
            None => None,
        };
        FileNode {
            name: self.name.clone(),
            path: self.path.clone(),
            is_dir: self.is_dir,
            children,
        }
    }
}

/// Whether `nodes` shows exactly `entries`, in their order, each as a node
/// without children.
pub open spec fn shows(nodes: Seq<FileNode>, entries: Seq<EntryModel>) -> bool {
    &&& nodes.len() == entries.len()
    &&& forall|i: int|
        0 <= i < nodes.len() ==> (#[trigger] nodes[i]).entry() == entries[i] && nodes[i].children
            is None
}

/// Whether a name marks its entry as hidden: it begins with a dot.
pub open spec fn is_hidden(name: Seq<char>) -> bool {
    name.len() > 0 && name[0] == '.'
}

/// Whether a key is that of a markdown file.
pub open spec fn is_markdown(key: Seq<char>) -> bool {
    ends_with(key, ".md"@) || ends_with(key, ".markdown"@)
}

/// Whether an entry is shown.
pub open spec fn is_listed(item: KeyedModel) -> bool {
    !is_hidden(item.entry.name) && (item.entry.is_dir || is_markdown(item.key))
}

/// Whether `a` is listed strictly before `b`: a directory before a file,
/// and otherwise the one whose key comes first.
pub open spec fn goes_before(a: KeyedModel, b: KeyedModel) -> bool {
    if a.entry.is_dir != b.entry.is_dir {
        a.entry.is_dir
    } else {
        lex_less(a.key, b.key)
    }
}

/// Where `item` is put into `sorted`: in front of the longest tail of
/// entries that it goes before, and so behind every entry that it does not
/// go before.
pub open spec fn place(sorted: Seq<KeyedModel>, item: KeyedModel) -> nat
    decreases sorted.len(),
{
    if sorted.len() > 0 && goes_before(item, sorted.last()) {
        place(sorted.drop_last(), item)
    } else {
        sorted.len()
    }
}

/// The entries that are shown, in the order of the listing: each of them,
/// in the order of reading, is put in its place among those read before it.
pub open spec fn arranged(items: Seq<KeyedModel>) -> Seq<KeyedModel>
    decreases items.len(),
{
    if items.len() == 0 {
        Seq::empty()
    } else {
        let before = arranged(items.drop_last());
        let item = items.last();
        if is_listed(item) {
            before.insert(place(before, item) as int, item)
        } else {
            before
        }
    }
}

/// The entries of keyed entries.
pub open spec fn entries_of(items: Seq<KeyedModel>) -> Seq<EntryModel> {
    items.map_values(|item: KeyedModel| item.entry)
}

/// Entries with their names in lower case as keys.
pub open spec fn keyed_by_lowercase(entries: Seq<EntryModel>) -> Seq<KeyedModel> {
    entries.map_values(|entry: EntryModel| KeyedModel { entry, key: lowercase(entry.name) })
}

/// The listing of a directory with the given entries.
pub open spec fn listing(entries: Seq<EntryModel>) -> Seq<EntryModel> {
    entries_of(arranged(keyed_by_lowercase(entries)))
}

/// `place` is the one position with an unbroken tail of later entries behind
/// it and an entry that is not later in front of it.
pub proof fn lemma_place(sorted: Seq<KeyedModel>, item: KeyedModel, at: int)
    requires
        0 <= at <= sorted.len(),
        forall|i: int| at <= i < sorted.len() ==> goes_before(item, #[trigger] sorted[i]),
        at > 0 ==> !goes_before(item, sorted[at - 1]),
    ensures
        place(sorted, item) == at,
    decreases sorted.len(),
{
    if at < sorted.len() {
        lemma_place(sorted.drop_last(), item, at);
    }
}

/// Tests whether a name marks its entry as hidden.
pub fn is_hidden_name(name: &str) -> (hidden: bool)
    ensures
        hidden == is_hidden(name@),
{
    !name.is_empty() && name.get_char(0) == '.'
}

/// Tests whether a key is that of a markdown file.
pub fn is_markdown_key(key: &[char]) -> (markdown: bool)
    ensures
        markdown == is_markdown(key@),
{
    let short = chars_of(".md");
    let long = chars_of(".markdown");
    chars_end_with(key, short.as_slice()) || chars_end_with(key, long.as_slice())
}

/// Tests whether an entry of the given name, kind and key is shown.
pub fn is_shown(name: &str, is_dir: bool, key: &[char]) -> (listed: bool)
    ensures
        listed == (!is_hidden(name@) && (is_dir || is_markdown(key@))),
{
    !is_hidden_name(name) && (is_dir || is_markdown_key(key))
}

/// Tests whether an entry is shown.
pub fn is_listed_item(item: &Keyed) -> (listed: bool)
    ensures
        listed == is_listed(item@),
{
    let key = chars_of(item.key.as_str());
    is_shown(item.entry.name.as_str(), item.entry.is_dir, key.as_slice())
}

/// Tests whether an entry of one kind and key is listed strictly before an
/// entry of another.
pub fn key_goes_before(a_is_dir: bool, a_key: &[char], b_is_dir: bool, b_key: &[char]) -> (before:
    bool)
    ensures
        before == if a_is_dir != b_is_dir {
            a_is_dir
        } else {
            lex_less(a_key@, b_key@)
        },
{
    if a_is_dir != b_is_dir {
        a_is_dir
    } else {
        chars_less(a_key, b_key)
    }
}

/// The entries picked out of `items` by `order`, in that order.
spec fn picked(items: Seq<KeyedModel>, order: Seq<usize>) -> Seq<KeyedModel> {
    Seq::new(order.len(), |i: int| items[order[i] as int])
}

/// Lists keyed entries: drops those that are not shown and puts the others
/// in order.
pub fn arrange(items: &[Keyed]) -> (nodes: Vec<FileNode>)
    ensures
        shows(nodes@, entries_of(arranged(items.deep_view()))),
{
    let ghost models = items.deep_view();
    let count: usize = items.len();
    let mut keys: Vec<Vec<char>> = Vec::new();
    for i in 0..count
        invariant
            count == items.len(),
            keys.len() == i,
            forall|j: int| 0 <= j < i ==> (#[trigger] keys[j])@ == items[j].key@,
    {
        keys.push(chars_of(items[i].key.as_str()));
    }
    let mut order: Vec<usize> = Vec::new();
    for i in 0..count
        invariant
            count == items.len(),
            models == items.deep_view(),
            keys.len() == count,
            forall|j: int| 0 <= j < count ==> (#[trigger] keys[j])@ == items[j].key@,
            forall|j: int| 0 <= j < order.len() ==> (#[trigger] order[j]) < count,
            picked(models, order@) == arranged(models.take(i as int)),
    {
        let ghost item = models[i as int];
        let ghost before = picked(models, order@);
        assert(models.take(i + 1).drop_last() =~= models.take(i as int));
        if is_shown(items[i].entry.name.as_str(), items[i].entry.is_dir, keys[i].as_slice()) {
            let mut at: usize = order.len();
            while at > 0 && key_goes_before(
                items[i].entry.is_dir,
                keys[i].as_slice(),
                items[order[at - 1]].entry.is_dir,
                keys[order[at - 1]].as_slice(),
            )
                invariant
                    i < count,
                    count == items.len(),
                    models == items.deep_view(),
                    item == models[i as int],
                    before == picked(models, order@),
                    keys.len() == count,
                    forall|j: int| 0 <= j < count ==> (#[trigger] keys[j])@ == items[j].key@,
                    forall|j: int| 0 <= j < order.len() ==> (#[trigger] order[j]) < count,
                    at <= order.len(),
                    forall|j: int|
                        at <= j < before.len() ==> goes_before(item, #[trigger] before[j]),
                decreases at,
            {
                at -= 1;
            }
            proof {
                lemma_place(before, item, at as int);
            }
            order.insert(at, i);
            assert(picked(models, order@) =~= before.insert(at as int, item));
        }
    }
    assert(models.take(count as int) =~= models);
    let ghost chosen = arranged(models);
    let mut nodes: Vec<FileNode> = Vec::new();
    for i in 0..order.len()
        invariant
            count == items.len(),
            models == items.deep_view(),
            forall|j: int| 0 <= j < order.len() ==> (#[trigger] order[j]) < count,
            chosen == picked(models, order@),
            nodes.len() == i,
            forall|j: int|
                0 <= j < i ==> (#[trigger] nodes[j]).entry() == chosen[j].entry && nodes[j].children
                    is None,
    {
        let entry = &items[order[i]].entry;
        nodes.push(
            FileNode {
                name: entry.name.clone(),
                path: entry.path.clone(),
                is_dir: entry.is_dir,
                children: None,
            },
        );
    }
    nodes
}

/// Lists the entries of a directory.
pub fn list_entries(entries: &[Entry]) -> (nodes: Vec<FileNode>)
    ensures
        shows(nodes@, listing(entries.deep_view())),
{
    let ghost models = entries.deep_view();
    let mut items: Vec<Keyed> = Vec::new();
    for i in 0..entries.len()
        invariant
            models == entries.deep_view(),
            models.len() == entries.len(),
            items.len() == i,
            items.deep_view() == keyed_by_lowercase(models.take(i as int)),
    {
        let entry = &entries[i];
        let key = to_lowercase(entry.name.as_str());
        let ghost earlier = items.deep_view();
        items.push(
            Keyed {
                entry: Entry {
                    name: entry.name.clone(),
                    path: entry.path.clone(),
                    is_dir: entry.is_dir,
                },
                key,
            },
        );
        assert(items.deep_view() =~= keyed_by_lowercase(models.take(i + 1))) by {
            let later = keyed_by_lowercase(models.take(i + 1));
            assert forall|j: int| 0 <= j < later.len() implies items.deep_view()[j] == later[j] by {
                if j < i {
                    assert(items.deep_view()[j] == earlier[j]);
                }
            }
        }
    }
    assert(models.take(entries.len() as int) =~= models);
    arrange(items.as_slice())
}

} // verus!
