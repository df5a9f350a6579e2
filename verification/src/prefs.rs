//! The parts of the preferences that collections and history work with.
use std::rc::Rc;

use vstd::prelude::*;

verus! {

/// A collection that is built into the program.
#[derive(Clone, Copy, Debug, PartialEq, Eq, Structural)]
pub enum BuiltinCollection {
    All,
    AllSoftware,
    Favorites,
    Recent,
}

/// An item shown in the items list: a machine, or an item of a software list.
#[derive(Clone, Debug, PartialEq, Eq)]
pub enum PrefsItem {
    Machine { machine_name: String },
    Software { software_list: String, software: String },
}

/// What a `PrefsItem` is, with its names as character sequences.
pub enum ItemView {
    Machine(Seq<char>),
    Software(Seq<char>, Seq<char>),
}

impl View for PrefsItem {
    type V = ItemView;

    open spec fn view(&self) -> ItemView {
        match self {
            PrefsItem::Machine { machine_name } => ItemView::Machine(machine_name@),
            PrefsItem::Software { software_list, software } => ItemView::Software(
                software_list@,
                software@,
            ),
        }
    }
}

/// A collection of items, as the browser shows it.
#[derive(Clone, Debug, PartialEq, Eq)]
pub enum PrefsCollection {
    Builtin(BuiltinCollection),
    MachineSoftware { machine_name: String },
    SoftwareList { list_name: String },
    Folder { name: String, items: Vec<PrefsItem> },
}

/// What a `PrefsCollection` is, with its names as character sequences.
pub enum CollectionView {
    Builtin(BuiltinCollection),
    MachineSoftware(Seq<char>),
    SoftwareList(Seq<char>),
    Folder(Seq<char>, Seq<ItemView>),
}

/// The views of a sequence of items.
pub open spec fn items_view(items: Seq<PrefsItem>) -> Seq<ItemView> {
    items.map_values(|i: PrefsItem| i@)
}

impl View for PrefsCollection {
    type V = CollectionView;

    open spec fn view(&self) -> CollectionView {
        match self {
            PrefsCollection::Builtin(b) => CollectionView::Builtin(*b),
            PrefsCollection::MachineSoftware { machine_name } => CollectionView::MachineSoftware(
                machine_name@,
            ),
            PrefsCollection::SoftwareList { list_name } => CollectionView::SoftwareList(
                list_name@,
            ),
            PrefsCollection::Folder { name, items } => CollectionView::Folder(
                name@,
                items_view(items@),
            ),
        }
    }
}

/// `Rc::clone`: another handle on the same shared value (equal to the original handle).
#[verifier::external_body]
pub(crate) fn rc_clone<T>(r: &Rc<T>) -> (c: Rc<T>)
    ensures
        c == *r,
{
    Rc::clone(r)
}

/// A copy of a string.
pub fn string_copy(s: &String) -> (r: String)
    ensures
        r@ == s@,
{
    s.clone()
}

impl PrefsItem {
    /// A copy of this item.
    pub fn copy_of(&self) -> (r: PrefsItem)
        ensures
            r@ == self@,
    {
        match self {
            PrefsItem::Machine { machine_name } => PrefsItem::Machine {
                machine_name: string_copy(machine_name),
            },
            PrefsItem::Software { software_list, software } => PrefsItem::Software {
                software_list: string_copy(software_list),
                software: string_copy(software),
            },
        }
    }

    /// Whether two items are the same.
    pub fn same_as(&self, other: &PrefsItem) -> (r: bool)
        ensures
            r == (self@ == other@),
    {
        match (self, other) {
            (PrefsItem::Machine { machine_name: a }, PrefsItem::Machine { machine_name: b }) => {
                *a == *b
            },
            (
                PrefsItem::Software { software_list: la, software: sa },
                PrefsItem::Software { software_list: lb, software: sb },
            ) => *la == *lb && *sa == *sb,
            _ => false,
        }
    }
}

/// Whether `items` holds an item that is the same as `x`.
pub fn items_contain(items: &Vec<PrefsItem>, x: &PrefsItem) -> (r: bool)
    ensures
        r == items_view(items@).contains(x@),
{
    let mut i: usize = 0;
    while i < items.len()
        invariant
            i <= items@.len(),
            forall|k: int| 0 <= k < i ==> items@[k]@ != x@,
        decreases items@.len() - i,
    {
        if items[i].same_as(x) {
            assert(items_view(items@)[i as int] == x@);
            return true;
        }
        i = i + 1;
    }
    proof {
        if items_view(items@).contains(x@) {
            let k = choose|k: int| 0 <= k < items_view(items@).len() && items_view(items@)[k] == x@;
            assert(items@[k]@ == x@);
        }
    }
    false
}

/// A copy of a list of items.
pub fn items_copy(items: &Vec<PrefsItem>) -> (r: Vec<PrefsItem>)
    ensures
        items_view(r@) == items_view(items@),
{
    let mut r: Vec<PrefsItem> = Vec::new();
    let mut i: usize = 0;
    while i < items.len()
        invariant
            i <= items@.len(),
            r@.len() == i,
            forall|k: int| 0 <= k < i ==> #[trigger] r@[k]@ == items@[k]@,
        decreases items@.len() - i,
    {
        r.push(items[i].copy_of());
        i = i + 1;
    }
    assert(items_view(r@) =~= items_view(items@));
    r
}

impl PrefsCollection {
    /// Whether two collections are the same.
    pub fn same_as(&self, other: &PrefsCollection) -> (r: bool)
        ensures
            r == (self@ == other@),
    {
        match (self, other) {
            (PrefsCollection::Builtin(a), PrefsCollection::Builtin(b)) => *a == *b,
            (
                PrefsCollection::MachineSoftware { machine_name: a },
                PrefsCollection::MachineSoftware { machine_name: b },
            ) => *a == *b,
            (
                PrefsCollection::SoftwareList { list_name: a },
                PrefsCollection::SoftwareList { list_name: b },
            ) => *a == *b,
            (
                PrefsCollection::Folder { name: na, items: ia },
                PrefsCollection::Folder { name: nb, items: ib },
            ) => {
                if !(*na == *nb) || ia.len() != ib.len() {
                    assert(items_view(ia@).len() == ia@.len());
                    assert(items_view(ib@).len() == ib@.len());
                    return false;
                }
                let mut i: usize = 0;
                while i < ia.len()
                    invariant
                        i <= ia@.len(),
                        ia@.len() == ib@.len(),
                        self@ == CollectionView::Folder(na@, items_view(ia@)),
                        other@ == CollectionView::Folder(nb@, items_view(ib@)),
                        forall|k: int| 0 <= k < i ==> ia@[k]@ == ib@[k]@,
                    decreases ia@.len() - i,
                {
                    if !ia[i].same_as(&ib[i]) {
                        assert(items_view(ia@)[i as int] != items_view(ib@)[i as int]);
                        assert(items_view(ia@) != items_view(ib@));
                        return false;
                    }
                    i = i + 1;
                }
                assert(items_view(ia@) =~= items_view(ib@));
                true
            },
            _ => false,
        }
    }
}

/// A point in the browsing history.
#[derive(Clone, Debug, PartialEq, Eq)]
pub struct HistoryEntry {
    pub collection: Rc<PrefsCollection>,
    pub search: String,
    pub selection: Vec<PrefsItem>,
}

/// The preferences that the collections list and the browsing history live in.
#[derive(Clone, Debug)]
pub struct Preferences {
    pub collections: Vec<Rc<PrefsCollection>>,
    pub history: Vec<HistoryEntry>,
    pub history_position: usize,
}

} // verus!
