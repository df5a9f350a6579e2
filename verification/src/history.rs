//! The browsing history: a bounded list of visited collections with a position in it.
use std::rc::Rc;

use vstd::prelude::*;

use crate::prefs::{
    items_view, rc_clone, string_copy, CollectionView, HistoryEntry, ItemView, Preferences,
    PrefsCollection,
};

verus! {

/// The most entries that the history keeps.
pub const MAX_HISTORY_LEN: usize = 10;

/// Sizes of `usize` values: one more than `usize::MAX`.
pub open spec fn usize_modulus() -> int {
    usize::MAX as int + 1
}

/// `position - delta` wrapped into the range of `usize`, as `usize::wrapping_add_signed` gives
/// `position + (-delta)`.
pub open spec fn wrapping_sub(position: int, delta: int) -> int {
    let x = position - delta;
    if x < 0 {
        x + usize_modulus()
    } else if x >= usize_modulus() {
        x - usize_modulus()
    } else {
        x
    }
}

/// The position after moving `delta` entries towards the present (positions count back from the
/// newest entry), if it stays inside a history of `length` entries.
pub open spec fn advanced(position: int, length: int, delta: int) -> Option<int> {
    let q = wrapping_sub(position, delta);
    if q < length {
        Some(q)
    } else {
        None
    }
}

/// The collection that the history records for `c`: a folder is recorded by its name alone.
pub open spec fn sanitize_view(c: CollectionView) -> CollectionView {
    match c {
        CollectionView::Folder(name, _) => CollectionView::Folder(name, seq![]),
        other => other,
    }
}

/// What a history entry records.
pub open spec fn entry_view(e: HistoryEntry) -> (CollectionView, Seq<char>, Seq<ItemView>) {
    (e.collection@, e.search@, items_view(e.selection@))
}

/// The first index from `i` on whose collection the history records as `target`.
pub open spec fn find_collection_from(
    cols: Seq<Rc<PrefsCollection>>,
    target: CollectionView,
    i: int,
) -> Option<int>
    decreases cols.len() - i,
{
    if i < 0 || i >= cols.len() {
        None
    } else if sanitize_view(cols[i]@) == target {
        Some(i)
    } else {
        find_collection_from(cols, target, i + 1)
    }
}

/// The history records a folder by its name with no items, and any other collection as
/// it is.
pub proof fn lemma_recorded_folder_has_no_items(c: CollectionView)
    ensures
        c matches CollectionView::Folder(name, _) ==> sanitize_view(c) == CollectionView::Folder(
            name,
            Seq::<ItemView>::empty(),
        ),
        !(c is Folder) ==> sanitize_view(c) == c,
        sanitize_view(sanitize_view(c)) == sanitize_view(c),
{
}

proof fn lemma_folder_found_from(cols: Seq<Rc<PrefsCollection>>, j: int, name: Seq<char>, items: Seq<ItemView>, i: int)
    requires
        0 <= i <= j < cols.len(),
        cols[j]@ matches CollectionView::Folder(n, _) && n == name,
        forall|k: int| 0 <= k < j ==> !(#[trigger] cols[k]@ matches CollectionView::Folder(n, _) && n == name),
    ensures
        find_collection_from(cols, sanitize_view(CollectionView::Folder(name, items)), i) == Some(j),
    decreases j - i,
{
    if i < j {
        assert(!(cols[i]@ matches CollectionView::Folder(n, _) && n == name));
        lemma_folder_found_from(cols, j, name, items, i + 1);
    }
}

/// A visit to a folder is found again among the collections by the folder's name,
/// whatever items the folder held when it was visited and whatever it holds now: the
/// first folder of that name is the one found.
pub proof fn lemma_folder_found_whatever_items(
    cols: Seq<Rc<PrefsCollection>>,
    j: int,
    name: Seq<char>,
    visited_items: Seq<ItemView>,
)
    requires
        0 <= j < cols.len(),
        cols[j]@ matches CollectionView::Folder(n, _) && n == name,
        forall|k: int| 0 <= k < j ==> !(#[trigger] cols[k]@ matches CollectionView::Folder(n, _) && n == name),
    ensures
        find_collection_from(cols, sanitize_view(CollectionView::Folder(name, visited_items)), 0) == Some(j),
{
    lemma_folder_found_from(cols, j, name, visited_items, 0);
}

/// The position after moving `delta` entries, if it stays inside a history of `length` entries.
pub fn advance_position(position: usize, length: usize, delta: isize) -> (r: Option<usize>)
    requires
        position < length,
        delta != isize::MIN,
    ensures
        match r {
            Some(q) => advanced(position as int, length as int, delta as int) == Some(q as int),
            None => advanced(position as int, length as int, delta as int) is None,
        },
{
    let q: usize = if delta >= 0 {
        let d = delta as usize;
        if d <= position {
            position - d
        } else {
            usize::MAX - (d - position - 1)
        }
    } else {
        let d = (-delta) as usize;
        if position <= usize::MAX - d {
            position + d
        } else {
            d - (usize::MAX - position) - 1
        }
    };
    if q < length {
        Some(q)
    } else {
        None
    }
}

/// Moving `delta` entries and then `-delta` entries comes back to where one started.
pub proof fn lemma_advance_back(position: usize, length: usize, delta: isize)
    requires
        position < length,
        delta != isize::MIN,
    ensures
        advanced(position as int, length as int, delta as int) matches Some(q) ==> advanced(
            q,
            length as int,
            -delta,
        ) == Some(position as int),
{
}

/// The collection as the history records it: a folder loses its items.
pub fn sanitize_collection(collection: Rc<PrefsCollection>) -> (r: Rc<PrefsCollection>)
    ensures
        r@ == sanitize_view(collection@),
{
    let name = match &*collection {
        PrefsCollection::Folder { name, .. } => Some(string_copy(name)),
        _ => None,
    };
    match name {
        Some(name) => {
            let items: Vec<crate::prefs::PrefsItem> = Vec::new();
            assert(items_view(items@) =~= seq![]);
            let folder = PrefsCollection::Folder { name, items };
            Rc::new(folder)
        },
        None => collection,
    }
}

/// Something that holds a browsing history and the list of collections.
pub trait HistoryContainer {
    /// The entries of the history, oldest first.
    spec fn history_entries(&self) -> Seq<HistoryEntry>;

    /// How many entries back from the newest the current one is.
    spec fn history_pos(&self) -> int;

    /// The collections in the preferences.
    spec fn history_collections(&self) -> Seq<Rc<PrefsCollection>>;

    fn entries(&self) -> (r: (&[HistoryEntry], usize))
        ensures
            r.0@ == self.history_entries(),
            r.1 as int == self.history_pos(),
    ;

    /// The entries and the position, to change in place.
    fn entries_mut(&mut self) -> ((history, position): (&mut Vec<HistoryEntry>, &mut usize))
        ensures
            history@ == old(self).history_entries(),
            *position as int == old(self).history_pos(),
            final(self).history_entries() == final(history)@,
            final(self).history_pos() == *final(position) as int,
            final(self).history_collections() == old(self).history_collections(),
    ;

    fn collections(&self) -> (r: &[Rc<PrefsCollection>])
        ensures
            r@ == self.history_collections(),
    ;

    /// The entry at `index`, to change in place.
    fn entry_mut(&mut self, index: usize) -> (r: &mut HistoryEntry)
        requires
            index < old(self).history_entries().len(),
        ensures
            *r == old(self).history_entries()[index as int],
            final(self).history_entries() == old(self).history_entries().update(
                index as int,
                *final(r),
            ),
            final(self).history_pos() == old(self).history_pos(),
            final(self).history_collections() == old(self).history_collections(),
    ;
}

/// Browsing through the history.
pub trait History: HistoryContainer {
    /// Records a visit to `collection` as the newest entry and makes it current; the entries
    /// after the current one are dropped and at most the newest ten are kept.
    fn history_push(&mut self, collection: Rc<PrefsCollection>)
        ensures
            ({
                let h = old(self).history_entries();
                let p = old(self).history_pos();
                let keep = if 0 <= p <= h.len() {
                    h.len() - p
                } else {
                    0
                };
                let fin = final(self).history_entries();
                let n = if keep + 1 > MAX_HISTORY_LEN {
                    MAX_HISTORY_LEN as int
                } else {
                    keep + 1
                };
                &&& fin.len() == n
                &&& forall|i: int|
                    0 <= i < n - 1 ==> #[trigger] fin[i] == h[keep - (n - 1) + i]
                &&& entry_view(fin[n - 1]) == (
                    sanitize_view(collection@),
                    Seq::<char>::empty(),
                    Seq::<ItemView>::empty(),
                )
                &&& final(self).history_pos() == 0
                &&& final(self).history_collections() == old(self).history_collections()
            }),
    ;

    /// Moves `delta` entries through the history.
    fn history_advance(&mut self, delta: isize)
        requires
            0 <= old(self).history_pos() < old(self).history_entries().len(),
            delta != isize::MIN,
            advanced(old(self).history_pos(), old(self).history_entries().len() as int, delta as int) is Some,
        ensures
            Some(final(self).history_pos()) == advanced(
                old(self).history_pos(),
                old(self).history_entries().len() as int,
                delta as int,
            ),
            final(self).history_entries() == old(self).history_entries(),
            final(self).history_collections() == old(self).history_collections(),
    ;

    /// Whether moving `delta` entries stays inside the history.
    fn can_history_advance(&self, delta: isize) -> (r: bool)
        requires
            0 <= self.history_pos() < self.history_entries().len(),
            delta != isize::MIN,
        ensures
            r == advanced(self.history_pos(), self.history_entries().len() as int, delta as int) is Some,
    ;

    /// The collection of the current entry: the first collection in the preferences that the
    /// history records the same way, with its index, or else the recorded collection itself.
    fn current_collection(&self) -> (r: (Rc<PrefsCollection>, Option<usize>))
        requires
            0 <= self.history_pos() < self.history_entries().len(),
        ensures
            ({
                let cur = self.history_entries()[self.history_entries().len() - 1 - self.history_pos()];
                match find_collection_from(self.history_collections(), cur.collection@, 0) {
                    Some(i) => r.1 == Some(i as usize) && r.0 == self.history_collections()[i],
                    None => r.1 is None && r.0 == cur.collection,
                }
            }),
    ;

    /// The current entry.
    fn current_history_entry(&self) -> (r: &HistoryEntry)
        requires
            0 <= self.history_pos() < self.history_entries().len(),
        ensures
            *r == self.history_entries()[self.history_entries().len() - 1 - self.history_pos()],
    ;

    /// The current entry, to change in place; the other entries stay as they are.
    fn current_history_entry_mut(&mut self) -> (r: &mut HistoryEntry)
        requires
            0 <= old(self).history_pos() < old(self).history_entries().len(),
        ensures
            ({
                let i = old(self).history_entries().len() - 1 - old(self).history_pos();
                &&& *r == old(self).history_entries()[i]
                &&& final(self).history_entries() == old(self).history_entries().update(i, *final(r))
                &&& final(self).history_pos() == old(self).history_pos()
                &&& final(self).history_collections() == old(self).history_collections()
            }),
    ;
}

impl<T: HistoryContainer> History for T {
    fn history_push(&mut self, collection: Rc<PrefsCollection>) {
        let selection: Vec<crate::prefs::PrefsItem> = Vec::new();
        assert(items_view(selection@) =~= Seq::<ItemView>::empty());
        let history_entry = HistoryEntry {
            collection: sanitize_collection(collection),
            search: String::new(),
            selection,
        };
        let (history, position) = self.entries_mut();
        let keep = if *position <= history.len() {
            history.len() - *position
        } else {
            0
        };
        history.truncate(keep);
        history.push(history_entry);
        *position = 0;
        if history.len() > MAX_HISTORY_LEN {
            let start = history.len() - MAX_HISTORY_LEN;
            let rest = history.split_off(start);
            *history = rest;
        }
    }

    fn history_advance(&mut self, delta: isize) {
        let (history, position) = self.entries_mut();
        let new_position = advance_position(*position, history.len(), delta);
        match new_position {
            Some(p) => {
                *position = p;
            },
            None => {
                assert(false);
            },
        }
    }

    fn can_history_advance(&self, delta: isize) -> (r: bool) {
        let (history, position) = self.entries();
        advance_position(position, history.len(), delta).is_some()
    }

    fn current_collection(&self) -> (r: (Rc<PrefsCollection>, Option<usize>)) {
        let target = self.current_history_entry();
        let collections = self.collections();
        let mut i: usize = 0;
        while i < collections.len()
            invariant
                i <= collections@.len(),
                collections@ == self.history_collections(),
                0 <= self.history_pos() < self.history_entries().len(),
                *target == self.history_entries()[self.history_entries().len() - 1
                    - self.history_pos()],
                find_collection_from(collections@, target.collection@, 0) == find_collection_from(
                    collections@,
                    target.collection@,
                    i as int,
                ),
            decreases collections@.len() - i,
        {
            let sanitized = sanitize_collection(rc_clone(&collections[i]));
            if sanitized.same_as(&target.collection) {
                return (rc_clone(&collections[i]), Some(i));
            }
            i = i + 1;
        }
        (rc_clone(&target.collection), None)
    }

    fn current_history_entry(&self) -> (r: &HistoryEntry) {
        let (history, position) = self.entries();
        &history[history.len() - position - 1]
    }

    fn current_history_entry_mut(&mut self) -> (r: &mut HistoryEntry) {
        let index = {
            let (history, position) = self.entries();
            history.len() - position - 1
        };
        self.entry_mut(index)
    }
}

impl HistoryContainer for Preferences {
    open spec fn history_entries(&self) -> Seq<HistoryEntry> {
        self.history@
    }

    open spec fn history_pos(&self) -> int {
        self.history_position as int
    }

    open spec fn history_collections(&self) -> Seq<Rc<PrefsCollection>> {
        self.collections@
    }

    fn entries(&self) -> (r: (&[HistoryEntry], usize)) {
        (self.history.as_slice(), self.history_position)
    }

    fn entries_mut(&mut self) -> ((history, position): (&mut Vec<HistoryEntry>, &mut usize)) {
        (&mut self.history, &mut self.history_position)
    }

    fn collections(&self) -> (r: &[Rc<PrefsCollection>]) {
        self.collections.as_slice()
    }

    fn entry_mut(&mut self, index: usize) -> (r: &mut HistoryEntry) {
        &mut self.history[index]
    }
}

} // verus!
