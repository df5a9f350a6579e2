//! Operations on the list of collections in the preferences.
use std::rc::Rc;

use vstd::prelude::*;

use crate::prefs::{
    items_view, rc_clone, string_copy, BuiltinCollection, CollectionView, ItemView,
    PrefsCollection, PrefsItem,
};

verus! {

/// `c` is a folder.
pub open spec fn is_folder(c: CollectionView) -> bool {
    c is Folder
}

/// `c` is the built-in collection `b`.
pub open spec fn is_builtin(c: CollectionView, b: BuiltinCollection) -> bool {
    c == CollectionView::Builtin(b)
}

/// The indices of the folders in `s`, in order.
pub open spec fn folder_indices(s: Seq<Rc<PrefsCollection>>) -> Seq<int>
    decreases s.len(),
{
    if s.len() == 0 {
        seq![]
    } else {
        let prev = folder_indices(s.drop_last());
        if is_folder(s.last()@) {
            prev.push(s.len() - 1)
        } else {
            prev
        }
    }
}

/// The names of the folders in `s`, in order.
pub open spec fn folder_names(s: Seq<Rc<PrefsCollection>>) -> Seq<Seq<char>>
    decreases s.len(),
{
    if s.len() == 0 {
        seq![]
    } else {
        let prev = folder_names(s.drop_last());
        match s.last()@ {
            CollectionView::Folder(name, _) => prev.push(name),
            _ => prev,
        }
    }
}

/// The collections of `s` that are not the built-in collection `b`, in order.
pub open spec fn without_builtin(s: Seq<CollectionView>, b: BuiltinCollection) -> Seq<CollectionView>
    decreases s.len(),
{
    if s.len() == 0 {
        seq![]
    } else {
        let prev = without_builtin(s.drop_last(), b);
        if is_builtin(s.last(), b) {
            prev
        } else {
            prev.push(s.last())
        }
    }
}

/// The items of `new_items` that are not in `existing`, in order.
pub open spec fn items_not_in(new_items: Seq<ItemView>, existing: Seq<ItemView>) -> Seq<ItemView>
    decreases new_items.len(),
{
    if new_items.len() == 0 {
        seq![]
    } else {
        let prev = items_not_in(new_items.drop_last(), existing);
        if existing.contains(new_items.last()) {
            prev
        } else {
            prev.push(new_items.last())
        }
    }
}

/// The views of a list of collections.
pub open spec fn collections_view(s: Seq<Rc<PrefsCollection>>) -> Seq<CollectionView> {
    s.map_values(|c: Rc<PrefsCollection>| c@)
}

/// The folders among `collections`, each with its index.
pub fn get_folder_collections(collections: &[Rc<PrefsCollection>]) -> (r: Vec<
    (usize, Rc<PrefsCollection>),
>)
    ensures
        r@.len() == folder_indices(collections@).len(),
        forall|k: int|
            0 <= k < r@.len() ==> #[trigger] r@[k].0 == folder_indices(collections@)[k]
                && r@[k].1 == collections@[r@[k].0 as int],
{
    let mut r: Vec<(usize, Rc<PrefsCollection>)> = Vec::new();
    let mut i: usize = 0;
    while i < collections.len()
        invariant
            i <= collections@.len(),
            r@.len() == folder_indices(collections@.take(i as int)).len(),
            forall|k: int|
                0 <= k < r@.len() ==> #[trigger] r@[k].0 == folder_indices(collections@.take(i as int))[k]
                    && r@[k].1 == collections@[r@[k].0 as int],
        decreases collections@.len() - i,
    {
        assert(collections@.take(i + 1).drop_last() =~= collections@.take(i as int));
        let c = &collections[i];
        match &**c {
            PrefsCollection::Folder { .. } => {
                r.push((i, rc_clone(c)));
            },
            _ => {},
        }
        i = i + 1;
    }
    assert(collections@.take(collections@.len() as int) =~= collections@);
    r
}

/// The names of the folders among `collections`, in order.
pub fn get_folder_collection_names(collections: &[Rc<PrefsCollection>]) -> (r: Vec<String>)
    ensures
        r@.len() == folder_names(collections@).len(),
        forall|k: int| 0 <= k < r@.len() ==> #[trigger] r@[k]@ == folder_names(collections@)[k],
{
    let mut r: Vec<String> = Vec::new();
    let mut i: usize = 0;
    while i < collections.len()
        invariant
            i <= collections@.len(),
            r@.len() == folder_names(collections@.take(i as int)).len(),
            forall|k: int|
                0 <= k < r@.len() ==> #[trigger] r@[k]@ == folder_names(collections@.take(i as int))[k],
        decreases collections@.len() - i,
    {
        assert(collections@.take(i + 1).drop_last() =~= collections@.take(i as int));
        match &*collections[i] {
            PrefsCollection::Folder { name, .. } => {
                r.push(string_copy(name));
            },
            _ => {},
        }
        i = i + 1;
    }
    assert(collections@.take(collections@.len() as int) =~= collections@);
    r
}

/// Adds a new folder, named `name` and holding `items`, at the end of `collections`.
pub fn add_items_to_new_folder_collection(
    collections: &mut Vec<Rc<PrefsCollection>>,
    name: String,
    items: Vec<PrefsItem>,
)
    ensures
        final(collections)@ == old(collections)@.push(
            Rc::new(PrefsCollection::Folder { name, items }),
        ),
{
    let col = PrefsCollection::Folder { name, items };
    let col = Rc::new(col);
    collections.push(col);
}

/// Adds to the folder at `folder_index` those of `new_items` that it does not hold yet.
pub fn add_items_to_existing_folder_collection(
    collections: &mut Vec<Rc<PrefsCollection>>,
    folder_index: usize,
    new_items: Vec<PrefsItem>,
)
    requires
        folder_index < old(collections)@.len(),
        is_folder(old(collections)@[folder_index as int]@),
    ensures
        final(collections)@.len() == old(collections)@.len(),
        forall|k: int|
            0 <= k < old(collections)@.len() && k != folder_index
                ==> #[trigger] final(collections)@[k] == old(collections)@[k],
        match old(collections)@[folder_index as int]@ {
            CollectionView::Folder(name, items) => final(collections)@[folder_index as int]@
                == CollectionView::Folder(name, items + items_not_in(items_view(new_items@), items)),
            _ => false,
        },
{
    let (name, items) = match &*collections[folder_index] {
        PrefsCollection::Folder { name, items } => (string_copy(name), crate::prefs::items_copy(
            items,
        )),
        _ => {
            assert(false);
            (String::new(), Vec::new())
        },
    };
    let ghost old_items = items_view(items@);
    let old_len = items.len();
    let mut all = items;
    let mut i: usize = 0;
    while i < new_items.len()
        invariant
            i <= new_items@.len(),
            items_view(all@) == old_items + items_not_in(
                items_view(new_items@.take(i as int)),
                old_items,
            ),
            old_items.len() <= all@.len(),
            old_len == old_items.len(),
            forall|k: int| 0 <= k < old_items.len() ==> #[trigger] all@[k]@ == old_items[k],
        decreases new_items@.len() - i,
    {
        assert(items_view(new_items@.take(i + 1)).drop_last() =~= items_view(
            new_items@.take(i as int),
        ));
        assert(items_view(new_items@.take(i + 1)).last() == new_items@[i as int]@);
        assert(items_view(all@).take(old_len as int) =~= old_items);
        let contained = in_prefix(&all, old_len, &new_items[i]);
        if !contained {
            let ghost before = items_view(all@);
            all.push(new_items[i].copy_of());
            assert(items_view(all@) =~= before.push(new_items@[i as int]@));
        }
        i = i + 1;
    }
    assert(new_items@.take(new_items@.len() as int) =~= new_items@);
    let col = Rc::new(PrefsCollection::Folder { name, items: all });
    collections.set(folder_index, col);
}

/// Whether the first `n` items of `items` hold one that is the same as `x`.
fn in_prefix(items: &Vec<PrefsItem>, n: usize, x: &PrefsItem) -> (r: bool)
    requires
        n <= items@.len(),
    ensures
        r == items_view(items@).take(n as int).contains(x@),
{
    let mut i: usize = 0;
    while i < n
        invariant
            i <= n <= items@.len(),
            forall|k: int| 0 <= k < i ==> items@[k]@ != x@,
        decreases n - i,
    {
        if items[i].same_as(x) {
            assert(items_view(items@).take(n as int)[i as int] == x@);
            return true;
        }
        i = i + 1;
    }
    proof {
        if items_view(items@).take(n as int).contains(x@) {
            let k = choose|k: int|
                0 <= k < items_view(items@).take(n as int).len() && items_view(items@).take(
                    n as int,
                )[k] == x@;
            assert(items@[k]@ == x@);
        }
    }
    false
}

/// Removes the built-in collection `builtin` from `collections` if it is there; adds it at the
/// end otherwise.
pub fn toggle_builtin_collection(collections: &mut Vec<Rc<PrefsCollection>>, builtin: BuiltinCollection)
    ensures
        ({
            let kept = without_builtin(collections_view(old(collections)@), builtin);
            if kept.len() == old(collections)@.len() {
                collections_view(final(collections)@) == kept.push(CollectionView::Builtin(builtin))
            } else {
                collections_view(final(collections)@) == kept
            }
        }),
{
    let ghost old_view = collections_view(collections@);
    let old_len = collections.len();
    let mut kept: Vec<Rc<PrefsCollection>> = Vec::new();
    let mut i: usize = 0;
    while i < collections.len()
        invariant
            i <= collections@.len(),
            old_view == collections_view(collections@),
            collections_view(kept@) == without_builtin(old_view.take(i as int), builtin),
        decreases collections@.len() - i,
    {
        assert(old_view.take(i + 1).drop_last() =~= old_view.take(i as int));
        let is_this = match &*collections[i] {
            PrefsCollection::Builtin(b) => *b == builtin,
            _ => false,
        };
        if !is_this {
            let ghost before = collections_view(kept@);
            kept.push(rc_clone(&collections[i]));
            assert(collections_view(kept@) =~= before.push(old_view[i as int]));
        }
        i = i + 1;
    }
    assert(old_view.take(old_len as int) =~= old_view);
    if kept.len() == old_len {
        let ghost before = collections_view(kept@);
        kept.push(Rc::new(PrefsCollection::Builtin(builtin)));
        assert(collections_view(kept@) =~= before.push(CollectionView::Builtin(builtin)));
    }
    *collections = kept;
}

/// Whether `s` holds the built-in collection `b`.
pub open spec fn has_builtin(s: Seq<CollectionView>, b: BuiltinCollection) -> bool {
    s.contains(CollectionView::Builtin(b))
}

proof fn lemma_without_builtin(s: Seq<CollectionView>, b: BuiltinCollection)
    ensures
        without_builtin(s, b).len() <= s.len(),
        without_builtin(s, b).len() == s.len() <==> !has_builtin(s, b),
        !has_builtin(without_builtin(s, b), b),
        !has_builtin(s, b) ==> without_builtin(s, b) == s,
        forall|c: CollectionView|
            c != CollectionView::Builtin(b) ==> (#[trigger] without_builtin(s, b).contains(c)
                <==> s.contains(c)),
    decreases s.len(),
{
    if s.len() > 0 {
        let p = s.drop_last();
        lemma_without_builtin(p, b);
        let w = without_builtin(p, b);
        assert forall|c: CollectionView| #[trigger] s.contains(c) <==> (p.contains(c) || c == s.last()) by {
            if s.contains(c) {
                let k = choose|k: int| 0 <= k < s.len() && s[k] == c;
                if k < s.len() - 1 {
                    assert(p[k] == c);
                }
            }
            if p.contains(c) {
                let k = choose|k: int| 0 <= k < p.len() && p[k] == c;
                assert(s[k] == c);
            }
            if c == s.last() {
                assert(s[s.len() - 1] == c);
            }
        }
        if !is_builtin(s.last(), b) {
            assert forall|c: CollectionView| #[trigger] w.push(s.last()).contains(c) <==> (w.contains(c)
                || c == s.last()) by {
                if w.push(s.last()).contains(c) {
                    let k = choose|k: int| 0 <= k < w.len() + 1 && w.push(s.last())[k] == c;
                    if k < w.len() {
                        assert(w[k] == c);
                    }
                }
                if w.contains(c) {
                    let k = choose|k: int| 0 <= k < w.len() && w[k] == c;
                    assert(w.push(s.last())[k] == c);
                }
                if c == s.last() {
                    assert(w.push(s.last())[w.len() as int] == c);
                }
            }
            if !has_builtin(s, b) {
                assert(s =~= p.push(s.last()));
            }
        }
    } else {
        assert(!s.contains(CollectionView::Builtin(b)));
    }
}

/// The folder names are the names of the folder collections, in collection order,
/// duplicates kept: the `k`-th name is that of the collection at the `k`-th folder index.
pub proof fn lemma_folder_names_of_folder_collections(s: Seq<Rc<PrefsCollection>>)
    ensures
        folder_names(s).len() == folder_indices(s).len(),
        forall|k: int|
            0 <= k < folder_indices(s).len() ==> {
                let j = #[trigger] folder_indices(s)[k];
                &&& 0 <= j < s.len()
                &&& s[j]@ matches CollectionView::Folder(name, _) && name == folder_names(s)[k]
            },
    decreases s.len(),
{
    if s.len() > 0 {
        let prev = s.drop_last();
        lemma_folder_names_of_folder_collections(prev);
        assert forall|k: int| 0 <= k < folder_indices(prev).len() implies {
            let j = #[trigger] folder_indices(s)[k];
            &&& 0 <= j < s.len()
            &&& s[j]@ matches CollectionView::Folder(name, _) && name == folder_names(s)[k]
        } by {
            let j = folder_indices(prev)[k];
            assert(folder_indices(s)[k] == j);
            assert(s[j] == prev[j]);
        }
    }
}

/// Toggling a built-in collection flips whether the collections hold it, and leaves every other
/// collection where it was; toggling twice a built-in collection that was not there gives back
/// the collections one started with.
pub proof fn lemma_toggle_builtin(s: Seq<CollectionView>, b: BuiltinCollection)
    ensures
        ({
            let kept = without_builtin(s, b);
            let toggled = if kept.len() == s.len() {
                kept.push(CollectionView::Builtin(b))
            } else {
                kept
            };
            &&& has_builtin(toggled, b) <==> !has_builtin(s, b)
            &&& forall|c: CollectionView|
                c != CollectionView::Builtin(b) ==> (#[trigger] toggled.contains(c) <==> s.contains(
                    c,
                ))
            &&& !has_builtin(s, b) ==> ({
                let kept2 = without_builtin(toggled, b);
                kept2.len() != toggled.len() && kept2 == s
            })
        }),
{
    lemma_without_builtin(s, b);
    let kept = without_builtin(s, b);
    if kept.len() == s.len() {
        let t = kept.push(CollectionView::Builtin(b));
        assert(t[kept.len() as int] == CollectionView::Builtin(b));
        assert forall|c: CollectionView| c != CollectionView::Builtin(b) implies (#[trigger] t.contains(c)
            <==> s.contains(c)) by {
            if t.contains(c) {
                let k = choose|k: int| 0 <= k < t.len() && t[k] == c;
                assert(kept[k] == c);
            }
            if kept.contains(c) {
                let k = choose|k: int| 0 <= k < kept.len() && kept[k] == c;
                assert(t[k] == c);
            }
        }
        lemma_without_builtin(t, b);
        assert(t.drop_last() =~= kept);
        assert(without_builtin(t, b) == without_builtin(kept, b));
    }
}

} // verus!
