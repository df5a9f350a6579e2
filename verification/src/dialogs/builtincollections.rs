//! The dialog that chooses which built-in collections are shown: where each is used,
//! and what accepting the dialog changes.
use std::rc::Rc;

use crate::collections::collections_view;
use crate::prefs::rc_clone;
use crate::prefs::BuiltinCollection;
use crate::prefs::CollectionView;
use crate::prefs::PrefsCollection;
use crate::text::join;
use crate::text::lemma_join_step;
use crate::text::push_str;
use crate::text::string_from_chars;
use vstd::prelude::*;

verus! {

/// The characters of each name in each path.
pub open spec fn usage_view(usage: Seq<Vec<&str>>) -> Seq<Seq<Seq<char>>> {
    usage.map_values(|v: Vec<&str>| v@.map_values(|s: &str| s@))
}

/// Whether any name of any path is non-empty.
pub open spec fn any_named(usage: Seq<Seq<Seq<char>>>) -> bool {
    exists|i: int, j: int| 0 <= i < usage.len() && 0 <= j < usage[i].len() && #[trigger] usage[i][j].len() > 0
}

/// A path as shown: its names separated by " / ", or "<top>" for the empty path.
pub open spec fn path_text(path: Seq<Seq<char>>) -> Seq<char> {
    if path.len() == 0 {
        "<top>"@
    } else {
        join(path, " / "@)
    }
}

/// The usage as shown: the paths' texts, separated by ", ", in parentheses; empty
/// when no path holds a non-empty name.
pub open spec fn usage_text(usage: Seq<Seq<Seq<char>>>) -> Seq<char> {
    if any_named(usage) {
        "("@ + join(usage.map_values(|p: Seq<Seq<char>>| path_text(p)), ", "@) + ")"@
    } else {
        Seq::empty()
    }
}

fn push_path(out: &mut Vec<char>, path: &Vec<&str>)
    ensures
        final(out)@ == old(out)@ + path_text(path@.map_values(|s: &str| s@)),
{
    let ghost p = path@.map_values(|s: &str| s@);
    if path.len() == 0 {
        push_str(out, "<top>");
        return;
    }
    let ghost start = out@;
    for i in 0..path.len()
        invariant
            p == path@.map_values(|s: &str| s@),
            out@ == start + join(p.take(i as int), " / "@),
    {
        if i > 0 {
            push_str(out, " / ");
        }
        push_str(out, path[i]);
        proof {
            lemma_join_step(p, " / "@, i as int);
            assert(p.take(i as int).len() == i);
        }
        assert(out@ =~= start + join(p.take(i + 1), " / "@));
    }
    assert(p.take(path.len() as int) =~= p);
}

/// Describes where a built-in collection is used: each path to it is its names
/// joined by " / " ("<top>" for the top level), the paths are joined by ", " and
/// put in parentheses.  The text is empty when no path has a non-empty name.
pub fn usage_string(usage: &Vec<Vec<&str>>) -> (r: String)
    ensures
        r@ == usage_text(usage_view(usage@)),
{
    let ghost u = usage_view(usage@);
    let mut named = false;
    for i in 0..usage.len()
        invariant
            u == usage_view(usage@),
            named ==> any_named(u),
            !named ==> forall|a: int, b: int|
                0 <= a < i && 0 <= b < u[a].len() ==> #[trigger] u[a][b].len() == 0,
    {
        let n = usage[i].len();
        for j in 0..n
            invariant
                n == usage@[i as int]@.len(),
                u == usage_view(usage@),
                0 <= i < usage.len(),
                named ==> any_named(u),
                !named ==> forall|a: int, b: int|
                    0 <= a < i && 0 <= b < u[a].len() ==> #[trigger] u[a][b].len() == 0,
                !named ==> forall|b: int| 0 <= b < j ==> #[trigger] u[i as int][b].len() == 0,
        {
            assert(u[i as int][j as int] == usage[i as int]@[j as int]@);
            if !usage[i][j].is_empty() {
                named = true;
            }
        }
    }
    if !named {
        assert(!any_named(u));
        return String::new();
    }
    let ghost texts = u.map_values(|p: Seq<Seq<char>>| path_text(p));
    let mut out: Vec<char> = Vec::new();
    push_str(&mut out, "(");
    let ghost start = out@;
    for i in 0..usage.len()
        invariant
            u == usage_view(usage@),
            texts == u.map_values(|p: Seq<Seq<char>>| path_text(p)),
            out@ == start + join(texts.take(i as int), ", "@),
    {
        if i > 0 {
            push_str(&mut out, ", ");
        }
        push_path(&mut out, &usage[i]);
        proof {
            lemma_join_step(texts, ", "@, i as int);
            assert(texts.take(i as int).len() == i);
            assert(texts[i as int] == path_text(usage@[i as int]@.map_values(|s: &str| s@)));
        }
        assert(out@ =~= start + join(texts.take(i + 1), ", "@));
    }
    assert(texts.take(usage.len() as int) =~= texts);
    push_str(&mut out, ")");
    assert(out@ =~= usage_text(u));
    string_from_chars(&out)
}

/// A row of the dialog: whether the collection is checked now, whether it was when the
/// dialog opened, where it is used, and its name.
#[derive(Clone, Debug, PartialEq, Eq)]
pub struct BuiltinCollectionDisplay {
    pub checked: bool,
    pub original_checked: bool,
    pub comments: String,
    pub text: String,
}

/// Whether a built-in collection is to be added to the collections or taken out of them.
#[derive(Clone, Copy, Debug, PartialEq, Eq, Structural)]
pub enum ChangeType {
    Addition,
    Subtraction,
}

/// The change that a row asks for: an addition where it was unchecked and is checked,
/// a removal where it was checked and is not, and none where it is as it was.
pub open spec fn change_of(d: BuiltinCollectionDisplay) -> Option<ChangeType> {
    if !d.original_checked && d.checked {
        Some(ChangeType::Addition)
    } else if d.original_checked && !d.checked {
        Some(ChangeType::Subtraction)
    } else {
        None
    }
}

/// The changes that the rows ask for, each with the collection of its row, in the
/// order of the rows.
pub open spec fn changes_of(displays: Seq<BuiltinCollectionDisplay>, items: Seq<BuiltinCollection>) -> Seq<
    (BuiltinCollection, ChangeType),
>
    decreases displays.len(),
{
    if displays.len() == 0 {
        Seq::empty()
    } else {
        let n = displays.len() - 1;
        let before = changes_of(displays.drop_last(), items);
        match change_of(displays[n]) {
            Some(c) => before.push((items[n], c)),
            None => before,
        }
    }
}

/// Whether some row is not as it was when the dialog opened.
pub open spec fn some_row_changed(displays: Seq<BuiltinCollectionDisplay>) -> bool {
    exists|k: int| 0 <= k < displays.len() && (#[trigger] displays[k]).checked != displays[k].original_checked
}

/// Whether the dialog's OK button is enabled: where some row is not as it was.
pub fn builtin_collections_ok_enabled(displays: &Vec<BuiltinCollectionDisplay>) -> (r: bool)
    ensures
        r == some_row_changed(displays@),
{
    let mut k: usize = 0;
    while k < displays.len()
        invariant
            k <= displays.len(),
            forall|j: int| 0 <= j < k ==> (#[trigger] displays@[j]).checked == displays@[j].original_checked,
        decreases displays.len() - k,
    {
        if displays[k].checked != displays[k].original_checked {
            assert(displays@[k as int].checked != displays@[k as int].original_checked);
            return true;
        }
        k = k + 1;
    }
    false
}

/// The changes that accepting the dialog makes: for each row whose check changed, in
/// order, the collection that `items` lists for that row and whether it is added or
/// taken out.
pub fn builtin_collection_changes(displays: &Vec<BuiltinCollectionDisplay>, items: &Vec<BuiltinCollection>) -> (r:
    Vec<(BuiltinCollection, ChangeType)>)
    requires
        displays.len() == items.len(),
    ensures
        r@ == changes_of(displays@, items@),
{
    let mut changes: Vec<(BuiltinCollection, ChangeType)> = Vec::new();
    let mut k: usize = 0;
    while k < displays.len()
        invariant
            k <= displays.len(),
            displays.len() == items.len(),
            changes@ == changes_of(displays@.take(k as int), items@),
        decreases displays.len() - k,
    {
        proof {
            assert(displays@.take(k + 1).drop_last() =~= displays@.take(k as int));
            assert(displays@.take(k + 1)[k as int] == displays@[k as int]);
        }
        let d = &displays[k];
        if !d.original_checked && d.checked {
            changes.push((items[k], ChangeType::Addition));
        } else if d.original_checked && !d.checked {
            changes.push((items[k], ChangeType::Subtraction));
        }
        k = k + 1;
    }
    assert(displays@.take(displays@.len() as int) =~= displays@);
    changes
}

/// The OK button is enabled exactly when accepting the dialog would change something.
pub proof fn lemma_ok_enabled_iff_changes(displays: Seq<BuiltinCollectionDisplay>, items: Seq<BuiltinCollection>)
    ensures
        some_row_changed(displays) <==> changes_of(displays, items).len() > 0,
    decreases displays.len(),
{
    if displays.len() > 0 {
        let n = displays.len() - 1;
        let before = displays.drop_last();
        lemma_ok_enabled_iff_changes(before, items);
        if some_row_changed(before) {
            let k = choose|k: int| 0 <= k < before.len() && (#[trigger] before[k]).checked != before[k].original_checked;
            assert(displays[k] == before[k]);
        }
        if some_row_changed(displays) && !some_row_changed(before) {
            let k = choose|k: int| 0 <= k < displays.len() && (#[trigger] displays[k]).checked != displays[k].original_checked;
            if k < n {
                assert(before[k] == displays[k]);
            }
        }
        if displays[n].checked != displays[n].original_checked {
            assert(some_row_changed(displays));
        }
    }
}

/// Whether accepting the dialog takes the collection `c` out: a built-in collection whose
/// row asks for its subtraction.
pub open spec fn is_removed(changes: Seq<(BuiltinCollection, ChangeType)>, c: CollectionView) -> bool {
    match c {
        CollectionView::Builtin(b) => changes.contains((b, ChangeType::Subtraction)),
        _ => false,
    }
}

/// The collections of `s` that accepting the dialog keeps, in order.
pub open spec fn after_removals(s: Seq<CollectionView>, changes: Seq<(BuiltinCollection, ChangeType)>) -> Seq<
    CollectionView,
>
    decreases s.len(),
{
    if s.len() == 0 {
        Seq::empty()
    } else {
        let prev = after_removals(s.drop_last(), changes);
        if is_removed(changes, s.last()) {
            prev
        } else {
            prev.push(s.last())
        }
    }
}

/// The built-in collections that accepting the dialog adds, in the order of the changes.
pub open spec fn additions(changes: Seq<(BuiltinCollection, ChangeType)>) -> Seq<CollectionView>
    decreases changes.len(),
{
    if changes.len() == 0 {
        Seq::empty()
    } else {
        let prev = additions(changes.drop_last());
        if changes.last().1 == ChangeType::Addition {
            prev.push(CollectionView::Builtin(changes.last().0))
        } else {
            prev
        }
    }
}

fn is_subtracted(changes: &Vec<(BuiltinCollection, ChangeType)>, b: BuiltinCollection) -> (r: bool)
    ensures
        r == changes@.contains((b, ChangeType::Subtraction)),
{
    let mut k: usize = 0;
    while k < changes.len()
        invariant
            k <= changes@.len(),
            forall|j: int| 0 <= j < k ==> changes@[j] != (b, ChangeType::Subtraction),
        decreases changes@.len() - k,
    {
        if changes[k].0 == b && changes[k].1 == ChangeType::Subtraction {
            assert(changes@[k as int] == (b, ChangeType::Subtraction));
            return true;
        }
        k = k + 1;
    }
    false
}

/// The collections once the dialog's changes are made: `None` where there are no
/// changes; else the collections without the built-in collections taken out, followed by
/// those added, in the order of the changes.
pub fn apply_builtin_changes(
    collections: &Vec<Rc<PrefsCollection>>,
    changes: &Vec<(BuiltinCollection, ChangeType)>,
) -> (r: Option<Vec<Rc<PrefsCollection>>>)
    ensures
        r is None <==> changes@.len() == 0,
        r matches Some(v) ==> collections_view(v@) == after_removals(collections_view(collections@), changes@)
            + additions(changes@),
{
    if changes.len() == 0 {
        return None;
    }
    let ghost old_view = collections_view(collections@);
    let mut result: Vec<Rc<PrefsCollection>> = Vec::new();
    let mut i: usize = 0;
    while i < collections.len()
        invariant
            i <= collections@.len(),
            old_view == collections_view(collections@),
            collections_view(result@) == after_removals(old_view.take(i as int), changes@),
        decreases collections@.len() - i,
    {
        assert(old_view.take(i + 1).drop_last() =~= old_view.take(i as int));
        let removed = match &*collections[i] {
            PrefsCollection::Builtin(b) => is_subtracted(changes, *b),
            _ => false,
        };
        if !removed {
            let ghost before = collections_view(result@);
            result.push(rc_clone(&collections[i]));
            assert(collections_view(result@) =~= before.push(old_view[i as int]));
        }
        i = i + 1;
    }
    assert(old_view.take(collections.len() as int) =~= old_view);
    let ghost kept = collections_view(result@);
    let mut k: usize = 0;
    while k < changes.len()
        invariant
            k <= changes@.len(),
            collections_view(result@) == kept + additions(changes@.take(k as int)),
        decreases changes@.len() - k,
    {
        assert(changes@.take(k + 1).drop_last() =~= changes@.take(k as int));
        if changes[k].1 == ChangeType::Addition {
            let ghost before = collections_view(result@);
            result.push(Rc::new(PrefsCollection::Builtin(changes[k].0)));
            assert(collections_view(result@) =~= before.push(CollectionView::Builtin(changes@[k as int].0)));
        }
        k = k + 1;
    }
    assert(changes@.take(changes.len() as int) =~= changes@);
    Some(result)
}

} // verus!
