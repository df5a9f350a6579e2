//! The rows of the dialog that edits the lists of paths: one row per path, and an empty
//! row to type a new one into.
use crate::text::strings_view;
use vstd::prelude::*;

verus! {

/// A row of the paths dialog: the path's text, and whether it names nothing on disk.
#[derive(Clone, Debug, PartialEq, Eq)]
pub struct PathsListViewItem {
    pub text: String,
    pub is_error: bool,
}

/// A row, by its text's characters and its error mark.
pub open spec fn item_view(item: PathsListViewItem) -> (Seq<char>, bool) {
    (item.text@, item.is_error)
}

/// The rows, each by its text's characters and its error mark.
pub open spec fn items_view(items: Seq<PathsListViewItem>) -> Seq<(Seq<char>, bool)> {
    items.map_values(|item: PathsListViewItem| item_view(item))
}

/// Whether the dialog offers an empty row after the paths: where the type of path takes
/// several paths, or where no path is set.
pub open spec fn has_append_row(paths: Seq<Seq<char>>, is_multi: bool) -> bool {
    is_multi || paths.len() == 0
}

/// The rows for `paths`: each path, marked as an error where `exists` says it names
/// nothing, then the empty row where the dialog offers one.
pub open spec fn rows_for_paths(paths: Seq<Seq<char>>, exists: Seq<bool>, is_multi: bool) -> Seq<(Seq<char>, bool)> {
    let rows = Seq::new(paths.len(), |k: int| (paths[k], !exists[k]));
    if has_append_row(paths, is_multi) {
        rows.push((Seq::empty(), false))
    } else {
        rows
    }
}

/// The texts of the rows that are not empty, in order.
pub open spec fn nonempty_texts(rows: Seq<(Seq<char>, bool)>) -> Seq<Seq<char>>
    decreases rows.len(),
{
    if rows.len() == 0 {
        Seq::empty()
    } else {
        let before = nonempty_texts(rows.drop_last());
        if rows.last().0.len() > 0 {
            before.push(rows.last().0)
        } else {
            before
        }
    }
}

/// The rows of the dialog for `paths`; `exists` says, path by path, whether the path
/// names something on disk.
pub fn path_entries(paths: &Vec<String>, exists: &Vec<bool>, is_multi: bool) -> (r: Vec<PathsListViewItem>)
    requires
        paths.len() == exists.len(),
    ensures
        items_view(r@) == rows_for_paths(strings_view(paths@), exists@, is_multi),
{
    let mut rows: Vec<PathsListViewItem> = Vec::new();
    let mut k: usize = 0;
    while k < paths.len()
        invariant
            k <= paths.len(),
            paths.len() == exists.len(),
            rows.len() == k,
            forall|j: int| 0 <= j < k ==> #[trigger] item_view(rows@[j]) == (paths@[j]@, !exists@[j]),
        decreases paths.len() - k,
    {
        rows.push(PathsListViewItem { text: paths[k].clone(), is_error: !exists[k] });
        k = k + 1;
    }
    let ghost base = Seq::new(paths@.len(), |k: int| (strings_view(paths@)[k], !exists@[k]));
    assert(items_view(rows@) =~= base);
    if is_multi || paths.len() == 0 {
        rows.push(PathsListViewItem { text: String::new(), is_error: false });
        assert(items_view(rows@) =~= base.push((Seq::empty(), false)));
    }
    rows
}

/// The paths that the rows hold: the text of each row that is not empty, in order.
pub fn paths_from_entries(entries: &Vec<PathsListViewItem>) -> (r: Vec<String>)
    ensures
        strings_view(r@) == nonempty_texts(items_view(entries@)),
{
    let mut paths: Vec<String> = Vec::new();
    let mut k: usize = 0;
    while k < entries.len()
        invariant
            k <= entries.len(),
            strings_view(paths@) == nonempty_texts(items_view(entries@.take(k as int))),
        decreases entries.len() - k,
    {
        proof {
            assert(items_view(entries@.take(k + 1)).drop_last() =~= items_view(entries@.take(k as int)));
            assert(items_view(entries@.take(k + 1)).last() == item_view(entries@[k as int]));
        }
        if !entries[k].text.as_str().is_empty() {
            paths.push(entries[k].text.clone());
            proof {
                assert(strings_view(paths@) =~= nonempty_texts(items_view(entries@.take(k as int))).push(
                    entries@[k as int].text@,
                ));
            }
        }
        k = k + 1;
    }
    assert(entries@.take(entries@.len() as int) =~= entries@);
    paths
}

/// Puts an empty row at `row`, moving the rows from there on down by one.
pub fn insert_entry(entries: &mut Vec<PathsListViewItem>, row: usize)
    requires
        row <= old(entries).len(),
    ensures
        items_view(final(entries)@) == items_view(old(entries)@).insert(row as int, (Seq::empty(), false)),
{
    entries.insert(row, PathsListViewItem { text: String::new(), is_error: false });
    assert(items_view(entries@) =~= items_view(old(entries)@).insert(row as int, (Seq::empty(), false)));
}

/// Takes out row `row`.
pub fn remove_entry(entries: &mut Vec<PathsListViewItem>, row: usize)
    requires
        row < old(entries).len(),
    ensures
        items_view(final(entries)@) == items_view(old(entries)@).remove(row as int),
{
    entries.remove(row);
    assert(items_view(entries@) =~= items_view(old(entries)@).remove(row as int));
}

/// Gives row `row` the text `text`, keeping its error mark.
pub fn set_entry(entries: &mut Vec<PathsListViewItem>, row: usize, text: String)
    requires
        row < old(entries).len(),
    ensures
        items_view(final(entries)@) == items_view(old(entries)@).update(
            row as int,
            (text@, old(entries)@[row as int].is_error),
        ),
{
    entries[row].text = text;
    assert(items_view(entries@) =~= items_view(old(entries)@).update(
        row as int,
        (text@, old(entries)@[row as int].is_error),
    ));
}

/// Reading the paths back from the rows built for them gives the paths, where none of
/// them is empty: the rows keep every path, in order, and the empty row adds none.
pub proof fn lemma_paths_round_trip(paths: Seq<Seq<char>>, exists: Seq<bool>, is_multi: bool)
    requires
        paths.len() == exists.len(),
        forall|k: int| 0 <= k < paths.len() ==> (#[trigger] paths[k]).len() > 0,
    ensures
        nonempty_texts(rows_for_paths(paths, exists, is_multi)) == paths,
{
    let rows = Seq::new(paths.len(), |k: int| (paths[k], !exists[k]));
    lemma_rows_keep_paths(paths, exists, paths.len() as int);
    assert(rows.take(paths.len() as int) =~= rows);
    assert(paths.take(paths.len() as int) =~= paths);
    if has_append_row(paths, is_multi) {
        assert(rows.push((Seq::empty(), false)).drop_last() =~= rows);
    }
}

proof fn lemma_rows_keep_paths(paths: Seq<Seq<char>>, exists: Seq<bool>, n: int)
    requires
        paths.len() == exists.len(),
        0 <= n <= paths.len(),
        forall|k: int| 0 <= k < paths.len() ==> (#[trigger] paths[k]).len() > 0,
    ensures
        nonempty_texts(Seq::new(paths.len(), |k: int| (paths[k], !exists[k])).take(n)) == paths.take(n),
    decreases n,
{
    let rows = Seq::new(paths.len(), |k: int| (paths[k], !exists[k]));
    if n == 0 {
        assert(rows.take(0) =~= Seq::<(Seq<char>, bool)>::empty());
        assert(paths.take(0) =~= Seq::<Seq<char>>::empty());
    } else {
        lemma_rows_keep_paths(paths, exists, n - 1);
        assert(rows.take(n).drop_last() =~= rows.take(n - 1));
        assert(rows.take(n).last() == (paths[n - 1], !exists[n - 1]));
        assert(paths.take(n) =~= paths.take(n - 1).push(paths[n - 1]));
    }
}

} // verus!
