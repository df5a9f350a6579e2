use bletchmame::dialogs::paths::insert_entry;
use bletchmame::dialogs::paths::path_entries;
use bletchmame::dialogs::paths::paths_from_entries;
use bletchmame::dialogs::paths::remove_entry;
use bletchmame::dialogs::paths::set_entry;
use bletchmame::dialogs::paths::PathsListViewItem;

fn item(text: &str, is_error: bool) -> PathsListViewItem {
    PathsListViewItem { text: text.to_string(), is_error }
}

fn strings(v: &[&str]) -> Vec<String> {
    v.iter().map(|s| s.to_string()).collect()
}

#[test]
fn path_rows_for_several_paths() {
    let paths = strings(&["/roms", "/missing"]);
    let rows = path_entries(&paths, &vec![true, false], true);
    assert_eq!(vec![item("/roms", false), item("/missing", true), item("", false)], rows);
    assert_eq!(paths, paths_from_entries(&rows));
}

#[test]
fn path_rows_for_single_path_types() {
    let paths = strings(&["/usr/bin/mame"]);
    let rows = path_entries(&paths, &vec![true], false);
    assert_eq!(vec![item("/usr/bin/mame", false)], rows);

    // with no path set, the empty row is offered even where only one path is taken
    let rows = path_entries(&Vec::new(), &Vec::new(), false);
    assert_eq!(vec![item("", false)], rows);
    assert!(paths_from_entries(&rows).is_empty());
}

#[test]
fn path_rows_edits() {
    let mut rows = path_entries(&strings(&["/a", "/b"]), &vec![true, true], true);
    insert_entry(&mut rows, 1);
    assert_eq!(vec![item("/a", false), item("", false), item("/b", false), item("", false)], rows);
    assert_eq!(strings(&["/a", "/b"]), paths_from_entries(&rows));

    set_entry(&mut rows, 1, "/c".to_string());
    assert_eq!(strings(&["/a", "/c", "/b"]), paths_from_entries(&rows));

    remove_entry(&mut rows, 0);
    assert_eq!(strings(&["/c", "/b"]), paths_from_entries(&rows));
}
