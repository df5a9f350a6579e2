use bletchmame::dialogs::file::file_dialog_filters;
use bletchmame::dialogs::file::FileFilter;

fn filter(name: &str, extension: &str) -> FileFilter {
    FileFilter { name: name.to_string(), extensions: vec![extension.to_string()] }
}

#[test]
fn file_filters_with_and_without_descriptions() {
    let file_types = vec![
        (Some("MAME Saved State Files".to_string()), "sta".to_string()),
        (None, "chd".to_string()),
    ];
    let expected = vec![
        filter("MAME Saved State Files (*.sta)", "sta"),
        filter("CHD files (*.chd)", "chd"),
        filter("All Files (*.*)", "*"),
    ];
    assert_eq!(expected, file_dialog_filters(&file_types));
}

#[test]
fn file_filters_none_given() {
    assert_eq!(vec![filter("All Files (*.*)", "*")], file_dialog_filters(&Vec::new()));
}
