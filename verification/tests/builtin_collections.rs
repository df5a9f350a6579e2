use std::rc::Rc;

use bletchmame::dialogs::builtincollections::apply_builtin_changes;
use bletchmame::prefs::PrefsCollection;
use bletchmame::dialogs::builtincollections::builtin_collection_changes;
use bletchmame::dialogs::builtincollections::builtin_collections_ok_enabled;
use bletchmame::dialogs::builtincollections::BuiltinCollectionDisplay;
use bletchmame::dialogs::builtincollections::ChangeType;
use bletchmame::prefs::BuiltinCollection;

fn display(original_checked: bool, checked: bool) -> BuiltinCollectionDisplay {
    BuiltinCollectionDisplay { checked, original_checked, comments: String::new(), text: String::new() }
}

fn items() -> Vec<BuiltinCollection> {
    vec![BuiltinCollection::All, BuiltinCollection::AllSoftware, BuiltinCollection::Favorites, BuiltinCollection::Recent]
}

#[test]
fn builtin_collections_unchanged_rows() {
    let displays = vec![display(true, true), display(false, false), display(true, true), display(false, false)];
    assert!(!builtin_collections_ok_enabled(&displays));
    assert!(builtin_collection_changes(&displays, &items()).is_empty());
}

#[test]
fn builtin_collections_additions_and_removals() {
    let displays = vec![display(true, false), display(false, false), display(false, true), display(true, true)];
    assert!(builtin_collections_ok_enabled(&displays));
    assert_eq!(
        vec![(BuiltinCollection::All, ChangeType::Subtraction), (BuiltinCollection::Favorites, ChangeType::Addition)],
        builtin_collection_changes(&displays, &items())
    );
}

#[test]
fn builtin_changes_applied() {
    let folder = Rc::new(PrefsCollection::Folder { name: "Shooters".to_string(), items: vec![] });
    let collections = vec![
        Rc::new(PrefsCollection::Builtin(BuiltinCollection::All)),
        folder.clone(),
        Rc::new(PrefsCollection::Builtin(BuiltinCollection::Favorites)),
        Rc::new(PrefsCollection::Builtin(BuiltinCollection::All)),
    ];
    assert!(apply_builtin_changes(&collections, &vec![]).is_none());
    let changes = vec![
        (BuiltinCollection::Recent, ChangeType::Addition),
        (BuiltinCollection::All, ChangeType::Subtraction),
        (BuiltinCollection::AllSoftware, ChangeType::Addition),
    ];
    let result = apply_builtin_changes(&collections, &changes).unwrap();
    let expected = vec![
        folder,
        Rc::new(PrefsCollection::Builtin(BuiltinCollection::Favorites)),
        Rc::new(PrefsCollection::Builtin(BuiltinCollection::Recent)),
        Rc::new(PrefsCollection::Builtin(BuiltinCollection::AllSoftware)),
    ];
    assert_eq!(expected, result);
}
