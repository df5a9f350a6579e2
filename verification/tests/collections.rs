use std::rc::Rc;

use bletchmame::collections::add_items_to_existing_folder_collection;
use bletchmame::collections::add_items_to_new_folder_collection;
use bletchmame::collections::get_folder_collection_names;
use bletchmame::collections::get_folder_collections;
use bletchmame::collections::toggle_builtin_collection;
use bletchmame::prefs::BuiltinCollection;
use bletchmame::prefs::PrefsCollection;
use bletchmame::prefs::PrefsItem;

fn machine(name: &str) -> PrefsItem {
    PrefsItem::Machine { machine_name: name.to_string() }
}

fn folder(name: &str, items: Vec<PrefsItem>) -> Rc<PrefsCollection> {
    Rc::new(PrefsCollection::Folder { name: name.to_string(), items })
}

#[test]
fn toggle_builtin_collection_twice_restores() {
    let mut collections = vec![
        Rc::new(PrefsCollection::Builtin(BuiltinCollection::All)),
        folder("Shooters", vec![]),
    ];
    toggle_builtin_collection(&mut collections, BuiltinCollection::Favorites);
    assert_eq!(3, collections.len());
    assert_eq!(PrefsCollection::Builtin(BuiltinCollection::Favorites), *collections[2]);
    toggle_builtin_collection(&mut collections, BuiltinCollection::Favorites);
    assert_eq!(2, collections.len());
    assert_eq!(PrefsCollection::Builtin(BuiltinCollection::All), *collections[0]);
    toggle_builtin_collection(&mut collections, BuiltinCollection::All);
    assert_eq!(1, collections.len());
    assert_eq!(folder("Shooters", vec![]), collections[0]);
}

#[test]
fn folder_collections_and_names() {
    let collections = vec![
        Rc::new(PrefsCollection::Builtin(BuiltinCollection::All)),
        folder("Shooters", vec![machine("galaga")]),
        Rc::new(PrefsCollection::SoftwareList { list_name: "coco_cart".to_string() }),
        folder("Puzzles", vec![]),
    ];
    let folders = get_folder_collections(&collections);
    assert_eq!(2, folders.len());
    assert_eq!(1, folders[0].0);
    assert_eq!(3, folders[1].0);
    assert_eq!(vec!["Shooters".to_string(), "Puzzles".to_string()], get_folder_collection_names(&collections));
}

#[test]
fn add_items_to_folders() {
    let mut collections = vec![folder("Shooters", vec![machine("galaga")])];
    add_items_to_new_folder_collection(&mut collections, "New".to_string(), vec![machine("pacman")]);
    assert_eq!(folder("New", vec![machine("pacman")]), collections[1]);
    add_items_to_existing_folder_collection(&mut collections, 0, vec![machine("galaga"), machine("digdug")]);
    assert_eq!(folder("Shooters", vec![machine("galaga"), machine("digdug")]), collections[0]);
    assert_eq!(folder("New", vec![machine("pacman")]), collections[1]);
}

#[test]
fn folder_names_follow_folder_collections() {
    let collections = vec![
        folder("Shooters", vec![]),
        Rc::new(PrefsCollection::Builtin(BuiltinCollection::All)),
        folder("Shooters", vec![machine("galaga")]),
        folder("Puzzles", vec![]),
    ];
    let names: Vec<String> = get_folder_collections(&collections)
        .iter()
        .map(|(_, c)| match &**c {
            PrefsCollection::Folder { name, .. } => name.clone(),
            _ => panic!("expected a folder"),
        })
        .collect();
    assert_eq!(vec!["Shooters".to_string(), "Shooters".to_string(), "Puzzles".to_string()], names);
    assert_eq!(names, get_folder_collection_names(&collections));
}
