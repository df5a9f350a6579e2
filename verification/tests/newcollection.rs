use bletchmame::dialogs::newcollection::create_new_name;
use bletchmame::dialogs::newcollection::is_good_new_name;

fn names(v: &[&str]) -> Vec<String> {
    v.iter().map(|x| x.to_string()).collect()
}

#[test]
fn is_good_new_name_cases() {
    assert!(!is_good_new_name(&names(&[]), ""));
    assert!(is_good_new_name(&names(&[]), "Foo"));
    assert!(is_good_new_name(&names(&[]), "New Collection"));
    assert!(!is_good_new_name(&names(&["New Collection"]), "New Collection"));
    assert!(is_good_new_name(&names(&["New Collection"]), "New Collection 2"));
}

#[test]
fn create_new_name_cases() {
    assert_eq!("New Collection", create_new_name(&names(&[])));
    assert_eq!("New Collection", create_new_name(&names(&["Foo"])));
    assert_eq!("New Collection 2", create_new_name(&names(&["New Collection"])));
    assert_eq!(
        "New Collection 3",
        create_new_name(&names(&["New Collection 2", "New Collection"]))
    );
    assert_eq!(
        "New Collection 2",
        create_new_name(&names(&["New Collection", "New Collection 3"]))
    );
    let many: Vec<String> = (1..=12)
        .map(|k| if k == 1 { "New Collection".to_string() } else { format!("New Collection {k}") })
        .collect();
    assert_eq!("New Collection 13", create_new_name(&many));
}
