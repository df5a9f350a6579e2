use bletchmame::dialogs::configure::bios_options;
use bletchmame::dialogs::configure::chosen_bios;
use bletchmame::dialogs::configure::chosen_ram_size;
use bletchmame::dialogs::configure::ram_options;

#[test]
fn configure_chosen_ram_size() {
    let sizes = vec![65536, 131072, 262144];
    assert_eq!(None, chosen_ram_size(&sizes, 0));
    assert_eq!(None, chosen_ram_size(&sizes, -1));
    assert_eq!(Some(65536), chosen_ram_size(&sizes, 1));
    assert_eq!(Some(262144), chosen_ram_size(&sizes, 3));

    // the choice that the dialog shows gives the configured size back
    let (_, current) = ram_options(&sizes, Some(0), Some(131072)).unwrap();
    assert_eq!(Some(131072), chosen_ram_size(&sizes, current as i32));
    let (_, current) = ram_options(&sizes, Some(0), None).unwrap();
    assert_eq!(None, chosen_ram_size(&sizes, current as i32));
}

#[test]
fn configure_chosen_bios() {
    let biossets = vec![
        ("v1".to_string(), "Version 1".to_string()),
        ("v2".to_string(), "Version 2".to_string()),
    ];
    assert_eq!(None, chosen_bios(&biossets, 0));
    assert_eq!(Some("v2".to_string()), chosen_bios(&biossets, 2));

    let (_, current) = bios_options(&biossets, Some(0), Some("v2")).unwrap();
    assert_eq!(Some("v2".to_string()), chosen_bios(&biossets, current as i32));
}
