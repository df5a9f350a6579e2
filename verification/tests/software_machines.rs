use bletchmame::dialogs::configure::preferred_machines;
use bletchmame::dialogs::configure::set_software_machines_bulk_checked;
use bletchmame::dialogs::configure::software_machine_rows;
use bletchmame::dialogs::configure::software_machines_bulk_enabled;
use bletchmame::dialogs::configure::toggle_software_machine_checked;
use bletchmame::dialogs::configure::SoftwareListMachine;
use bletchmame::dialogs::configure::SoftwareMachine;

fn machine(machine_index: usize, name: &str, description: &str) -> SoftwareListMachine {
    SoftwareListMachine { machine_index, name: name.to_string(), description: description.to_string() }
}

fn machines() -> Vec<SoftwareListMachine> {
    vec![
        machine(10, "coco2", "Color Computer 2"),
        machine(3, "coco", "Color Computer"),
        machine(7, "coco3", "Color Computer 3"),
        machine(4, "coco3p", "Color Computer 3"),
    ]
}

fn names(rows: &[SoftwareMachine]) -> Vec<&str> {
    rows.iter().map(|r| r.name.as_str()).collect()
}

fn checked(rows: &[SoftwareMachine]) -> Vec<bool> {
    rows.iter().map(|r| r.checked).collect()
}

#[test]
fn software_rows_sorted_by_description_stably() {
    let rows = software_machine_rows(&machines(), &None);
    assert_eq!(vec!["coco", "coco2", "coco3", "coco3p"], names(&rows));
    assert_eq!(vec![3, 10, 7, 4], rows.iter().map(|r| r.machine_index).collect::<Vec<_>>());
    assert_eq!(vec![true, true, true, true], checked(&rows));
    assert_eq!(None, preferred_machines(&rows));
    assert_eq!((false, true), software_machines_bulk_enabled(&rows));
}

#[test]
fn software_rows_check_preferred_machines() {
    let preferred = Some(vec!["coco3p".to_string(), "coco".to_string()]);
    let rows = software_machine_rows(&machines(), &preferred);
    assert_eq!(vec![true, false, false, true], checked(&rows));
    assert_eq!(Some(vec!["coco".to_string(), "coco3p".to_string()]), preferred_machines(&rows));
    assert_eq!((true, true), software_machines_bulk_enabled(&rows));
}

#[test]
fn software_rows_toggle_and_bulk() {
    let mut rows = software_machine_rows(&machines(), &None);
    toggle_software_machine_checked(&mut rows, 1);
    assert_eq!(vec![true, false, true, true], checked(&rows));
    assert_eq!(
        Some(vec!["coco".to_string(), "coco3".to_string(), "coco3p".to_string()]),
        preferred_machines(&rows)
    );
    toggle_software_machine_checked(&mut rows, 1);
    assert_eq!(None, preferred_machines(&rows));

    set_software_machines_bulk_checked(&mut rows, false);
    assert_eq!(vec![false, false, false, false], checked(&rows));
    assert_eq!((true, false), software_machines_bulk_enabled(&rows));
    assert_eq!(Some(Vec::new()), preferred_machines(&rows));

    set_software_machines_bulk_checked(&mut rows, true);
    assert_eq!((false, true), software_machines_bulk_enabled(&rows));
    assert_eq!(None, preferred_machines(&rows));
}

#[test]
fn software_rows_empty() {
    let rows = software_machine_rows(&Vec::new(), &None);
    assert!(rows.is_empty());
    assert_eq!((false, false), software_machines_bulk_enabled(&rows));
    assert_eq!(None, preferred_machines(&rows));
}
