use bletchmame::dialogs::cheats::cheat_parameter_value;
use bletchmame::dialogs::cheats::CheatDialogModel;
use bletchmame::dialogs::cheats::CheatsDialogEntry;
use bletchmame::status::Cheat;
use bletchmame::status::CheatParameter;
use bletchmame::status::CheatParameterItem;

fn cheat(id: &str, parameter: Option<CheatParameter>) -> Cheat {
    Cheat {
        id: id.to_string(),
        enabled: true,
        has_run_script: false,
        has_on_script: false,
        has_off_script: false,
        has_changed_script: true,
        description: format!("Cheat {id}"),
        comment: "use with care".to_string(),
        parameter,
    }
}

fn item(value: u64, text: &str) -> CheatParameterItem {
    CheatParameterItem { value, text: text.to_string() }
}

#[test]
fn cheat_rows() {
    let items = CheatParameter {
        value: "2".to_string(),
        minimum: 1,
        maximum: 3,
        step: 1,
        items: vec![item(1, "One"), item(2, "Two"), item(3, "Three")],
    };
    let plain = CheatParameter { value: "x".to_string(), minimum: 0, maximum: 99, step: 2, items: vec![] };
    let model = CheatDialogModel::new(vec![cheat("a", Some(items)), cheat("b", Some(plain)), cheat("c", None)]);
    assert_eq!(3, model.row_count());
    assert_eq!(
        Some(CheatsDialogEntry {
            cheat_type: "one-shot-parameter".to_string(),
            cheat_enabled: true,
            description: "Cheat a".to_string(),
            comment: "use with care".to_string(),
            has_changed_script: true,
            value: 2,
            minimum: 1,
            maximum: 3,
            step: 1,
            items: vec!["One".to_string(), "Two".to_string(), "Three".to_string()],
        }),
        model.row_data(0)
    );
    // a value that does not read as a number shows as 0
    let row = model.row_data(1).unwrap();
    assert_eq!("value-parameter", row.cheat_type);
    assert_eq!((0, 0, 99, 2), (row.value, row.minimum, row.maximum, row.step));
    assert!(row.items.is_empty());
    let row = model.row_data(2).unwrap();
    assert_eq!("text", row.cheat_type);
    assert_eq!((0, 0, 0, 0), (row.value, row.minimum, row.maximum, row.step));
    assert_eq!(None, model.row_data(3));
}

#[test]
fn cheat_model_updates_and_parameters() {
    let parameter = CheatParameter { value: "1".to_string(), minimum: 1, maximum: 2, step: 1, items: vec![item(7, "Seven"), item(9, "Nine")] };
    let cheats = vec![cheat("a", Some(parameter))];
    let mut model = CheatDialogModel::new(cheats.clone());
    assert!(!model.update(cheats.clone()));
    let mut changed = cheats.clone();
    changed[0].enabled = false;
    assert!(model.update(changed));
    assert!(!model.row_data(0).unwrap().cheat_enabled);

    assert_eq!(Some(9), cheat_parameter_value(&cheats[0], Some(1)));
    assert_eq!(None, cheat_parameter_value(&cheats[0], None));
}
