use bletchmame::dialogs::switches::Configuration;
use bletchmame::dialogs::switches::ConfigurationSetting;
use bletchmame::dialogs::switches::SwitchesDialogEntry;
use bletchmame::dialogs::switches::SwitchesDialogModel;
use bletchmame::status::Input;
use bletchmame::status::InputClass;

fn input(port_tag: &str, mask: u32, name: &str, class: InputClass, value: Option<u32>) -> Input {
    Input {
        port_tag: port_tag.to_string(),
        mask,
        class: Some(class),
        group: 0,
        input_type: 0,
        first_keyboard_code: None,
        name: name.to_string(),
        is_analog: false,
        seq_standard_tokens: None,
        seq_decrement_tokens: None,
        seq_increment_tokens: None,
        value,
    }
}

fn config(tag: &str, mask: u32, settings: &[(&str, u32)]) -> Configuration {
    Configuration {
        tag: tag.to_string(),
        mask,
        settings: settings
            .iter()
            .map(|(name, value)| ConfigurationSetting { name: name.to_string(), value: *value })
            .collect(),
    }
}

fn machines() -> Vec<Vec<Configuration>> {
    vec![
        vec![config(":IN0", 0x01, &[("Upright", 0), ("Cocktail", 1)])],
        vec![
            config(":DSW0", 0x03, &[("2", 0), ("3", 1), ("4", 2), ("5", 3)]),
            config(":DSW0", 0x0c, &[("Easy", 0), ("Hard", 4)]),
        ],
    ]
}

fn inputs() -> Vec<Input> {
    vec![
        input(":DSW0", 0x03, "Lives", InputClass::DipSwitch, Some(1)),
        input(":P1", 0x10, "P1 Button 1", InputClass::Controller, None),
        input(":DSW0", 0x0c, "Difficulty", InputClass::DipSwitch, Some(8)),
        input(":DSW1", 0x01, "Unknown", InputClass::DipSwitch, Some(0)),
    ]
}

fn strings(v: &[&str]) -> Vec<String> {
    v.iter().map(|s| s.to_string()).collect()
}

#[test]
fn switches_rows_follow_the_inputs_of_the_class() {
    let mut model = SwitchesDialogModel::new(InputClass::DipSwitch, machines());
    assert_eq!(0, model.row_count());
    assert!(model.update(Some(1), inputs()));
    assert_eq!(3, model.row_count());

    let lives = SwitchesDialogEntry {
        name: "Lives".to_string(),
        options: strings(&["2", "3", "4", "5"]),
        current_option_index: 1,
    };
    assert_eq!(Some(lives), model.row_data(0));

    // the value 8 is no setting of the difficulty switches
    let difficulty = SwitchesDialogEntry {
        name: "Difficulty".to_string(),
        options: strings(&["Easy", "Hard"]),
        current_option_index: -1,
    };
    assert_eq!(Some(difficulty), model.row_data(1));

    // no configuration describes this input
    let unknown = SwitchesDialogEntry { name: "Unknown".to_string(), options: Vec::new(), current_option_index: -1 };
    assert_eq!(Some(unknown), model.row_data(2));
    assert_eq!(None, model.row_data(3));
}

#[test]
fn switches_update_reports_changes_only() {
    let mut model = SwitchesDialogModel::new(InputClass::DipSwitch, machines());
    assert!(model.update(Some(1), inputs()));
    assert!(!model.update(Some(1), inputs()));

    let mut changed = inputs();
    changed[0].value = Some(3);
    assert!(model.update(Some(1), changed));
    assert_eq!(3, model.row_data(0).unwrap().current_option_index);

    assert!(model.update(None, inputs()));
    assert_eq!(0, model.row_count());
    assert_eq!(None, model.row_data(0));
}

#[test]
fn switches_config_class_rows() {
    let mut model = SwitchesDialogModel::new(InputClass::Config, machines());
    let inputs = vec![
        input(":IN0", 0x01, "Cabinet", InputClass::Config, Some(1)),
        input(":DSW0", 0x03, "Lives", InputClass::DipSwitch, Some(1)),
    ];
    assert!(model.update(Some(0), inputs));
    assert_eq!(1, model.row_count());
    let cabinet = SwitchesDialogEntry {
        name: "Cabinet".to_string(),
        options: strings(&["Upright", "Cocktail"]),
        current_option_index: 1,
    };
    assert_eq!(Some(cabinet), model.row_data(0));
}
