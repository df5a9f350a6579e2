use bletchmame::dialogs::input::menu::InputCommand;
use bletchmame::dialogs::input::primary::InputDialogModel;
use bletchmame::dialogs::seqpoll::SeqPollDialogType;
use bletchmame::status::Input;
use bletchmame::status::InputClass;
use bletchmame::status::InputDevice;
use bletchmame::status::InputDeviceClass;
use bletchmame::status::InputDeviceClassName;
use bletchmame::status::InputDeviceItem;
use bletchmame::status::SeqType;

fn input(port_tag: &str, name: &str, is_analog: bool, tokens: Option<&str>) -> Input {
    Input {
        port_tag: port_tag.to_string(),
        mask: 1,
        class: Some(InputClass::Controller),
        group: 0,
        input_type: 0,
        first_keyboard_code: None,
        name: name.to_string(),
        is_analog,
        seq_standard_tokens: tokens.map(|t| t.to_string()),
        seq_decrement_tokens: None,
        seq_increment_tokens: None,
        value: None,
    }
}

fn keyboard() -> Vec<InputDeviceClass> {
    vec![InputDeviceClass {
        name: InputDeviceClassName::Keyboard,
        enabled: true,
        multi: false,
        devices: vec![InputDevice {
            name: "Keyboard 0".to_string(),
            id: "kbd0".to_string(),
            devindex: 0,
            items: vec![InputDeviceItem { name: "A".to_string(), token: "A".to_string(), code: "KEYCODE_A".to_string() }],
        }],
    }]
}

fn inputs() -> Vec<Input> {
    vec![
        input(":AN1", "Track Y", true, None),
        input(":P1", "P1 Button 1", false, Some("KEYCODE_A")),
        input(":AN0", "Track X", true, None),
    ]
}

fn seq(port_tag: &str, seq_type: SeqType) -> (String, u32, SeqType, String) {
    (port_tag.to_string(), 1, seq_type, "*".to_string())
}

#[test]
fn input_dialog_rows() {
    let mut model = InputDialogModel::new(InputClass::Controller);
    assert_eq!(0, model.row_count());
    match model.update(inputs(), keyboard()) {
        Some(InputCommand::SeqSet(seqs)) => assert_eq!(
            vec![
                seq(":P1", SeqType::Standard),
                seq(":AN0", SeqType::Standard),
                seq(":AN0", SeqType::Decrement),
                seq(":AN0", SeqType::Increment),
                seq(":AN1", SeqType::Standard),
                seq(":AN1", SeqType::Decrement),
                seq(":AN1", SeqType::Increment),
            ],
            seqs
        ),
        _ => panic!("expected the command that restores the defaults"),
    }
    assert_eq!(2, model.row_count());

    let row = model.row_data(0).unwrap();
    assert_eq!("P1 Button 1", row.name);
    assert_eq!("A", row.text);
    match row.primary_command {
        InputCommand::SeqPollDialog { port_tag, mask, seq_type, poll_type } => {
            assert_eq!((":P1", 1, SeqType::Standard, SeqPollDialogType::Specify), (port_tag.as_str(), mask, seq_type, poll_type));
        }
        _ => panic!("expected the dialog that polls for a sequence"),
    }

    let row = model.row_data(1).unwrap();
    assert_eq!("Track", row.name);
    match row.primary_command {
        InputCommand::InputXyDialog { x_input, y_input } => {
            assert_eq!(Some((":AN0".to_string(), 1)), x_input);
            assert_eq!(Some((":AN1".to_string(), 1)), y_input);
        }
        _ => panic!("expected the XY dialog"),
    }
    assert!(model.row_data(2).is_none());
}

#[test]
fn input_dialog_updates_only_on_changes() {
    let mut model = InputDialogModel::new(InputClass::Controller);
    assert!(model.update(inputs(), keyboard()).is_some());
    assert!(model.update(inputs(), keyboard()).is_none());
    assert!(model.update(inputs(), Vec::new()).is_some());
    let mut changed = inputs();
    changed[1].seq_standard_tokens = None;
    assert!(model.update(changed, Vec::new()).is_some());
    assert_eq!("None", model.row_data(0).unwrap().text);
}
