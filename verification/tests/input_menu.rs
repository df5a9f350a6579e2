use bletchmame::dialogs::input::menu::input_cluster_context_menu;
use bletchmame::dialogs::input::menu::set_multi_seq;
use bletchmame::dialogs::input::menu::ContextMenuEntry;
use bletchmame::dialogs::input::menu::InputCommand;
use bletchmame::dialogs::input::primary::InputCluster;
use bletchmame::dialogs::seqpoll::SeqPollDialogType;
use bletchmame::status::Input;
use bletchmame::status::InputDevice;
use bletchmame::status::InputDeviceClass;
use bletchmame::status::InputDeviceClassName;
use bletchmame::status::InputDeviceItem;
use bletchmame::status::SeqType;

fn input(port_tag: &str, mask: u32, name: &str) -> Input {
    Input {
        port_tag: port_tag.to_string(),
        mask,
        class: None,
        group: 0,
        input_type: 0,
        first_keyboard_code: None,
        name: name.to_string(),
        is_analog: true,
        seq_standard_tokens: None,
        seq_decrement_tokens: None,
        seq_increment_tokens: None,
        value: None,
    }
}

fn item(name: &str, token: &str, code: &str) -> InputDeviceItem {
    InputDeviceItem { name: name.to_string(), token: token.to_string(), code: code.to_string() }
}

fn classes() -> Vec<InputDeviceClass> {
    vec![
        InputDeviceClass {
            name: InputDeviceClassName::Joystick,
            enabled: true,
            multi: false,
            devices: vec![
                InputDevice {
                    name: "Gamepad".to_string(),
                    id: "joy0".to_string(),
                    devindex: 0,
                    items: vec![
                        item("X Axis", "XAXIS", "JOYCODE_1_XAXIS"),
                        item("Y Axis", "YAXIS", "JOYCODE_1_YAXIS"),
                        item("Button 1", "BUTTON1", "JOYCODE_1_BUTTON1"),
                    ],
                },
                InputDevice {
                    name: "Wheel".to_string(),
                    id: "joy1".to_string(),
                    devindex: 1,
                    items: vec![item("X Axis", "XAXIS", "JOYCODE_2_XAXIS")],
                },
            ],
        },
        InputDeviceClass {
            name: InputDeviceClassName::Mouse,
            enabled: true,
            multi: false,
            devices: vec![InputDevice {
                name: "Mouse".to_string(),
                id: "mouse0".to_string(),
                devindex: 0,
                items: vec![
                    item("X", "XAXIS", "MOUSECODE_1_XAXIS"),
                    item("X2", "XAXIS", "MOUSECODE_1_XAXIS2"),
                    item("Y", "YAXIS", "MOUSECODE_1_YAXIS"),
                ],
            }],
        },
    ]
}

fn titles(menu: &[Option<ContextMenuEntry>]) -> Vec<Option<String>> {
    menu.iter().map(|e| e.as_ref().map(|e| e.title.clone())).collect()
}

fn seqs(command: &Option<InputCommand>) -> Vec<(String, u32, SeqType, String)> {
    match command {
        Some(InputCommand::SeqSet(seqs)) => seqs.clone(),
        _ => panic!("expected a sequence setting"),
    }
}

#[test]
fn single_input_menu() {
    let inputs = vec![input(":IN0", 4, "Coin 1")];
    let menu = input_cluster_context_menu(&inputs, &classes(), &InputCluster::Single(0));
    assert_eq!(
        vec![Some("Specify...".to_string()), Some("Add...".to_string()), Some("Clear".to_string())],
        titles(&menu)
    );
    match &menu[1].as_ref().unwrap().command {
        Some(InputCommand::SeqPollDialog { port_tag, mask, seq_type, poll_type }) => {
            assert_eq!(":IN0", port_tag);
            assert_eq!(4, *mask);
            assert_eq!(SeqType::Standard, *seq_type);
            assert_eq!(SeqPollDialogType::Add, *poll_type);
        }
        _ => panic!("expected a polling dialog"),
    }
    assert_eq!(vec![(":IN0".to_string(), 4, SeqType::Standard, String::new())], seqs(&menu[2].as_ref().unwrap().command));
}

#[test]
fn analog_control_menu() {
    let inputs = vec![input(":AN0", 1, "Track X"), input(":AN1", 1, "Track Y")];
    let cluster = InputCluster::Xy { x_input_index: Some(0), y_input_index: Some(1), aggregate_name: Some("Track".to_string()) };
    let menu = input_cluster_context_menu(&inputs, &classes(), &cluster);
    assert_eq!(
        vec![
            Some("Arrow Keys".to_string()),
            Some("Number Pad".to_string()),
            Some("Joy #1 (Gamepad)".to_string()),
            Some("Mouse #1 (Mouse)".to_string()),
            None,
            Some("Specify...".to_string()),
            Some("Clear".to_string()),
        ],
        titles(&menu)
    );
    assert_eq!(
        vec![
            (":AN0".to_string(), 1, SeqType::Standard, "MOUSECODE_1_XAXIS or MOUSECODE_1_XAXIS2".to_string()),
            (":AN0".to_string(), 1, SeqType::Decrement, String::new()),
            (":AN0".to_string(), 1, SeqType::Increment, String::new()),
            (":AN1".to_string(), 1, SeqType::Standard, "MOUSECODE_1_YAXIS".to_string()),
            (":AN1".to_string(), 1, SeqType::Decrement, String::new()),
            (":AN1".to_string(), 1, SeqType::Increment, String::new()),
        ],
        seqs(&menu[3].as_ref().unwrap().command)
    );
    assert_eq!(
        vec![
            (":AN0".to_string(), 1, SeqType::Standard, String::new()),
            (":AN0".to_string(), 1, SeqType::Decrement, "KEYCODE_LEFT".to_string()),
            (":AN0".to_string(), 1, SeqType::Increment, "KEYCODE_RIGHT".to_string()),
            (":AN1".to_string(), 1, SeqType::Standard, String::new()),
            (":AN1".to_string(), 1, SeqType::Decrement, "KEYCODE_UP".to_string()),
            (":AN1".to_string(), 1, SeqType::Increment, "KEYCODE_DOWN".to_string()),
        ],
        seqs(&menu[0].as_ref().unwrap().command)
    );
    match &menu[5].as_ref().unwrap().command {
        Some(InputCommand::InputXyDialog { x_input, y_input }) => {
            assert_eq!(Some((":AN0".to_string(), 1)), *x_input);
            assert_eq!(Some((":AN1".to_string(), 1)), *y_input);
        }
        _ => panic!("expected the analog dialog"),
    }
}

#[test]
fn analog_control_without_y_menu() {
    let inputs = vec![input(":AN0", 1, "Dial X")];
    let cluster = InputCluster::Xy { x_input_index: Some(0), y_input_index: None, aggregate_name: Some("Dial".to_string()) };
    let menu = input_cluster_context_menu(&inputs, &classes(), &cluster);
    assert_eq!(
        vec![
            Some("Arrow Keys".to_string()),
            Some("Number Pad".to_string()),
            None,
            Some("Specify...".to_string()),
            Some("Clear".to_string()),
        ],
        titles(&menu)
    );
    let empty = InputCluster::Xy { x_input_index: None, y_input_index: None, aggregate_name: None };
    let menu = input_cluster_context_menu(&inputs, &classes(), &empty);
    assert_eq!(vec![Some("Specify...".to_string()), Some("Clear".to_string())], titles(&menu));
}

#[test]
fn set_multi_seq_with_one_input() {
    let x = input(":AN0", 2, "X");
    let command = set_multi_seq(Some(&x), None, "a", "b", "c", "d", "e", "f");
    assert_eq!(
        vec![
            (":AN0".to_string(), 2, SeqType::Standard, "a".to_string()),
            (":AN0".to_string(), 2, SeqType::Decrement, "b".to_string()),
            (":AN0".to_string(), 2, SeqType::Increment, "c".to_string()),
        ],
        seqs(&Some(command))
    );
}

#[test]
fn axis_menu() {
    let x = input(":AN0", 1, "Track X");
    let (axes, seq_entries) = bletchmame::dialogs::input::menu::axis_context_menu(&x, &classes(), SeqType::Increment);
    assert_eq!(
        vec![
            Some("Joy #1 X Axis (Gamepad)".to_string()),
            Some("Joy #1 Y Axis (Gamepad)".to_string()),
            Some("Joy #2 X Axis (Wheel)".to_string()),
            Some("Mouse #1 X (Mouse)".to_string()),
            Some("Mouse #1 X2 (Mouse)".to_string()),
            Some("Mouse #1 Y (Mouse)".to_string()),
        ],
        titles(&axes)
    );
    assert_eq!(
        vec![(":AN0".to_string(), 1, SeqType::Standard, "JOYCODE_1_YAXIS".to_string())],
        seqs(&axes[1].as_ref().unwrap().command)
    );
    assert_eq!(
        vec![Some("Specify...".to_string()), Some("Add...".to_string()), Some("Clear".to_string())],
        titles(&seq_entries)
    );
    assert_eq!(
        vec![(":AN0".to_string(), 1, SeqType::Increment, String::new())],
        seqs(&seq_entries[2].as_ref().unwrap().command)
    );
}

#[test]
fn quick_context_menu() {
    let a = input(":P1", 1, "Up");
    let b = input(":P1", 2, "Down");
    let quick_item_inputs = vec![Some(&a), None, Some(&b)];
    let quick_items = vec![
        ("Arrows".to_string(), vec![(0, SeqType::Standard, "KEYCODE_UP".to_string()), (1, SeqType::Standard, "X".to_string())]),
        ("Nothing".to_string(), vec![]),
        ("Pad".to_string(), vec![(2, SeqType::Decrement, "KEYCODE_2PAD".to_string())]),
    ];
    let (first, second) = bletchmame::dialogs::input::menu::build_context_menu(
        &quick_item_inputs,
        &quick_items,
        Some(InputCommand::SeqSet(vec![])),
        None,
        Some(InputCommand::SeqSet(vec![])),
    );
    let first_titles: Vec<String> = first.iter().map(|e| e.title.clone()).collect();
    assert_eq!(vec!["Arrows".to_string(), "Pad".to_string(), "Multiple...".to_string()], first_titles);
    assert_eq!(vec![(":P1".to_string(), 1, SeqType::Standard, "KEYCODE_UP".to_string())], seqs(&first[0].command));
    match &first[2].command {
        Some(InputCommand::InputSelectMultipleDialog { selections }) => {
            assert_eq!(2, selections.len());
            assert_eq!("Pad", selections[1].0);
            assert_eq!(vec![(":P1".to_string(), 2, SeqType::Decrement, "KEYCODE_2PAD".to_string())], selections[1].1);
        }
        _ => panic!("expected the multiple selection dialog"),
    }
    let second_titles: Vec<String> = second.iter().map(|e| e.title.clone()).collect();
    assert_eq!(vec!["Specify...".to_string(), "Clear".to_string()], second_titles);

    let (first, _) = bletchmame::dialogs::input::menu::build_context_menu(&quick_item_inputs, &quick_items[..1].to_vec(), None, None, None);
    assert_eq!(1, first.len());
}
