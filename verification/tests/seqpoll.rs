use bletchmame::dialogs::seqpoll::find_input_index;
use bletchmame::dialogs::input::menu::InputCommand;
use bletchmame::dialogs::seqpoll::mouse_input_items;
use bletchmame::dialogs::seqpoll::mouse_item_codes;
use bletchmame::dialogs::seqpoll::seq_poll_texts;
use bletchmame::dialogs::seqpoll::seq_tokens_of;
use bletchmame::dialogs::seqpoll::SeqPollDialogType;
use bletchmame::dialogs::seqpoll::SeqPollMonitor;
use bletchmame::status::Input;
use bletchmame::status::InputDevice;
use bletchmame::status::InputDeviceClass;
use bletchmame::status::InputDeviceClassName;
use bletchmame::status::InputDeviceItem;
use bletchmame::status::SeqType;

fn input(port_tag: &str, mask: u32, name: &str) -> Input {
    Input {
        port_tag: port_tag.to_string(),
        mask,
        class: None,
        group: 0,
        input_type: 0,
        first_keyboard_code: None,
        name: name.to_string(),
        is_analog: true,
        seq_standard_tokens: Some("KEYCODE_A".to_string()),
        seq_decrement_tokens: Some("KEYCODE_LEFT".to_string()),
        seq_increment_tokens: None,
        value: None,
    }
}

#[test]
fn seq_poll_finds_input_and_tokens() {
    let inputs = vec![input(":IN0", 1, "Coin 1"), input(":IN0", 2, "Start"), input(":IN1", 2, "Paddle")];
    assert_eq!(Some(1), find_input_index(&inputs, ":IN0", 2));
    assert_eq!(Some(2), find_input_index(&inputs, ":IN1", 2));
    assert_eq!(None, find_input_index(&inputs, ":IN1", 1));
    assert_eq!(&Some("KEYCODE_LEFT".to_string()), seq_tokens_of(&inputs[2], SeqType::Decrement));
    assert_eq!(&None, seq_tokens_of(&inputs[2], SeqType::Increment));
}

#[test]
fn seq_poll_texts_specify_and_add() {
    let tokens = Some("KEYCODE_A".to_string());
    let (title, caption, start) = seq_poll_texts(SeqPollDialogType::Specify, "Coin 1", "", &tokens);
    assert_eq!("Specify Coin 1", title);
    assert_eq!("Press key or button to specify Coin 1", caption);
    assert_eq!("", start);

    let (title, caption, start) = seq_poll_texts(SeqPollDialogType::Add, "Paddle", " Dec", &tokens);
    assert_eq!("Add To Paddle Dec", title);
    assert_eq!("Press key or button to add to Paddle Dec", caption);
    assert_eq!("KEYCODE_A", start);

    let (_, _, start) = seq_poll_texts(SeqPollDialogType::Add, "Paddle", "", &None);
    assert_eq!("", start);
}

#[test]
fn seq_poll_mouse_codes() {
    assert_eq!("MOUSECODE_1_BUTTON1", mouse_item_codes("", "MOUSECODE_1_BUTTON1"));
    assert_eq!("KEYCODE_A or MOUSECODE_1_BUTTON1", mouse_item_codes("KEYCODE_A", "MOUSECODE_1_BUTTON1"));
}

#[test]
fn seq_poll_monitor_finishes_after_polling_stops() {
    let mut monitor = SeqPollMonitor::new();
    assert!(!monitor.status_changed(Some(false)));
    assert!(!monitor.seen_polling);
    assert!(!monitor.status_changed(Some(true)));
    assert!(monitor.seen_polling);
    assert!(!monitor.status_changed(Some(true)));
    assert!(monitor.status_changed(Some(false)));

    let mut monitor = SeqPollMonitor::new();
    assert!(monitor.status_changed(None));
}

fn item(name: &str, token: &str, code: &str) -> InputDeviceItem {
    InputDeviceItem { name: name.to_string(), token: token.to_string(), code: code.to_string() }
}

fn device_class(name: InputDeviceClassName, items: Vec<InputDeviceItem>) -> InputDeviceClass {
    InputDeviceClass {
        name,
        enabled: true,
        multi: false,
        devices: vec![InputDevice { name: "Device".to_string(), id: "dev0".to_string(), devindex: 0, items }],
    }
}

#[test]
fn mouse_items_sorted_without_axes() {
    let classes = vec![
        device_class(InputDeviceClassName::Keyboard, vec![item("A", "A", "KEYCODE_A")]),
        device_class(
            InputDeviceClassName::Mouse,
            vec![
                item("X", "XAXIS", "MOUSECODE_1_XAXIS"),
                item("Right", "BUTTON2", "MOUSECODE_1_BUTTON2"),
                item("Left", "BUTTON1", "MOUSECODE_1_BUTTON1"),
            ],
        ),
    ];
    let axes = vec!["XAXIS".to_string(), "YAXIS".to_string()];
    let r = mouse_input_items(&classes, &axes, ":IN0", 4, SeqType::Standard, "KEYCODE_Z");
    let names: Vec<&str> = r.iter().map(|(n, _)| n.as_str()).collect();
    assert_eq!(vec!["Left", "Right"], names);
    match &r[0].1 {
        InputCommand::SeqSet(seqs) => assert_eq!(
            vec![(":IN0".to_string(), 4, SeqType::Standard, "KEYCODE_Z or MOUSECODE_1_BUTTON1".to_string())],
            *seqs
        ),
        _ => panic!("expected a command that sets the sequence"),
    }
    let r = mouse_input_items(&classes, &axes, ":IN0", 4, SeqType::Standard, "");
    match &r[1].1 {
        InputCommand::SeqSet(seqs) => assert_eq!("MOUSECODE_1_BUTTON2", seqs[0].3),
        _ => panic!("expected a command that sets the sequence"),
    }
}
