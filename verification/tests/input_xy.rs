use bletchmame::dialogs::input::menu::InputCommand;
use bletchmame::dialogs::input::xy::build_xy_dialog_entry;
use bletchmame::dialogs::input::xy::set_all_seqs_command;
use bletchmame::dialogs::input::InputAxis;
use bletchmame::dialogs::seqpoll::SeqPollDialogType;
use bletchmame::status::Input;
use bletchmame::status::SeqType;

fn axis_input(port_tag: &str, name: &str) -> Input {
    Input {
        port_tag: port_tag.to_string(),
        mask: 255,
        class: None,
        group: 0,
        input_type: 0,
        first_keyboard_code: None,
        name: name.to_string(),
        is_analog: true,
        seq_standard_tokens: Some("KEYCODE_A".to_string()),
        seq_decrement_tokens: Some("KEYCODE_B".to_string()),
        seq_increment_tokens: None,
        value: None,
    }
}

fn codes() -> Vec<(String, String)> {
    vec![("KEYCODE_A".to_string(), "A".to_string()), ("KEYCODE_B".to_string(), "B".to_string())]
}

#[test]
fn xy_entry_for_a_direction() {
    let inputs = vec![axis_input(":AN0", "Paddle X")];
    let entry = build_xy_dialog_entry(&inputs, Some(0), InputAxis::X, SeqType::Decrement, " Dec", &codes()).unwrap();
    assert_eq!("Paddle X Dec", entry.name);
    assert_eq!("\u{2194}A / \u{25C0}B", entry.text);
    match entry.primary_command {
        InputCommand::SeqPollDialog { port_tag, mask, seq_type, poll_type } => {
            assert_eq!(":AN0", port_tag);
            assert_eq!(255, mask);
            assert_eq!(SeqType::Decrement, seq_type);
            assert_eq!(SeqPollDialogType::Specify, poll_type);
        }
        _ => panic!("expected the dialog that specifies the sequence"),
    }
}

#[test]
fn xy_entry_with_empty_direction() {
    let inputs = vec![axis_input(":AN0", "Paddle X")];
    let entry = build_xy_dialog_entry(&inputs, Some(0), InputAxis::X, SeqType::Increment, " Inc", &codes()).unwrap();
    assert_eq!("Paddle X Inc", entry.name);
    assert_eq!("\u{2194}A", entry.text);
}

#[test]
fn xy_entry_without_input() {
    let inputs = vec![axis_input(":AN0", "Paddle X")];
    assert!(build_xy_dialog_entry(&inputs, None, InputAxis::Y, SeqType::Increment, " Inc", &codes()).is_none());
}

#[test]
fn xy_set_all_seqs() {
    let x = axis_input(":AN0", "Paddle X");
    let y = axis_input(":AN1", "Paddle Y");
    let expected = |tag: &str, seq_type: SeqType| (tag.to_string(), 255, seq_type, "*".to_string());
    match set_all_seqs_command(Some(&x), Some(&y), "*") {
        InputCommand::SeqSet(seqs) => assert_eq!(
            vec![
                expected(":AN0", SeqType::Standard),
                expected(":AN0", SeqType::Decrement),
                expected(":AN0", SeqType::Increment),
                expected(":AN1", SeqType::Standard),
                expected(":AN1", SeqType::Decrement),
                expected(":AN1", SeqType::Increment),
            ],
            seqs
        ),
        _ => panic!("expected a command that sets sequences"),
    }
    match set_all_seqs_command(None, Some(&y), "") {
        InputCommand::SeqSet(seqs) => {
            assert_eq!(3, seqs.len());
            assert_eq!((":AN1".to_string(), 255, SeqType::Standard, String::new()), seqs[0]);
        }
        _ => panic!("expected a command that sets sequences"),
    }
}
