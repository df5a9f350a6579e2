use bletchmame::dialogs::input::menu::InputCommand;
use bletchmame::dialogs::input::multi::build_result;
use bletchmame::status::SeqType;

fn seq(port_tag: &str, mask: u32, seq_type: SeqType, codes: &str) -> (String, u32, SeqType, String) {
    (port_tag.to_string(), mask, seq_type, codes.to_string())
}

fn selections() -> Vec<(String, Vec<(String, u32, SeqType, String)>)> {
    vec![
        (
            "Joystick #1".to_string(),
            vec![
                seq(":IN0", 1, SeqType::Standard, "JOYCODE_1_XAXIS_LEFT_SWITCH"),
                seq(":IN0", 2, SeqType::Standard, "JOYCODE_1_XAXIS_RIGHT_SWITCH"),
            ],
        ),
        ("Keyboard".to_string(), vec![seq(":IN0", 1, SeqType::Standard, "KEYCODE_LEFT")]),
        ("Mouse".to_string(), vec![seq(":IN0", 1, SeqType::Decrement, "MOUSECODE_1_XAXIS")]),
    ]
}

#[test]
fn select_multiple_groups_checked_choices() {
    match build_result(&selections(), &vec![true, true, false]) {
        InputCommand::SeqSet(seqs) => assert_eq!(
            vec![
                seq(":IN0", 1, SeqType::Standard, "JOYCODE_1_XAXIS_LEFT_SWITCH or KEYCODE_LEFT"),
                seq(":IN0", 2, SeqType::Standard, "JOYCODE_1_XAXIS_RIGHT_SWITCH"),
            ],
            seqs
        ),
        _ => panic!("expected sequences to set"),
    }
}

#[test]
fn select_multiple_nothing_checked() {
    match build_result(&selections(), &vec![false, false, false]) {
        InputCommand::SeqSet(seqs) => assert!(seqs.is_empty()),
        _ => panic!("expected sequences to set"),
    }
    match build_result(&selections(), &vec![false, true, true]) {
        InputCommand::SeqSet(seqs) => assert_eq!(
            vec![seq(":IN0", 1, SeqType::Standard, "KEYCODE_LEFT"), seq(":IN0", 1, SeqType::Decrement, "MOUSECODE_1_XAXIS")],
            seqs
        ),
        _ => panic!("expected sequences to set"),
    }
}
