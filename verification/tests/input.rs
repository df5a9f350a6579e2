use bletchmame::dialogs::input::primary::build_clusters;
use bletchmame::dialogs::input::primary::input_cluster_code_text;
use bletchmame::dialogs::input::primary::input_cluster_name;
use bletchmame::dialogs::input::primary::InputCluster;
use bletchmame::status::InputClass;
use bletchmame::dialogs::input::build_codes;
use bletchmame::dialogs::input::seq_tokens_desc_from_string;
use bletchmame::dialogs::input::seq_tokens_from_string;
use bletchmame::dialogs::input::SeqToken;
use bletchmame::dialogs::input::SeqTokenModifier;
use bletchmame::dialogs::input::xy::aggregate_name;
use bletchmame::dialogs::input::xy::lookup_input;
use bletchmame::status::Input;
use bletchmame::status::InputDevice;
use bletchmame::status::InputDeviceClass;
use bletchmame::status::InputDeviceClassName;
use bletchmame::status::InputDeviceItem;

fn named(s: &str, m: Option<SeqTokenModifier>) -> SeqToken {
    SeqToken::Named(s.to_string(), m)
}

#[test]
fn seq_tokens_from_string_cases() {
    assert_eq!(vec![named("KEYCODE_0", None)], seq_tokens_from_string("KEYCODE_0"));
    assert_eq!(
        vec![named("KEYCODE_0", None), SeqToken::Or, named("KEYCODE_1", None)],
        seq_tokens_from_string("KEYCODE_0 OR KEYCODE_1")
    );
    assert_eq!(
        vec![named("KEYCODE_A", None), SeqToken::Or, named("KEYCODE_B", None)],
        seq_tokens_from_string("OR KEYCODE_A OR KEYCODE_B")
    );
    assert_eq!(vec![named("JOYCODE_1_BUTTON1", None)], seq_tokens_from_string("JOYCODE_1_BUTTON1"));
    assert_eq!(vec![named("JOYCODE_1_XAXIS", None)], seq_tokens_from_string("JOYCODE_1_XAXIS"));
    assert_eq!(
        vec![named("JOYCODE_1_XAXIS", Some(SeqTokenModifier::RightSwitch))],
        seq_tokens_from_string("JOYCODE_1_XAXIS_RIGHT_SWITCH")
    );
}

fn item(name: &str, code: &str) -> InputDeviceItem {
    InputDeviceItem { name: name.to_string(), token: String::new(), code: code.to_string() }
}

fn keyboard_and_joystick() -> Vec<InputDeviceClass> {
    vec![
        InputDeviceClass {
            name: InputDeviceClassName::Keyboard,
            enabled: true,
            multi: false,
            devices: vec![InputDevice {
                name: "Keyboard 0".to_string(),
                id: "kbd0".to_string(),
                devindex: 0,
                items: vec![item("A", "KEYCODE_A"), item("B", "KEYCODE_B")],
            }],
        },
        InputDeviceClass {
            name: InputDeviceClassName::Joystick,
            enabled: true,
            multi: false,
            devices: vec![InputDevice {
                name: "Pad".to_string(),
                id: "joy0".to_string(),
                devindex: 0,
                items: vec![item("X Axis", "JOYCODE_1_XAXIS")],
            }],
        },
    ]
}

#[test]
fn build_codes_labels() {
    let codes = build_codes(&keyboard_and_joystick());
    let find = |code: &str| codes.iter().find(|(c, _)| c == code).map(|(_, l)| l.clone());
    assert_eq!(Some("A".to_string()), find("KEYCODE_A"));
    assert_eq!(Some("B".to_string()), find("KEYCODE_B"));
    assert_eq!(Some("Joy #1 X Axis".to_string()), find("JOYCODE_1_XAXIS"));
}

#[test]
fn seq_tokens_desc_cases() {
    let codes = build_codes(&keyboard_and_joystick());
    assert_eq!("A or B", seq_tokens_desc_from_string("KEYCODE_A OR KEYCODE_B", &codes));
    assert_eq!("Joy #1 X Axis Right", seq_tokens_desc_from_string("JOYCODE_1_XAXIS_RIGHT_SWITCH", &codes));
    assert_eq!("not KEYCODE_Z", seq_tokens_desc_from_string("NOT KEYCODE_Z", &codes));
    assert_eq!("default", seq_tokens_desc_from_string("DEFAULT", &codes));
}

fn input(port_tag: &str, mask: u32, name: &str) -> Input {
    Input {
        port_tag: port_tag.to_string(),
        mask,
        class: None,
        group: 0,
        input_type: 0,
        first_keyboard_code: None,
        name: name.to_string(),
        is_analog: true,
        seq_standard_tokens: None,
        seq_decrement_tokens: None,
        seq_increment_tokens: None,
        value: None,
    }
}

#[test]
fn aggregate_name_cases() {
    let x = input(":IN0", 1, "Paddle X");
    let y = input(":IN1", 1, "Paddle Y");
    let plain = input(":IN2", 1, "Dial");
    assert_eq!("Paddle", aggregate_name(Some(&x), Some(&y)));
    assert_eq!("Paddle", aggregate_name(None, Some(&y)));
    assert_eq!("Paddle", aggregate_name(Some(&plain), Some(&y)));
    assert_eq!("<<UNKNOWN>>", aggregate_name(Some(&plain), None));
    assert_eq!("<<UNKNOWN>>", aggregate_name(None, None));
}

#[test]
fn lookup_input_by_port_tag() {
    let inputs = vec![input(":IN0", 1, "A"), input(":IN1", 2, "B")];
    assert_eq!(Some(1), lookup_input(&inputs, &Some((":IN1".to_string(), 2))));
    assert_eq!(None, lookup_input(&inputs, &Some((":IN9".to_string(), 2))));
    assert_eq!(None, lookup_input(&inputs, &None));
}

#[test]
fn build_clusters_and_names() {
    let mut a = input(":P1", 1, "P1 Button 1");
    a.class = Some(InputClass::Controller);
    a.is_analog = false;
    a.seq_standard_tokens = Some("KEYCODE_A".to_string());
    let mut x = input(":AN0", 1, "Track X");
    x.class = Some(InputClass::Controller);
    x.seq_standard_tokens = Some("KEYCODE_B".to_string());
    let mut y = input(":AN1", 1, "Track Y");
    y.class = Some(InputClass::Controller);
    let mut other = input(":DSW", 1, "Service");
    other.class = Some(InputClass::Misc);
    let inputs = vec![a, x, y, other];

    let clusters = build_clusters(&inputs, InputClass::Controller);
    assert_eq!(2, clusters.len());
    let names: Vec<String> = clusters.iter().map(|c| input_cluster_name(&inputs, c)).collect();
    assert!(names.contains(&"P1 Button 1".to_string()));
    assert!(names.contains(&"Track".to_string()));
    let codes = build_codes(&keyboard_and_joystick());
    let single = InputCluster::Single(0);
    assert_eq!("A", input_cluster_code_text(&inputs, &single, &codes));
    let none = InputCluster::Single(2);
    assert_eq!("None", input_cluster_code_text(&inputs, &none, &codes));
}
