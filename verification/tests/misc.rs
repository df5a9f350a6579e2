use bletchmame::appwindow::AppWindowing;
use bletchmame::backend::SlintBackend;
use bletchmame::console::ConsoleColor;
use bletchmame::console::EmitType;
use bletchmame::console::Style;
use bletchmame::debugstr::DebugString;
use bletchmame::diagnostics::script::Script;
use bletchmame::diagnostics::script::ScriptError;
use bletchmame::xml::XmlEvent;
use bletchmame::dialogs::builtincollections::usage_string;
use bletchmame::dialogs::cheats::classify_cheat;
use bletchmame::dialogs::cheats::CheatType;
use bletchmame::dialogs::configure::bios_options;
use bletchmame::dialogs::configure::configure_dialog_title;
use bletchmame::dialogs::configure::default_text_string;
use bletchmame::dialogs::configure::ram_options;
use bletchmame::dialogs::configure::ram_size_display_text;
use bletchmame::dialogs::messagebox::MessageBoxDefaults;
use bletchmame::dialogs::messagebox::OkCancel;
use bletchmame::dialogs::messagebox::OkOnly;
use bletchmame::dialogs::socket::can_accept;
use bletchmame::dialogs::socket::get_results;
use bletchmame::dialogs::socket::parse_port;
use bletchmame::dialogs::stopwarning::stop_warning_result;
use bletchmame::dialogs::stopwarning::StopWarningResult;
use bletchmame::error::Error;
use bletchmame::error::PreflightProblem;
use bletchmame::guiutils::menuing::accel;
use bletchmame::guiutils::menuing::Accelerator;
use bletchmame::guiutils::menuing::KeyCode;
use bletchmame::guiutils::menuing::MenuItemUpdate;
use bletchmame::guiutils::menuing::Modifiers;
use bletchmame::status::Cheat;
use bletchmame::status::CheatParameter;
use bletchmame::status::CheatParameterItem;

#[test]
fn error_display_strings() {
    assert_eq!(
        "Error processing MAME -listxml output at position 123: bad tag",
        Error::ListXmlProcessing(123, "bad tag".to_string()).to_display_string()
    );
    assert_eq!("Cannot find preferences directory", Error::CantFindPreferencesDirectory.to_display_string());
    assert_eq!("MAME Error Response: oops", Error::MameErrorResponse("oops".to_string()).to_display_string());
    assert_eq!(
        "Problems found during MAME preflight: [NoMameExecutable, NoPluginsPaths]",
        Error::MamePreflightProblems(vec![PreflightProblem::NoMameExecutable, PreflightProblem::NoPluginsPaths])
            .to_display_string()
    );
    assert_eq!(
        "Problems found during MAME preflight: []",
        Error::MamePreflightProblems(vec![]).to_display_string()
    );
    assert_eq!(
        "Error parsing status XML at position 0: eof",
        Error::StatusXmlProcessing(0, "eof".to_string()).to_display_string()
    );
}

#[test]
fn preflight_problem_strings() {
    assert_eq!("MAME boot.lua not found", PreflightProblem::PluginsBootNotFound.to_display_string());
    assert_eq!("WorkerUiPluginNotFound", PreflightProblem::WorkerUiPluginNotFound.to_debug_string());
}

#[test]
fn emit_type_styles() {
    assert_eq!(Style { color: ConsoleColor::White, bold: true }, EmitType::CommandLine.style());
    assert_eq!(Style { color: ConsoleColor::Yellow, bold: true }, EmitType::Command.style());
    assert_eq!(Style { color: ConsoleColor::Green, bold: true }, EmitType::Response.style());
    assert_eq!(Style { color: ConsoleColor::White, bold: false }, EmitType::Cruft.style());
}

#[test]
fn parse_windowing_and_backend() {
    assert_eq!(Some(AppWindowing::Integrated), AppWindowing::from_name("integrated"));
    assert_eq!(Some(AppWindowing::WindowedMaximized), AppWindowing::from_name("WINDOWEDMAXIMIZED"));
    assert_eq!(Some(AppWindowing::Fullscreen), AppWindowing::from_name("FullScreen"));
    assert_eq!(None, AppWindowing::from_name("windowed maximized"));
    assert_eq!(AppWindowing::Integrated, AppWindowing::default());
    assert_eq!(Some(SlintBackend::Winit), SlintBackend::from_name("winit"));
    assert_eq!(None, SlintBackend::from_name("qt5"));
}

#[test]
fn debug_string_elipsis() {
    assert_eq!("...", DebugString::elipsis(42).to_debug_string());
    assert_eq!("hidden", DebugString::from_static("hidden").to_debug_string());
}

fn cheat(on: bool, off: bool, run: bool, changed: bool, parameter: Option<Vec<u64>>) -> Cheat {
    Cheat {
        id: "1".to_string(),
        enabled: false,
        has_run_script: run,
        has_on_script: on,
        has_off_script: off,
        has_changed_script: changed,
        description: String::new(),
        comment: String::new(),
        parameter: parameter.map(|values| CheatParameter {
            value: "0".to_string(),
            minimum: 0,
            maximum: 10,
            step: 1,
            items: values.into_iter().map(|value| CheatParameterItem { value, text: value.to_string() }).collect(),
        }),
    }
}

#[test]
fn classify_cheat_cases() {
    assert_eq!(CheatType::Text, classify_cheat(&cheat(false, false, false, false, None)));
    assert_eq!(CheatType::OneShot, classify_cheat(&cheat(true, false, false, false, None)));
    assert_eq!(CheatType::OnOff, classify_cheat(&cheat(true, true, false, false, Some(vec![]))));
    assert_eq!(CheatType::OnOff, classify_cheat(&cheat(false, false, true, false, None)));
    assert_eq!(CheatType::OneShotParameter, classify_cheat(&cheat(false, false, false, true, Some(vec![1]))));
    assert_eq!(CheatType::ValueParameter, classify_cheat(&cheat(false, false, true, false, Some(vec![]))));
    assert_eq!(CheatType::ItemListParameter, classify_cheat(&cheat(true, false, false, false, Some(vec![1, 2]))));
    assert_eq!(CheatType::Unknown, classify_cheat(&cheat(false, true, false, false, None)));
    assert_eq!("item-list-parameter", CheatType::ItemListParameter.name());
}

#[test]
fn configure_texts() {
    assert_eq!("Configure Pac-Man (pacman)", configure_dialog_title("Pac-Man", Some("pacman")));
    assert_eq!("Configure Pac-Man", configure_dialog_title("Pac-Man", None));
    assert_eq!("Default (64 KiB)", default_text_string("64 KiB"));
    assert_eq!("64 KiB", ram_size_display_text(65536));
    assert_eq!("4 MiB", ram_size_display_text(4 * 1024 * 1024));
    assert_eq!("1 KB", ram_size_display_text(1000));
    assert_eq!("100 B", ram_size_display_text(100));
}

#[test]
fn configure_ram_and_bios_options() {
    assert_eq!(None, ram_options(&vec![], None, None));
    let (texts, current) = ram_options(&vec![16384, 65536], Some(1), Some(16384)).unwrap();
    assert_eq!(vec!["Default (64 KiB)".to_string(), "16 KiB".to_string(), "64 KiB".to_string()], texts);
    assert_eq!(1, current);
    let (_, current) = ram_options(&vec![16384, 65536], Some(1), Some(12345)).unwrap();
    assert_eq!(0, current);
    let (_, current) = ram_options(&vec![16384, 65536], Some(1), None).unwrap();
    assert_eq!(0, current);

    let sets = vec![("v1".to_string(), "Version 1".to_string()), ("v2".to_string(), "Version 2".to_string())];
    let (texts, current) = bios_options(&sets, Some(0), Some("v2")).unwrap();
    assert_eq!(
        vec!["Default (Version 1)".to_string(), "Version 1".to_string(), "Version 2".to_string()],
        texts
    );
    assert_eq!(2, current);
    assert_eq!(0, bios_options(&sets, Some(0), Some("v9")).unwrap().1);
    assert_eq!(None, bios_options(&vec![], None, None));
}

#[test]
fn usage_string_cases() {
    assert_eq!("", usage_string(&vec![]));
    assert_eq!("", usage_string(&vec![vec![], vec![""]]));
    assert_eq!("(<top>, Folder / Sub)", usage_string(&vec![vec![], vec!["Folder", "Sub"]]));
    assert_eq!("(A)", usage_string(&vec![vec!["A"]]));
}

#[test]
fn socket_results() {
    assert_eq!(Some(("localhost".to_string(), 12345)), get_results("localhost", "12345"));
    assert_eq!(Some(("example.com".to_string(), 80)), get_results("example.com", "+80"));
    assert_eq!(None, get_results("localhost", "65536"));
    assert_eq!(None, get_results("localhost", ""));
    assert_eq!(None, get_results("localhost", "-1"));
    assert_eq!(None, get_results("-bad", "80"));
    assert_eq!(None, get_results("bad..host", "80"));
    assert_eq!(None, get_results("", "80"));
    assert!(can_accept("127.0.0.1", "65535"));
    assert!(!can_accept("127.0.0.1", "port"));
    assert_eq!(Some(0), parse_port("0"));
    assert_eq!(Some(65535), parse_port("65535"));
    assert_eq!(None, parse_port("+"));
    assert_eq!(None, parse_port("99999999999999999999"));
}

#[test]
fn accel_cases() {
    assert_eq!(Some(Accelerator { mods: None, key: KeyCode::KeyX }), accel("X"));
    let ctrl = Modifiers { control: true, shift: false, alt: false };
    assert_eq!(Some(Accelerator { mods: Some(ctrl), key: KeyCode::KeyX }), accel("Ctrl+X"));
    let shift = Modifiers { control: false, shift: true, alt: false };
    assert_eq!(Some(Accelerator { mods: Some(shift), key: KeyCode::KeyX }), accel("Shift+X"));
    let ctrl_alt = Modifiers { control: true, shift: false, alt: true };
    assert_eq!(Some(Accelerator { mods: Some(ctrl_alt), key: KeyCode::KeyX }), accel("Ctrl+Alt+X"));
    assert_eq!(Some(Accelerator { mods: None, key: KeyCode::ScrollLock }), accel("ScrLk"));
    assert_eq!(None, MenuItemUpdate::default().text);
}

#[test]
fn stop_warning_outcomes() {
    assert_eq!(StopWarningResult { stop: true, show_warning: Some(false) }, stop_warning_result(Some(true), false));
    assert_eq!(StopWarningResult { stop: false, show_warning: Some(true) }, stop_warning_result(Some(false), true));
    assert_eq!(StopWarningResult { stop: false, show_warning: None }, stop_warning_result(None, true));
}

#[test]
fn message_box_defaults() {
    assert_eq!(vec![OkOnly::Okay], OkOnly::variants());
    assert_eq!(OkOnly::Okay, OkOnly::accept());
    assert_eq!(OkOnly::Okay, OkOnly::abort());
    assert_eq!(vec![OkCancel::Okay, OkCancel::Cancel], OkCancel::variants());
    assert_eq!(OkCancel::Okay, OkCancel::accept());
    assert_eq!(OkCancel::Cancel, OkCancel::abort());
    assert_eq!("OK", OkCancel::Okay.label());
    assert_eq!("Cancel", OkCancel::Cancel.label());
}

fn start(name: &str, attributes: &[(&str, &str)]) -> XmlEvent {
    XmlEvent::Start {
        name: name.to_string(),
        attributes: attributes.iter().map(|(a, b)| (a.to_string(), b.to_string())).collect(),
    }
}

fn end(text: &str) -> XmlEvent {
    XmlEvent::End { text: text.to_string() }
}

#[test]
fn script_parse() {
    let events = vec![
        start("script", &[("requiredVersion", "0.273")]),
        start("command", &[]),
        end("ping"),
        start("other", &[]),
        start("command", &[]),
        end("skipped"),
        end(""),
        start("command", &[]),
        end("state_load foo"),
        end(""),
    ];
    let script = Script::parse(&events).unwrap();
    assert_eq!(Some("0.273".to_string()), script.required_version);
    assert_eq!(vec!["ping".to_string(), "state_load foo".to_string()], script.commands);

    let top_level_command = vec![start("command", &[]), end("ignored")];
    let script = Script::parse(&top_level_command).unwrap();
    assert!(script.commands.is_empty());
    assert_eq!(None, script.required_version);

    assert_eq!(ScriptError::UnbalancedEnd, Script::parse(&vec![end("")]).err().unwrap());
}
