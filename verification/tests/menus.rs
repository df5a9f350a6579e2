use bletchmame::appwindow::builtin_collections_checked;
use bletchmame::appwindow::pause_request;
use bletchmame::appwindow::sound_request;
use bletchmame::appwindow::warp_request;
use bletchmame::appwindow::EmulationRequest;
use bletchmame::appwindow::menu_state;
use bletchmame::appwindow::suggested_initial_save_filename;
use bletchmame::prefs::BuiltinCollection;
use bletchmame::prefs::PrefsCollection;
use bletchmame::status::Input;
use bletchmame::status::InputClass;
use bletchmame::status::MameVersion;
use bletchmame::status::Running;
use bletchmame::status::Status;

fn input(class: InputClass) -> Input {
    Input {
        port_tag: ":IN0".to_string(),
        mask: 1,
        class: Some(class),
        group: 0,
        input_type: 0,
        first_keyboard_code: None,
        name: "Coin 1".to_string(),
        is_analog: false,
        seq_standard_tokens: None,
        seq_decrement_tokens: None,
        seq_increment_tokens: None,
        value: None,
    }
}

fn running(frameskip: Option<u8>, system_mute: Option<bool>, sound_attenuation: Option<i32>) -> Running {
    Running {
        machine_name: "pacman".to_string(),
        slots: vec![],
        images: vec![],
        is_paused: true,
        is_throttled: false,
        is_recording: true,
        frameskip,
        system_mute,
        sound_attenuation,
        inputs: vec![input(InputClass::Controller), input(InputClass::DipSwitch)],
        cheats: vec![],
    }
}

fn status(minor: u32, running: Option<Running>) -> Option<Status> {
    Some(Status { build: MameVersion { major: 0, minor }, running })
}

#[test]
fn menus_with_an_emulation_running() {
    let menus = menu_state(&status(250, Some(running(Some(3), None, Some(0)))), true, false, true);
    assert!(menus.is_paused);
    assert!(menus.is_recording);
    assert!(!menus.is_throttled);
    assert!(menus.is_sound_enabled);
    assert_eq!(4, menus.frameskip_current_index);
    assert!(menus.has_last_save_state);
    assert!(!menus.has_cheats);
    assert!(menus.can_record_movie);
    assert!(!menus.has_classic_mame_menu);
    assert!(menus.can_refresh_info_db);
    assert!(menus.has_input_class_controller);
    assert!(!menus.has_input_class_keyboard);
    assert!(!menus.has_input_class_misc);
    assert!(!menus.has_input_class_config);
    assert!(menus.has_input_class_dipswitch);
}

#[test]
fn menus_sound_and_frameskip_cases() {
    let menus = menu_state(&status(280, Some(running(None, Some(true), Some(0)))), false, false, false);
    assert!(!menus.is_sound_enabled);
    assert_eq!(0, menus.frameskip_current_index);
    assert!(menus.has_classic_mame_menu);
    assert!(!menus.can_refresh_info_db);
    let menus = menu_state(&status(280, Some(running(Some(11), None, Some(-32)))), true, true, false);
    assert!(!menus.is_sound_enabled);
    assert_eq!(-1, menus.frameskip_current_index);
    assert!(!menus.can_refresh_info_db);
    let menus = menu_state(&status(220, Some(running(Some(10), Some(false), None))), true, false, false);
    assert!(menus.is_sound_enabled);
    assert_eq!(11, menus.frameskip_current_index);
    assert!(!menus.can_record_movie);
}

#[test]
fn menus_with_nothing_running() {
    let menus = menu_state(&status(280, None), true, false, true);
    assert!(!menus.is_paused);
    assert!(!menus.has_last_save_state);
    assert!(!menus.can_record_movie);
    assert_eq!(-1, menus.frameskip_current_index);
    assert!(menus.can_refresh_info_db);
    let menus = menu_state(&None, true, false, true);
    assert!(!menus.has_input_class_controller);
}

#[test]
fn suggested_save_filenames() {
    assert_eq!(
        Some("pacman.sta".to_string()),
        suggested_initial_save_filename(&status(280, Some(running(None, None, None))), "sta")
    );
    assert_eq!(None, suggested_initial_save_filename(&status(280, None), "png"));
}

#[test]
fn builtin_collection_check_marks() {
    let collections = vec![
        PrefsCollection::Builtin(BuiltinCollection::Favorites),
        PrefsCollection::Folder { name: "Shooters".to_string(), items: vec![] },
        PrefsCollection::Builtin(BuiltinCollection::All),
    ];
    assert_eq!(vec![true, false, true, false], builtin_collections_checked(&collections));
    assert_eq!(vec![false, false, false, false], builtin_collections_checked(&Vec::new()));
}

#[test]
fn menu_requests_follow_the_emulation() {
    let paused = status(250, Some(running(None, None, Some(0))));
    assert_eq!(EmulationRequest::Resume, pause_request(&paused));
    assert_eq!(EmulationRequest::Pause, pause_request(&status(250, None)));
    assert_eq!(EmulationRequest::Pause, pause_request(&None));
    assert_eq!(EmulationRequest::Throttled(true), warp_request(&paused));
    let mut throttled = running(None, None, None);
    throttled.is_throttled = true;
    assert_eq!(EmulationRequest::Throttled(false), warp_request(&status(250, Some(throttled))));

    assert_eq!(Some(EmulationRequest::SetSystemMute(false)), sound_request(&status(250, Some(running(None, Some(true), Some(0))))));
    assert_eq!(Some(EmulationRequest::SetAttenuation(-32)), sound_request(&paused));
    assert_eq!(Some(EmulationRequest::SetAttenuation(0)), sound_request(&status(250, Some(running(None, None, Some(-32))))));
    assert_eq!(None, sound_request(&status(250, Some(running(None, None, None)))));
    assert_eq!(None, sound_request(&None));
}
