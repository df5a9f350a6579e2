//! How MAME's output window relates to the application window, and what the
//! application window's menus show of the emulation.
use crate::prefs::BuiltinCollection;
use crate::prefs::PrefsCollection;
use crate::status::version_at_least;
use crate::status::Input;
use crate::status::InputClass;
use crate::status::Running;
use crate::status::Status;
use crate::text::eq_ignore_ascii_case;
use crate::text::push_str;
use crate::text::str_eq_ignore_ascii_case;
use crate::text::string_from_chars;
use vstd::prelude::*;

verus! {

/// Where MAME draws: inside the application window, or in a window of its own.
#[derive(Clone, Copy, Debug, PartialEq, Eq, Structural)]
pub enum AppWindowing {
    Integrated,
    Windowed,
    WindowedMaximized,
    Fullscreen,
}

/// The variant that `name` names, with ASCII letters compared without case.
pub open spec fn app_windowing_named(name: Seq<char>) -> Option<AppWindowing> {
    if eq_ignore_ascii_case(name, "Integrated"@) {
        Some(AppWindowing::Integrated)
    } else if eq_ignore_ascii_case(name, "Windowed"@) {
        Some(AppWindowing::Windowed)
    } else if eq_ignore_ascii_case(name, "WindowedMaximized"@) {
        Some(AppWindowing::WindowedMaximized)
    } else if eq_ignore_ascii_case(name, "Fullscreen"@) {
        Some(AppWindowing::Fullscreen)
    } else {
        None
    }
}

impl AppWindowing {
    /// Parses a variant's name, ignoring the case of ASCII letters; `None` for any
    /// other text.
    pub fn from_name(name: &str) -> (r: Option<Self>)
        ensures
            r == app_windowing_named(name@),
    {
        if str_eq_ignore_ascii_case(name, "Integrated") {
            Some(AppWindowing::Integrated)
        } else if str_eq_ignore_ascii_case(name, "Windowed") {
            Some(AppWindowing::Windowed)
        } else if str_eq_ignore_ascii_case(name, "WindowedMaximized") {
            Some(AppWindowing::WindowedMaximized)
        } else if str_eq_ignore_ascii_case(name, "Fullscreen") {
            Some(AppWindowing::Fullscreen)
        } else {
            None
        }
    }
}

impl Default for AppWindowing {
    fn default() -> (r: Self)
        ensures
            r == AppWindowing::Integrated,
    {
        AppWindowing::Integrated
    }
}

/// The sound attenuation at which sound counts as off.
pub const SOUND_ATTENUATION_OFF: i32 = -32;

/// The sound attenuation that turns sound back on.
pub const SOUND_ATTENUATION_ON: i32 = 0;

/// A request that a menu entry sends to the running emulation.
#[derive(Clone, Copy, Debug, PartialEq, Eq, Structural)]
pub enum EmulationRequest {
    Pause,
    Resume,
    Throttled(bool),
    SetSystemMute(bool),
    SetAttenuation(i32),
}

/// What the menus of the application window show: the state of the emulation, the
/// entry of the frame skip menu that is checked (-1 for none), and which entries and
/// input dialogs are offered. The throttle menu and the full-screen mark are the
/// window's own business.
#[derive(Clone, Copy, Debug, PartialEq, Eq)]
pub struct MenuState {
    pub is_paused: bool,
    pub is_recording: bool,
    pub is_throttled: bool,
    pub is_sound_enabled: bool,
    pub frameskip_current_index: i32,
    pub has_last_save_state: bool,
    pub has_cheats: bool,
    pub has_classic_mame_menu: bool,
    pub can_record_movie: bool,
    pub can_refresh_info_db: bool,
    pub has_input_class_controller: bool,
    pub has_input_class_keyboard: bool,
    pub has_input_class_misc: bool,
    pub has_input_class_config: bool,
    pub has_input_class_dipswitch: bool,
}

/// The running emulation of a status, if any.
pub open spec fn running_of(status: Option<Status>) -> Option<Running> {
    match status {
        Some(s) => s.running,
        None => None,
    }
}

/// The entry of the frame skip menu for a frame skip: "automatic" first, then the
/// skips 0 to 10; -1 for any other skip.
pub open spec fn frameskip_index(frameskip: Option<u8>) -> int {
    match frameskip {
        None => 0,
        Some(n) => if n <= 10 {
            n + 1
        } else {
            -1
        },
    }
}

/// Whether the emulation's sound is on: not muted where muting is reported, else
/// attenuated less than "off".
pub open spec fn sound_enabled(r: Running) -> bool {
    match r.system_mute {
        Some(mute) => !mute,
        None => r.sound_attenuation matches Some(a) && a > SOUND_ATTENUATION_OFF,
    }
}

/// What "Pause" asks of the emulation: to resume where it is paused, else (also where
/// nothing runs) to pause.
pub fn pause_request(status: &Option<Status>) -> (r: EmulationRequest)
    ensures
        r == (if running_of(*status) matches Some(x) && x.is_paused {
            EmulationRequest::Resume
        } else {
            EmulationRequest::Pause
        }),
{
    let is_paused = match status {
        Some(Status { running: Some(r), .. }) => r.is_paused,
        _ => false,
    };
    if is_paused {
        EmulationRequest::Resume
    } else {
        EmulationRequest::Pause
    }
}

/// What "Warp" asks of the emulation: to be throttled where it is not, and not where it
/// is (nothing running counts as not throttled).
pub fn warp_request(status: &Option<Status>) -> (r: EmulationRequest)
    ensures
        r == EmulationRequest::Throttled(!(running_of(*status) matches Some(x) && x.is_throttled)),
{
    let is_throttled = match status {
        Some(Status { running: Some(r), .. }) => r.is_throttled,
        _ => false,
    };
    EmulationRequest::Throttled(!is_throttled)
}

/// What "Sound" asks of the emulation: where muting is reported, the opposite muting;
/// else, where an attenuation is reported, "off" where sound is on and "on" where it
/// is off; nothing where neither is reported or nothing runs.
pub fn sound_request(status: &Option<Status>) -> (r: Option<EmulationRequest>)
    ensures
        r == (match running_of(*status) {
            Some(x) => match (x.system_mute, x.sound_attenuation) {
                (Some(mute), _) => Some(EmulationRequest::SetSystemMute(!mute)),
                (None, Some(a)) => Some(
                    EmulationRequest::SetAttenuation(
                        if a > SOUND_ATTENUATION_OFF {
                            SOUND_ATTENUATION_OFF
                        } else {
                            SOUND_ATTENUATION_ON
                        },
                    ),
                ),
                (None, None) => None,
            },
            None => None,
        }),
{
    match status {
        Some(Status { running: Some(r), .. }) => match (r.system_mute, r.sound_attenuation) {
            (Some(mute), _) => Some(EmulationRequest::SetSystemMute(!mute)),
            (None, Some(a)) => {
                let new_attenuation = if a > SOUND_ATTENUATION_OFF {
                    SOUND_ATTENUATION_OFF
                } else {
                    SOUND_ATTENUATION_ON
                };
                Some(EmulationRequest::SetAttenuation(new_attenuation))
            },
            (None, None) => None,
        },
        _ => None,
    }
}

/// Toggling the sound twice, from a running emulation that reports its muting or its
/// attenuation, gives back whether the sound was on.
pub proof fn lemma_sound_toggle_flips(r: Running)
    requires
        r.system_mute is Some || r.sound_attenuation is Some,
    ensures
        ({
            let toggled = match (r.system_mute, r.sound_attenuation) {
                (Some(mute), _) => Running { system_mute: Some(!mute), ..r },
                (None, Some(a)) => Running {
                    sound_attenuation: Some(
                        if a > SOUND_ATTENUATION_OFF {
                            SOUND_ATTENUATION_OFF
                        } else {
                            SOUND_ATTENUATION_ON
                        },
                    ),
                    ..r
                },
                (None, None) => r,
            };
            sound_enabled(toggled) == !sound_enabled(r)
        }),
{
}

/// Whether some input is of class `class`.
pub open spec fn has_input_class(inputs: Seq<Input>, class: InputClass) -> bool {
    exists|i: int| 0 <= i < inputs.len() && (#[trigger] inputs[i]).class == Some(class)
}

/// Whether an emulation runs in a status of MAME `major`.`minor` or later.
pub open spec fn running_build_at_least(status: Option<Status>, major: u32, minor: u32) -> bool {
    status matches Some(s) && s.running is Some && version_at_least(s.build, major, minor)
}

fn input_class_present(inputs: &Vec<Input>, class: InputClass) -> (r: bool)
    ensures
        r == has_input_class(inputs@, class),
{
    let mut i: usize = 0;
    while i < inputs.len()
        invariant
            i <= inputs.len(),
            forall|k: int| 0 <= k < i ==> (#[trigger] inputs@[k]).class != Some(class),
        decreases inputs.len() - i,
    {
        let found = match inputs[i].class {
            Some(c) => c == class,
            None => false,
        };
        if found {
            assert(inputs@[i as int].class == Some(class));
            return true;
        }
        i = i + 1;
    }
    false
}

/// What the menus show, from MAME's status (if any), whether a MAME executable is set,
/// whether an InfoDB build is under way, and whether a state was saved. Movies can be
/// recorded from MAME 0.221 on, and the classic menu is offered from MAME 0.274 on,
/// while an emulation runs.
pub fn menu_state(
    status: &Option<Status>,
    has_mame_executable: bool,
    is_building_infodb: bool,
    has_saved_state: bool,
) -> (r: MenuState)
    ensures
        ({
            let running = running_of(*status);
            &&& r.is_paused == (running matches Some(x) && x.is_paused)
            &&& r.is_recording == (running matches Some(x) && x.is_recording)
            &&& r.is_throttled == (running matches Some(x) && x.is_throttled)
            &&& r.is_sound_enabled == (running matches Some(x) && sound_enabled(x))
            &&& r.frameskip_current_index == (match running {
                Some(x) => frameskip_index(x.frameskip),
                None => -1,
            })
            &&& r.has_last_save_state == (running is Some && has_saved_state)
            &&& r.has_cheats == (running matches Some(x) && x.cheats.len() > 0)
            &&& r.has_classic_mame_menu == running_build_at_least(*status, 0, 274)
            &&& r.can_record_movie == running_build_at_least(*status, 0, 221)
            &&& r.can_refresh_info_db == (has_mame_executable && !is_building_infodb)
            &&& r.has_input_class_controller == (running matches Some(x) && has_input_class(
                x.inputs@,
                InputClass::Controller,
            ))
            &&& r.has_input_class_keyboard == (running matches Some(x) && has_input_class(
                x.inputs@,
                InputClass::Keyboard,
            ))
            &&& r.has_input_class_misc == (running matches Some(x) && has_input_class(x.inputs@, InputClass::Misc))
            &&& r.has_input_class_config == (running matches Some(x) && has_input_class(
                x.inputs@,
                InputClass::Config,
            ))
            &&& r.has_input_class_dipswitch == (running matches Some(x) && has_input_class(
                x.inputs@,
                InputClass::DipSwitch,
            ))
        }),
{
    let can_refresh_info_db = has_mame_executable && !is_building_infodb;
    let (build, running) = match status {
        Some(s) => (Some(s.build), s.running.as_ref()),
        None => (None, None),
    };
    match (build, running) {
        (Some(b), Some(x)) => {
            let is_sound_enabled = match x.system_mute {
                Some(mute) => !mute,
                None => match x.sound_attenuation {
                    Some(a) => a > SOUND_ATTENUATION_OFF,
                    None => false,
                },
            };
            let frameskip_current_index: i32 = match x.frameskip {
                None => 0,
                Some(n) => if n <= 10 {
                    n as i32 + 1
                } else {
                    -1
                },
            };
            let classic = b.major > 0 || b.minor >= 274;
            let movie = b.major > 0 || b.minor >= 221;
            MenuState {
                is_paused: x.is_paused,
                is_recording: x.is_recording,
                is_throttled: x.is_throttled,
                is_sound_enabled,
                frameskip_current_index,
                has_last_save_state: has_saved_state,
                has_cheats: x.cheats.len() > 0,
                has_classic_mame_menu: classic,
                can_record_movie: movie,
                can_refresh_info_db,
                has_input_class_controller: input_class_present(&x.inputs, InputClass::Controller),
                has_input_class_keyboard: input_class_present(&x.inputs, InputClass::Keyboard),
                has_input_class_misc: input_class_present(&x.inputs, InputClass::Misc),
                has_input_class_config: input_class_present(&x.inputs, InputClass::Config),
                has_input_class_dipswitch: input_class_present(&x.inputs, InputClass::DipSwitch),
            }
        },
        _ => MenuState {
            is_paused: false,
            is_recording: false,
            is_throttled: false,
            is_sound_enabled: false,
            frameskip_current_index: -1,
            has_last_save_state: false,
            has_cheats: false,
            has_classic_mame_menu: false,
            can_record_movie: false,
            can_refresh_info_db,
            has_input_class_controller: false,
            has_input_class_keyboard: false,
            has_input_class_misc: false,
            has_input_class_config: false,
            has_input_class_dipswitch: false,
        },
    }
}

/// The file name offered when saving something of the running emulation: the
/// machine's name, a dot and the extension; none where no emulation runs.
pub fn suggested_initial_save_filename(status: &Option<Status>, extension: &str) -> (r: Option<String>)
    ensures
        match running_of(*status) {
            Some(x) => r matches Some(name) && name@ == x.machine_name@ + "."@ + extension@,
            None => r is None,
        },
{
    let running = match status {
        Some(s) => s.running.as_ref(),
        None => None,
    };
    match running {
        Some(x) => {
            let mut out: Vec<char> = Vec::new();
            push_str(&mut out, x.machine_name.as_str());
            push_str(&mut out, ".");
            push_str(&mut out, extension);
            assert(out@ =~= x.machine_name@ + "."@ + extension@);
            Some(string_from_chars(&out))
        },
        None => None,
    }
}

/// Whether the collections hold the built-in collection `b`.
pub open spec fn has_builtin(collections: Seq<PrefsCollection>, b: BuiltinCollection) -> bool {
    exists|i: int| 0 <= i < collections.len() && (#[trigger] collections[i]) == PrefsCollection::Builtin(b)
}

fn builtin_present(collections: &Vec<PrefsCollection>, b: BuiltinCollection) -> (r: bool)
    ensures
        r == has_builtin(collections@, b),
{
    let mut i: usize = 0;
    while i < collections.len()
        invariant
            i <= collections.len(),
            forall|k: int| 0 <= k < i ==> (#[trigger] collections@[k]) != PrefsCollection::Builtin(b),
        decreases collections.len() - i,
    {
        let found = match &collections[i] {
            PrefsCollection::Builtin(x) => *x == b,
            _ => false,
        };
        if found {
            assert(collections@[i as int] == PrefsCollection::Builtin(b));
            return true;
        }
        i = i + 1;
    }
    false
}

/// The check marks of the menu of built-in collections, one per built-in collection in
/// the order they are declared: whether the collections hold it.
pub fn builtin_collections_checked(collections: &Vec<PrefsCollection>) -> (r: Vec<bool>)
    ensures
        r@ == seq![
            has_builtin(collections@, BuiltinCollection::All),
            has_builtin(collections@, BuiltinCollection::AllSoftware),
            has_builtin(collections@, BuiltinCollection::Favorites),
            has_builtin(collections@, BuiltinCollection::Recent),
        ],
{
    let r = vec![
        builtin_present(collections, BuiltinCollection::All),
        builtin_present(collections, BuiltinCollection::AllSoftware),
        builtin_present(collections, BuiltinCollection::Favorites),
        builtin_present(collections, BuiltinCollection::Recent),
    ];
    assert(r@ =~= seq![
        has_builtin(collections@, BuiltinCollection::All),
        has_builtin(collections@, BuiltinCollection::AllSoftware),
        has_builtin(collections@, BuiltinCollection::Favorites),
        has_builtin(collections@, BuiltinCollection::Recent),
    ]);
    r
}

} // verus!
