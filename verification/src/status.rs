//! What a running emulation reports about its inputs and cheats.
use vstd::prelude::*;

verus! {

/// The class of an input, which decides the dialog it is configured in.
#[derive(Clone, Copy, Debug, PartialEq, Eq, Structural)]
pub enum InputClass {
    Controller,
    Keyboard,
    Misc,
    Config,
    DipSwitch,
}

/// Which of an input's three sequences is meant.
#[derive(Clone, Copy, Debug, PartialEq, Eq, Structural)]
pub enum SeqType {
    Standard,
    Decrement,
    Increment,
}

/// One input of the emulated machine.
#[derive(Clone, Debug, PartialEq, Eq)]
pub struct Input {
    pub port_tag: String,
    pub mask: u32,
    pub class: Option<InputClass>,
    pub group: u32,
    pub input_type: u32,
    pub first_keyboard_code: Option<u32>,
    pub name: String,
    pub is_analog: bool,
    pub seq_standard_tokens: Option<String>,
    pub seq_decrement_tokens: Option<String>,
    pub seq_increment_tokens: Option<String>,
    pub value: Option<u32>,
}

/// The kind of a class of host input devices.
#[derive(Clone, Debug, PartialEq, Eq)]
pub enum InputDeviceClassName {
    Keyboard,
    Joystick,
    Lightgun,
    Mouse,
    Other(String),
}

/// A control of a host input device.
#[derive(Clone, Debug, PartialEq, Eq)]
pub struct InputDeviceItem {
    pub name: String,
    pub token: String,
    pub code: String,
}

/// A host input device.
#[derive(Clone, Debug, PartialEq, Eq)]
pub struct InputDevice {
    pub name: String,
    pub id: String,
    pub devindex: u32,
    pub items: Vec<InputDeviceItem>,
}

/// A class of host input devices (keyboards, joysticks, ...).
#[derive(Clone, Debug, PartialEq, Eq)]
pub struct InputDeviceClass {
    pub name: InputDeviceClassName,
    pub enabled: bool,
    pub multi: bool,
    pub devices: Vec<InputDevice>,
}

/// One choice of a cheat's parameter.
#[derive(Clone, Debug, PartialEq, Eq)]
pub struct CheatParameterItem {
    pub value: u64,
    pub text: String,
}

/// The parameter of a cheat.
#[derive(Clone, Debug, PartialEq, Eq)]
pub struct CheatParameter {
    pub value: String,
    pub minimum: u64,
    pub maximum: u64,
    pub step: u64,
    pub items: Vec<CheatParameterItem>,
}

/// A cheat of the running machine.
#[derive(Clone, Debug, PartialEq, Eq)]
pub struct Cheat {
    pub id: String,
    pub enabled: bool,
    pub has_run_script: bool,
    pub has_on_script: bool,
    pub has_off_script: bool,
    pub has_changed_script: bool,
    pub description: String,
    pub comment: String,
    pub parameter: Option<CheatParameter>,
}

/// An option of a slot, as the running emulation reports it.
#[derive(Debug)]
pub struct StatusSlotOption {
    pub name: String,
}

/// A slot of the running machine: its full tag, whether the user can choose its
/// option, the index of the chosen option, and the options it offers.
#[derive(Debug)]
pub struct StatusSlot {
    pub name: String,
    pub has_selectable_options: bool,
    pub current_option: Option<usize>,
    pub options: Vec<StatusSlotOption>,
}

/// An image device of the running machine: its tag and the file loaded, if any.
#[derive(Debug)]
pub struct StatusImage {
    pub tag: String,
    pub filename: Option<String>,
}

/// A version of MAME: its major and minor numbers.
#[derive(Clone, Copy, Debug, PartialEq, Eq, Structural)]
pub struct MameVersion {
    pub major: u32,
    pub minor: u32,
}

/// Whether version `v` is `major`.`minor` or later.
pub open spec fn version_at_least(v: MameVersion, major: u32, minor: u32) -> bool {
    v.major > major || (v.major == major && v.minor >= minor)
}

/// The running emulation: the machine's name, its slots and its image devices; whether
/// it is paused, throttled or recording; its frame skip (`None` for automatic); how its
/// sound is muted or attenuated, where reported; its inputs and its cheats.
#[derive(Debug)]
pub struct Running {
    pub machine_name: String,
    pub slots: Vec<StatusSlot>,
    pub images: Vec<StatusImage>,
    pub is_paused: bool,
    pub is_throttled: bool,
    pub is_recording: bool,
    pub frameskip: Option<u8>,
    pub system_mute: Option<bool>,
    pub sound_attenuation: Option<i32>,
    pub inputs: Vec<Input>,
    pub cheats: Vec<Cheat>,
}

/// What the emulation reports: the build of MAME, and the running machine, if any.
#[derive(Debug)]
pub struct Status {
    pub build: MameVersion,
    pub running: Option<Running>,
}

} // verus!
