//! The outcome of the dialog that warns before stopping the emulation.
use vstd::prelude::*;

verus! {

/// Whether to stop, and the new state of the "show this warning" setting when the
/// user answered.
#[derive(Clone, Copy, Debug, PartialEq, Eq, Structural)]
pub struct StopWarningResult {
    pub stop: bool,
    pub show_warning: Option<bool>,
}

/// The outcome of the dialog: `answer` is the button pressed (`Some(true)` for yes,
/// `Some(false)` for no, `None` when the dialog was closed), and `show_warning_checked`
/// the state of its checkbox.  Closing the dialog neither stops nor changes the
/// setting.
pub fn stop_warning_result(answer: Option<bool>, show_warning_checked: bool) -> (r:
    StopWarningResult)
    ensures
        r.stop == (answer == Some(true)),
        r.show_warning == (if answer is Some {
            Some(show_warning_checked)
        } else {
            None
        }),
{
    let show_warning = match answer {
        Some(_) => Some(show_warning_checked),
        None => None,
    };
    let stop = match answer {
        Some(b) => b,
        None => false,
    };
    StopWarningResult { stop, show_warning }
}

} // verus!
