//! The Slint back ends that the application can run on.
use crate::text::eq_ignore_ascii_case;
use crate::text::str_eq_ignore_ascii_case;
use vstd::prelude::*;

verus! {

/// A Slint back end.
#[derive(Clone, Copy, Debug, PartialEq, Eq, Structural)]
pub enum SlintBackend {
    Winit,
}

impl SlintBackend {
    /// Parses a back end's name, ignoring the case of ASCII letters; `None` for any
    /// other text.
    pub fn from_name(name: &str) -> (r: Option<Self>)
        ensures
            r == (if eq_ignore_ascii_case(name@, "Winit"@) {
                Some(SlintBackend::Winit)
            } else {
                None
            }),
    {
        if str_eq_ignore_ascii_case(name, "Winit") {
            Some(SlintBackend::Winit)
        } else {
            None
        }
    }
}

} // verus!
