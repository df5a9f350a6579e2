//! A value that stands in for another one in debug output.
use vstd::prelude::*;

verus! {

/// Text to show in debug output in place of a value.
pub struct DebugString(String);

impl DebugString {
    /// The text that debug output shows.
    pub closed spec fn text(&self) -> Seq<char> {
        self.0@
    }

    /// A placeholder, `...`, for any value.
    pub fn elipsis<T>(_value: T) -> (r: Self)
        ensures
            r.text() == "..."@,
    {
        Self::from_static("...")
    }

    /// Debug output that shows `value`.
    pub fn from_static(value: &'static str) -> (r: Self)
        ensures
            r.text() == value@,
    {
        DebugString(value.to_owned())
    }

    /// What debug output shows for this value.
    pub fn to_debug_string(&self) -> (r: String)
        ensures
            r@ == self.text(),
    {
        self.0.clone()
    }
}

} // verus!
