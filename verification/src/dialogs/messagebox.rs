//! The choices that a message box offers.
use vstd::prelude::*;

verus! {

/// A set of message box buttons: every choice, in order, with the one that accepting
/// the box picks and the one that closing it picks.
pub trait MessageBoxDefaults: Sized {
    /// Every choice, in the order of the buttons.
    fn variants() -> Vec<Self>;

    /// The choice that accepting the box picks.
    fn accept() -> Self;

    /// The choice that closing the box picks.
    fn abort() -> Self;

    /// The text of the choice's button.
    fn label(&self) -> String;
}

/// A message box with one button, "OK".
#[derive(Debug, Clone, Copy, PartialEq, Eq, Structural)]
pub enum OkOnly {
    Okay,
}

impl MessageBoxDefaults for OkOnly {
    fn variants() -> (r: Vec<Self>)
        ensures
            r@ == seq![OkOnly::Okay],
    {
        vec![OkOnly::Okay]
    }

    fn accept() -> (r: Self)
        ensures
            r == OkOnly::Okay,
    {
        OkOnly::Okay
    }

    fn abort() -> (r: Self)
        ensures
            r == OkOnly::Okay,
    {
        OkOnly::Okay
    }

    fn label(&self) -> (r: String)
        ensures
            r@ == "OK"@,
    {
        "OK".to_owned()
    }
}

/// A message box with the buttons "OK" and "Cancel".
#[derive(Debug, Clone, Copy, PartialEq, Eq, Structural)]
pub enum OkCancel {
    Okay,
    Cancel,
}

impl MessageBoxDefaults for OkCancel {
    fn variants() -> (r: Vec<Self>)
        ensures
            r@ == seq![OkCancel::Okay, OkCancel::Cancel],
    {
        vec![OkCancel::Okay, OkCancel::Cancel]
    }

    fn accept() -> (r: Self)
        ensures
            r == OkCancel::Okay,
    {
        OkCancel::Okay
    }

    fn abort() -> (r: Self)
        ensures
            r == OkCancel::Cancel,
    {
        OkCancel::Cancel
    }

    fn label(&self) -> (r: String)
        ensures
            r@ == (match *self {
                OkCancel::Okay => "OK"@,
                OkCancel::Cancel => "Cancel"@,
            }),
    {
        match self {
            OkCancel::Okay => "OK".to_owned(),
            OkCancel::Cancel => "Cancel".to_owned(),
        }
    }
}

} // verus!
