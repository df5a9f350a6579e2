//! How each kind of console output is styled.
use vstd::prelude::*;

verus! {

/// The kinds of text written to the MAME console.
#[derive(Clone, Copy, Debug, PartialEq, Eq, Structural)]
pub enum EmitType {
    CommandLine,
    Command,
    Response,
    Cruft,
}

/// A terminal foreground colour.
#[derive(Clone, Copy, Debug, PartialEq, Eq, Structural)]
pub enum ConsoleColor {
    White,
    Yellow,
    Green,
}

/// How console text is drawn: its foreground colour, and whether it is bold.
#[derive(Clone, Copy, Debug, PartialEq, Eq, Structural)]
pub struct Style {
    pub color: ConsoleColor,
    pub bold: bool,
}

impl EmitType {
    /// The style of this kind of output: command lines white and bold, commands
    /// yellow and bold, responses green and bold, anything else plain white.
    pub fn style(&self) -> (r: Style)
        ensures
            r == (match *self {
                EmitType::CommandLine => Style { color: ConsoleColor::White, bold: true },
                EmitType::Command => Style { color: ConsoleColor::Yellow, bold: true },
                EmitType::Response => Style { color: ConsoleColor::Green, bold: true },
                EmitType::Cruft => Style { color: ConsoleColor::White, bold: false },
            }),
    {
        match self {
            EmitType::CommandLine => Style { color: ConsoleColor::White, bold: true },
            EmitType::Command => Style { color: ConsoleColor::Yellow, bold: true },
            EmitType::Response => Style { color: ConsoleColor::Green, bold: true },
            EmitType::Cruft => Style { color: ConsoleColor::White, bold: false },
        }
    }
}

} // verus!
