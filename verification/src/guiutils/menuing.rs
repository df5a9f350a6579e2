//! Menu accelerators and menu item updates.
use crate::text::starts_with;
use vstd::prelude::*;

verus! {

/// The modifier keys of an accelerator.
#[derive(Clone, Copy, Debug, PartialEq, Eq, Structural)]
pub struct Modifiers {
    pub control: bool,
    pub shift: bool,
    pub alt: bool,
}

/// The keys that accelerators use.
#[derive(Clone, Copy, Debug, PartialEq, Eq, Structural)]
pub enum KeyCode {
    KeyX,
    F7,
    F8,
    F9,
    F10,
    F11,
    F12,
    Pause,
    ScrollLock,
}

/// A key with its modifiers; `None` for no modifier at all.
#[derive(Clone, Copy, Debug, PartialEq, Eq, Structural)]
pub struct Accelerator {
    pub mods: Option<Modifiers>,
    pub key: KeyCode,
}

/// The key that `text` names, if it is one that accelerators use.
pub open spec fn key_named(text: Seq<char>) -> Option<KeyCode> {
    if text == "X"@ {
        Some(KeyCode::KeyX)
    } else if text == "F7"@ {
        Some(KeyCode::F7)
    } else if text == "F8"@ {
        Some(KeyCode::F8)
    } else if text == "F9"@ {
        Some(KeyCode::F9)
    } else if text == "F10"@ {
        Some(KeyCode::F10)
    } else if text == "F11"@ {
        Some(KeyCode::F11)
    } else if text == "F12"@ {
        Some(KeyCode::F12)
    } else if text == "Pause"@ {
        Some(KeyCode::Pause)
    } else if text == "ScrLk"@ {
        Some(KeyCode::ScrollLock)
    } else {
        None
    }
}

/// The modifiers with one more set: `control`, `shift` or `alt` by `which` (0, 1, 2).
pub open spec fn with_modifier(mods: Option<Modifiers>, which: int) -> Option<Modifiers> {
    let m = match mods {
        Some(m) => m,
        None => Modifiers { control: false, shift: false, alt: false },
    };
    Some(
        if which == 0 {
            Modifiers { control: true, ..m }
        } else if which == 1 {
            Modifiers { shift: true, ..m }
        } else {
            Modifiers { alt: true, ..m }
        },
    )
}

/// `text` with `prefix` removed when it starts with it, and the modifiers with the
/// one for the prefix added then.
pub open spec fn strip_modifier(
    text: Seq<char>,
    mods: Option<Modifiers>,
    prefix: Seq<char>,
    which: int,
) -> (Seq<char>, Option<Modifiers>) {
    if starts_with(text, prefix) {
        (text.skip(prefix.len() as int), with_modifier(mods, which))
    } else {
        (text, mods)
    }
}

/// The key text and modifiers of an accelerator's text: "Ctrl+", "Shift+" and "Alt+"
/// are taken off the front, in that order, each when present.
pub open spec fn accel_parts(text: Seq<char>) -> (Seq<char>, Option<Modifiers>) {
    let (t1, m1) = strip_modifier(text, None, "Ctrl+"@, 0);
    let (t2, m2) = strip_modifier(t1, m1, "Shift+"@, 1);
    strip_modifier(t2, m2, "Alt+"@, 2)
}

fn strip_modifier_exec(text: Vec<char>, mods: Option<Modifiers>, prefix: &str, which: u8) -> (r: (
    Vec<char>,
    Option<Modifiers>,
))
    requires
        which < 3,
    ensures
        (r.0@, r.1) == strip_modifier(text@, mods, prefix@, which as int),
{
    let p = crate::text::chars_of(prefix);
    if p.len() <= text.len() && crate::text::matches_at(&text, 0, &p) {
        assert(text@.subrange(0, p@.len() as int) =~= text@.take(p@.len() as int));
        let rest = crate::text::sub_vec(&text, p.len(), text.len());
        assert(rest@ =~= text@.skip(p@.len() as int));
        let m = match mods {
            Some(m) => m,
            None => Modifiers { control: false, shift: false, alt: false },
        };
        let m = if which == 0 {
            Modifiers { control: true, ..m }
        } else if which == 1 {
            Modifiers { shift: true, ..m }
        } else {
            Modifiers { alt: true, ..m }
        };
        (rest, Some(m))
    } else {
        proof {
            if starts_with(text@, prefix@) {
                assert(text@.subrange(0, p@.len() as int) =~= text@.take(p@.len() as int));
            }
        }
        (text, mods)
    }
}

fn key_exec(text: &Vec<char>) -> (r: Option<KeyCode>)
    ensures
        r == key_named(text@),
{
    let s = crate::text::string_from_chars(text);
    let t = s.as_str();
    if crate::text::str_eq(t, "X") {
        Some(KeyCode::KeyX)
    } else if crate::text::str_eq(t, "F7") {
        Some(KeyCode::F7)
    } else if crate::text::str_eq(t, "F8") {
        Some(KeyCode::F8)
    } else if crate::text::str_eq(t, "F9") {
        Some(KeyCode::F9)
    } else if crate::text::str_eq(t, "F10") {
        Some(KeyCode::F10)
    } else if crate::text::str_eq(t, "F11") {
        Some(KeyCode::F11)
    } else if crate::text::str_eq(t, "F12") {
        Some(KeyCode::F12)
    } else if crate::text::str_eq(t, "Pause") {
        Some(KeyCode::Pause)
    } else if crate::text::str_eq(t, "ScrLk") {
        Some(KeyCode::ScrollLock)
    } else {
        None
    }
}

/// The accelerator that `text` describes, such as "Ctrl+Shift+F7": optional
/// "Ctrl+", "Shift+" and "Alt+" prefixes, in that order, then the key.
pub fn accel(text: &str) -> (r: Option<Accelerator>)
    requires
        key_named(accel_parts(text@).0) is Some,
    ensures
        r == Some(Accelerator { mods: accel_parts(text@).1, key: key_named(accel_parts(text@).0)->0 }),
{
    let t = crate::text::chars_of(text);
    let (t, m) = strip_modifier_exec(t, None, "Ctrl+", 0);
    let (t, m) = strip_modifier_exec(t, m, "Shift+", 1);
    let (t, m) = strip_modifier_exec(t, m, "Alt+", 2);
    match key_exec(&t) {
        Some(key) => Some(Accelerator { mods: m, key }),
        None => None,
    }
}

/// A change to a menu item: its new text, if any.
#[derive(Debug, PartialEq, Eq)]
pub struct MenuItemUpdate {
    pub text: Option<String>,
}

impl Default for MenuItemUpdate {
    fn default() -> (r: Self)
        ensures
            r.text is None,
    {
        MenuItemUpdate { text: None }
    }
}

} // verus!
