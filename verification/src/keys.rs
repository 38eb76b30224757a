//! Normalized key events: what the platform adapter hands to the detector,
//! one value per physical key-down.

use vstd::prelude::*;

verus! {

/// The key identities the detector distinguishes. Every key that is neither
/// Return nor Backspace is `Other`; what matters about it is only the
/// character it produced, if any.
#[derive(Clone, Copy, Debug, PartialEq, Eq, Structural)]
pub enum KeyClass {
    Return,
    Backspace,
    Other,
}

/// One normalized key-down event. `ch` is the character the key produced in
/// the focused application (`None` for non-printing keys). `autorepeat` is
/// true for events generated by holding a key down; `modifier_held` is true
/// when a command/control/option chord was active. Neither kind of event can
/// be part of a typed trigger phrase.
#[derive(Clone, Copy, Debug, PartialEq, Eq, Structural)]
pub struct KeyEvent {
    pub class: KeyClass,
    pub ch: Option<char>,
    pub autorepeat: bool,
    pub modifier_held: bool,
}

impl KeyEvent {
    /// A plain character press: no chord, no auto-repeat.
    pub fn character(c: char) -> (ev: KeyEvent)
        ensures
            ev == (KeyEvent {
                class: KeyClass::Other,
                ch: Some(c),
                autorepeat: false,
                modifier_held: false,
            }),
    {
        KeyEvent { class: KeyClass::Other, ch: Some(c), autorepeat: false, modifier_held: false }
    }

    /// A plain Return press.
    pub fn return_key() -> (ev: KeyEvent)
        ensures
            ev == (KeyEvent {
                class: KeyClass::Return,
                ch: None,
                autorepeat: false,
                modifier_held: false,
            }),
    {
        KeyEvent { class: KeyClass::Return, ch: None, autorepeat: false, modifier_held: false }
    }

    /// A plain Backspace press.
    pub fn backspace() -> (ev: KeyEvent)
        ensures
            ev == (KeyEvent {
                class: KeyClass::Backspace,
                ch: None,
                autorepeat: false,
                modifier_held: false,
            }),
    {
        KeyEvent { class: KeyClass::Backspace, ch: None, autorepeat: false, modifier_held: false }
    }

    /// Events that the detector ignores outright: auto-repeats and chords.
    pub open spec fn is_suppressed_kind(self) -> bool {
        self.autorepeat || self.modifier_held
    }
}

/// The key class for a macOS virtual keycode, or `None` for a keycode the
/// hook should not feed to the detector (pure modifiers, function keys, and
/// everything else outside the typeable layout). The detector reads only the
/// produced character, so of the key's identity it needs no more than
/// Return, Backspace, or other.
///
/// Typeable keycodes on the ANSI layout are 0 through 50 except 10, with 36
/// the Return key and 51 Backspace.
pub open spec fn spec_keycode_class(keycode: u16) -> Option<KeyClass> {
    if keycode == 36 {
        Some(KeyClass::Return)
    } else if keycode == 51 {
        Some(KeyClass::Backspace)
    } else if keycode <= 50 && keycode != 10 {
        Some(KeyClass::Other)
    } else {
        None
    }
}

/// Maps a macOS virtual keycode to the key class the detector distinguishes.
#[verifier::when_used_as_spec(spec_keycode_class)]
pub fn keycode_to_key_class(keycode: u16) -> (r: Option<KeyClass>)
    ensures
        r == spec_keycode_class(keycode),
{
    if keycode == 36 {
        Some(KeyClass::Return)
    } else if keycode == 51 {
        Some(KeyClass::Backspace)
    } else if keycode <= 50 && keycode != 10 {
        Some(KeyClass::Other)
    } else {
        None
    }
}

} // verus!
