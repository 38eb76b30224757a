//! The library's error type. Payloads are plain strings so that the whole
//! enum is visible to verification; the application shell wraps OS and
//! configuration-file errors into the matching variants.

use vstd::prelude::*;

verus! {

/// Everything that can go wrong in the library or in the thin shell around
/// it.
#[derive(Clone, Debug, PartialEq, Eq)]
pub enum EasyPasswordError {
    /// Password generation was requested before a master key was set.
    MasterKeyNotSet,
    /// No derived candidate satisfied the requested character classes.
    PasswordGeneration(String),
    /// The keyboard hook failed or was lost.
    KeyboardMonitor(String),
    /// Synthetic input could not be delivered.
    TextInjection(String),
    /// The trigger table or generation options are malformed.
    Config(String),
    /// An I/O failure while reading configuration.
    Io(String),
    /// The configuration file did not parse.
    TomlParse(String),
}

} // verus!
