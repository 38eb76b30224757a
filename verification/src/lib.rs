//! In-memory password helper: a trigger-phrase detector over a stream of
//! normalized key events, a deterministic password derivation function, a
//! master-secret cache, and the shared flag that keeps the detector from
//! re-reading the program's own synthetic keystrokes.

pub mod config;
pub mod consumer;
pub mod detect;
pub mod error;
pub mod generator;
pub mod guard;
pub mod keys;
pub mod master_key;
pub mod text;

pub use config::Config;
pub use consumer::handle_trigger;
pub use detect::{TriggerDetector, TriggerEvent};
pub use error::EasyPasswordError;
pub use generator::{generate_password, GenerationMode, PasswordConfig};
pub use guard::InjectionGuard;
pub use keys::{KeyClass, KeyEvent};
pub use master_key::MasterKeyCache;
