//! The injection guard: one process-wide boolean flag, set while synthetic
//! keystrokes are being injected. The hook thread reads it before every key
//! event; the consumer thread sets it around injection. It is the sole
//! mechanism keeping the program's own output from being re-read as input.
//!
//! Because another thread may change the flag at any moment, nothing is
//! promised about the value a read returns; the detector states what holds of
//! its own behaviour for either answer.

use core::sync::atomic::AtomicBool;
use core::sync::atomic::Ordering;
use std::sync::Arc;

use vstd::prelude::*;

verus! {

/// A shared handle to the injection flag. Clones refer to the same flag, so
/// one handle can live in the detector on the hook thread while another is
/// held by the consumer loop.
#[derive(Clone)]
pub struct InjectionGuard {
    flag: Arc<AtomicBool>,
}

impl InjectionGuard {
    /// A fresh guard whose flag is clear.
    pub fn new() -> InjectionGuard {
        InjectionGuard { flag: Arc::new(AtomicBool::new(false)) }
    }

    /// The flag's value at some moment during the call (sequentially
    /// consistent load). Another thread may change it at any time, so nothing
    /// more can be said of the result.
    pub fn is_active(&self) -> bool {
        self.flag.load(Ordering::SeqCst)
    }

    /// Sets the flag (sequentially consistent store). Call immediately before
    /// injection begins.
    pub fn acquire(&self) {
        self.flag.store(true, Ordering::SeqCst);
    }

    /// Clears the flag (sequentially consistent store). Call on every exit
    /// path once the last synthetic event is sent.
    pub fn release(&self) {
        self.flag.store(false, Ordering::SeqCst);
    }
}

} // verus!
