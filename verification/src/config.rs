//! Validated configuration: the trigger table and the generation options.
//! The application shell reads these from the user's configuration file and
//! hands them over as plain values; validation and detector construction are
//! verified here.

use vstd::prelude::*;

use crate::detect::{DetectorModel, TriggerDetector};
use crate::error::EasyPasswordError;
use crate::generator::{GenerationMode, PasswordConfig};
use crate::guard::InjectionGuard;

verus! {

/// A well-formed trigger table: at least one entry, no empty phrase, no two
/// entries with the same phrase.
pub open spec fn valid_triggers(ts: Seq<(String, GenerationMode)>) -> bool {
    &&& ts.len() >= 1
    &&& (forall|i: int| 0 <= i < ts.len() ==> (#[trigger] ts[i]).0@.len() >= 1)
    &&& (forall|i: int, j: int|
        0 <= i < j < ts.len() ==> (#[trigger] ts[i]).0@ != (#[trigger] ts[j]).0@)
}

/// The user's configuration: trigger phrases with their modes, and the
/// password-derivation options.
pub struct Config {
    pub triggers: Vec<(String, GenerationMode)>,
    pub password: PasswordConfig,
}

impl Config {
    /// A usable configuration: a well-formed trigger table and a positive
    /// password length.
    pub open spec fn spec_valid(self) -> bool {
        &&& valid_triggers(self.triggers@)
        &&& self.password.length >= 1
    }

    /// Checks the configuration, reporting the first problem found.
    pub fn validate(&self) -> (r: Result<(), EasyPasswordError>)
        ensures
            r is Ok <==> self.spec_valid(),
            r matches Err(e) ==> e matches EasyPasswordError::Config(_),
    {
        if self.password.length == 0 {
            return Err(
                EasyPasswordError::Config(String::from_str("password length must be at least 1")),
            );
        }
        let n = self.triggers.len();
        if n == 0 {
            return Err(
                EasyPasswordError::Config(
                    String::from_str("at least one trigger phrase is required"),
                ),
            );
        }
        let mut i: usize = 0;
        while i < n
            invariant
                n == self.triggers@.len(),
                i <= n,
                forall|k: int| 0 <= k < i ==> (#[trigger] self.triggers@[k]).0@.len() >= 1,
            decreases n - i,
        {
            if self.triggers[i].0.as_str().is_empty() {
                return Err(
                    EasyPasswordError::Config(String::from_str("trigger phrases must not be empty")),
                );
            }
            i = i + 1;
        }
        let mut a: usize = 0;
        while a < n
            invariant
                n == self.triggers@.len(),
                a <= n,
                forall|k: int, l: int|
                    0 <= k < a && k < l < n ==> (#[trigger] self.triggers@[k]).0@ != (
                    #[trigger] self.triggers@[l]).0@,
            decreases n - a,
        {
            let mut b: usize = a + 1;
            while b < n
                invariant
                    n == self.triggers@.len(),
                    a < b <= n || (a + 1 == b && b <= n),
                    a < n,
                    forall|l: int|
                        a < l < b ==> (#[trigger] self.triggers@[l]).0@ != self.triggers@[a as int].0@,
                decreases n - b,
            {
                if self.triggers[a].0.eq(&self.triggers[b].0) {
                    return Err(
                        EasyPasswordError::Config(
                            String::from_str("two triggers share the same phrase"),
                        ),
                    );
                }
                b = b + 1;
            }
            a = a + 1;
        }
        Ok(())
    }

    /// Builds the trigger detector for this configuration, validating it
    /// first; a valid configuration always yields a detector in its reset
    /// state.
    pub fn into_detector(self, guard: InjectionGuard) -> (r: Result<TriggerDetector, EasyPasswordError>)
        ensures
            match r {
                Ok(d) => {
                    &&& self.spec_valid()
                    &&& d.wf()
                    &&& d.model() == DetectorModel::init()
                    &&& d.spec_triggers().len() == self.triggers@.len()
                    &&& forall|i: int|
                        0 <= i < self.triggers@.len() ==> #[trigger] d.spec_triggers()[i].phrase@
                            == self.triggers@[i].0@ && d.spec_triggers()[i].mode
                            == self.triggers@[i].1
                },
                Err(e) => !self.spec_valid() && e matches EasyPasswordError::Config(_),
            },
    {
        match self.validate() {
            Err(e) => Err(e),
            Ok(_) => Ok(TriggerDetector::new(self.triggers, guard)),
        }
    }
}

} // verus!
