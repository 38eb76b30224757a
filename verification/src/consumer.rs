//! The consumer loop's decision step: what one completed trigger does to the
//! master-key cache and what text, if any, is to be injected in response.
//! The application shell performs the injection and the logging; everything
//! decided here is verified.

use vstd::prelude::*;
use vstd::utf8::encode_utf8;

use crate::error::EasyPasswordError;
use crate::detect::TriggerEvent;
use crate::generator::{first_good, generate_password, spec_generated, PasswordConfig, MAX_ATTEMPTS};
use crate::master_key::MasterKeyCache;

verus! {

/// Applies one completed trigger to the cache and decides what to inject.
///
/// `SetMasterKey` stores the captured argument as the new secret and injects
/// nothing. `GenerateForContext` leaves the cache unchanged and derives the
/// password for `context` from the cached secret; with no usable secret it
/// fails with `MasterKeyNotSet`.
pub fn handle_trigger(
    cache: &mut MasterKeyCache,
    event: TriggerEvent,
    context: &str,
    options: &PasswordConfig,
) -> (r: Result<Option<String>, EasyPasswordError>)
    ensures
        event matches TriggerEvent::SetMasterKey(s) ==> (final(cache).spec_secret() == Some(s@)
            && (r matches Ok(o) && o is None)),
        event matches TriggerEvent::GenerateForContext(_) ==> final(cache).spec_secret() == old(
            cache,
        ).spec_secret() && (match old(cache).spec_secret() {
            None => r matches Err(e) && e is MasterKeyNotSet,
            Some(k) => {
                if k.len() == 0 {
                    r matches Err(e) && e is MasterKeyNotSet
                } else {
                    match r {
                        Ok(o) => o matches Some(p) && spec_generated(
                            encode_utf8(k),
                            encode_utf8(context@),
                            *options,
                            p@,
                        ),
                        Err(e) => e matches EasyPasswordError::PasswordGeneration(_) && first_good(
                            encode_utf8(k),
                            encode_utf8(context@),
                            *options,
                            MAX_ATTEMPTS as int,
                        ) is None,
                    }
                }
            },
        }),
{
    match event {
        TriggerEvent::SetMasterKey(s) => {
            cache.set(s);
            Ok(None)
        },
        TriggerEvent::GenerateForContext(_) => {
            match cache.get() {
                None => Err(EasyPasswordError::MasterKeyNotSet),
                Some(k) => {
                    match generate_password(k, context, options) {
                        Ok(p) => Ok(Some(p)),
                        Err(e) => Err(e),
                    }
                },
            }
        },
    }
}

} // verus!
