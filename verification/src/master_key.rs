//! The master-secret cache: a single in-memory slot, owned by the consumer
//! loop. The secret is never persisted; clearing the slot drops it.

use vstd::prelude::*;

verus! {

/// Holds at most one master secret in memory.
pub struct MasterKeyCache {
    secret: Option<String>,
}

impl MasterKeyCache {
    /// The cached secret as a sequence of characters, if one is set.
    pub closed spec fn spec_secret(self) -> Option<Seq<char>> {
        match self.secret {
            Some(s) => Some(s@),
            None => None,
        }
    }

    /// An empty cache: no secret set.
    pub fn new() -> (c: MasterKeyCache)
        ensures
            c.spec_secret() is None,
    {
        MasterKeyCache { secret: None }
    }

    /// Stores `secret`, replacing any previously cached one.
    pub fn set(&mut self, secret: String)
        ensures
            final(self).spec_secret() == Some(secret@),
    {
        self.secret = Some(secret);
    }

    /// The cached secret, if any.
    pub fn get(&self) -> (r: Option<&str>)
        ensures
            match r {
                Some(s) => self.spec_secret() == Some(s@),
                None => self.spec_secret() is None,
            },
    {
        match &self.secret {
            Some(s) => Some(s.as_str()),
            None => None,
        }
    }

    /// Whether a secret is cached.
    pub fn is_set(&self) -> (b: bool)
        ensures
            b == (self.spec_secret() is Some),
    {
        match &self.secret {
            Some(_) => true,
            None => false,
        }
    }

    /// Drops the cached secret, if any.
    pub fn clear(&mut self)
        ensures
            final(self).spec_secret() is None,
    {
        self.secret = None;
    }
}

} // verus!
