//! Values which expire: each is stored with the timestamp until which it is
//! valid, and dropped once an epoch reaches that timestamp.
use vstd::prelude::*;

use crate::types::Timestamp;

verus! {

/// Whether a stored value has expired once time reaches `epoch`.
pub open spec fn expired_at<V, T: Timestamp>(entry: Option<(V, T)>, epoch: T) -> bool {
    match entry {
        Some((_, exp)) => exp.rank() <= epoch.rank(),
        None => false,
    }
}

/// A value with its expiry timestamp, or nothing.
pub struct TtlValue<V, T> {
    slot: Option<(V, T)>,
}

impl<V, T: Timestamp> TtlValue<V, T> {
    /// The stored value and its expiry, if any.
    pub closed spec fn entry(&self) -> Option<(V, T)> {
        self.slot
    }

    /// An empty slot.
    pub fn new() -> (r: Self)
        ensures
            r.entry() is None,
    {
        TtlValue { slot: None }
    }

    /// The stored value, if any.
    pub fn get(&self) -> (r: Option<&V>)
        ensures
            self.entry() is None ==> r is None,
            self.entry() is Some ==> r == Some(&(self.entry()->0).0),
    {
        match &self.slot {
            Some((v, _)) => Some(v),
            None => None,
        }
    }

    /// Store a value which expires at `ttl`, replacing any stored value.
    pub fn set(&mut self, value: V, ttl: T)
        ensures
            final(self).entry() == Some((value, ttl)),
    {
        self.slot = Some((value, ttl));
    }

    /// Drop the stored value if its expiry is at or before `epoch`.
    pub fn expire(&mut self, epoch: &T)
        ensures
            expired_at(old(self).entry(), *epoch) ==> final(self).entry() is None,
            !expired_at(old(self).entry(), *epoch) ==> final(self).entry() == old(self).entry(),
    {
        let expired = match &self.slot {
            Some((_, expiry)) => !epoch.before(expiry),
            None => false,
        };
        if expired {
            self.slot = None;
        }
    }

    /// Whether no value is stored.
    pub fn is_empty(&self) -> (r: bool)
        ensures
            r == (self.entry() is None),
    {
        self.slot.is_none()
    }
}

/// Law: a value expired at some epoch is expired at every later epoch, so an
/// expired value never comes back as time moves on.
pub proof fn expiry_persists_as_time_advances<V, T: Timestamp>(entry: Option<(V, T)>, epoch: T, later: T)
    requires
        epoch.rank() <= later.rank(),
    ensures
        expired_at(entry, epoch) ==> expired_at(entry, later),
{
}

} // verus!
