//! Values cached as of a slot, valid for a bounded number of slots.
use vstd::prelude::*;

verus! {

/// Why a cached value cannot be used at a given slot.
#[derive(Clone, Copy, Debug, PartialEq, Eq, Structural)]
pub enum CacheInvalidError {
    /// More than `TTL` slots have passed since the value was refreshed.
    Expired,
    /// The value was refreshed at a slot later than the one asked about.
    TooNew,
    /// The value was explicitly invalidated.
    Invalidated,
}

/// A value together with the slot at which it was last computed. It may be
/// used at slots from that one up to `TTL` slots later, unless invalidated.
#[derive(Clone, Copy)]
pub struct Cache<T, const TTL: u64> {
    pub value: T,
    pub last_updated: u64,
    pub invalidated: bool,
}

impl<T, const TTL: u64> Cache<T, TTL> {
    /// The error, if any, that prevents using the value at `current_slot`.
    pub open spec fn validity(&self, current_slot: u64) -> Option<CacheInvalidError> {
        if self.invalidated {
            Some(CacheInvalidError::Invalidated)
        } else if current_slot < self.last_updated {
            Some(CacheInvalidError::TooNew)
        } else if current_slot - self.last_updated > TTL {
            Some(CacheInvalidError::Expired)
        } else {
            None
        }
    }

    /// Whether the value may be used at `current_slot`.
    pub open spec fn is_valid(&self, current_slot: u64) -> bool {
        self.validity(current_slot) is None
    }

    /// A cache holding `value`, computed at `current_slot`.
    pub fn new(value: T, current_slot: u64) -> (r: Self)
        ensures
            r.value == value,
            r.last_updated == current_slot,
            !r.invalidated,
    {
        Cache { value, last_updated: current_slot, invalidated: false }
    }

    /// The value, if it may be used at `current_slot`.
    pub fn try_get(&self, current_slot: u64) -> (r: Result<&T, CacheInvalidError>)
        ensures
            match self.validity(current_slot) {
                None => r == Ok::<&T, CacheInvalidError>(&self.value),
                Some(e) => r == Err::<&T, CacheInvalidError>(e),
            },
    {
        if self.invalidated {
            Err(CacheInvalidError::Invalidated)
        } else if current_slot < self.last_updated {
            Err(CacheInvalidError::TooNew)
        } else if current_slot - self.last_updated > TTL {
            Err(CacheInvalidError::Expired)
        } else {
            Ok(&self.value)
        }
    }

    /// The value, which must be usable at `current_slot`.
    pub fn expect(&self, current_slot: u64) -> (r: &T)
        requires
            self.is_valid(current_slot),
        ensures
            *r == self.value,
    {
        &self.value
    }

    /// The value, whether or not it is still valid.
    pub fn get_stale(&self) -> (r: &T)
        ensures
            *r == self.value,
    {
        &self.value
    }

    /// The value for modification, whether or not it is still valid.
    pub fn get_stale_mut(&mut self) -> (r: &mut T)
        ensures
            *r == old(self).value,
            *final(self) == (Cache::<T, TTL> { value: *final(r), ..*old(self) }),
    {
        &mut self.value
    }

    /// The value for modification, which must be usable at `current_slot`.
    pub fn expect_mut(&mut self, current_slot: u64) -> (r: &mut T)
        requires
            old(self).is_valid(current_slot),
        ensures
            *r == old(self).value,
            *final(self) == (Cache::<T, TTL> { value: *final(r), ..*old(self) }),
    {
        &mut self.value
    }

    /// Mark the value as computed at `current_slot`.
    pub fn refresh(&mut self, current_slot: u64)
        ensures
            *final(self) == (Cache::<T, TTL> {
                last_updated: current_slot,
                invalidated: false,
                ..*old(self)
            }),
    {
        self.last_updated = current_slot;
        self.invalidated = false;
    }

    /// Mark the value as unusable until the next refresh.
    pub fn invalidate(&mut self)
        ensures
            *final(self) == (Cache::<T, TTL> { invalidated: true, ..*old(self) }),
    {
        self.invalidated = true;
    }

    /// The slot at which the value was last refreshed.
    pub fn last_updated(&self) -> (r: u64)
        ensures
            r == self.last_updated,
    {
        self.last_updated
    }
}

/// A value is usable from the slot at which it was refreshed up to `TTL`
/// slots later, and at no other slot.
pub proof fn lemma_refreshed_window<T, const TTL: u64>(
    before: Cache<T, TTL>,
    after: Cache<T, TTL>,
    refreshed_at: u64,
    slot: u64,
)
    requires
        after == (Cache::<T, TTL> { last_updated: refreshed_at, invalidated: false, ..before }),
    ensures
        after.is_valid(slot) <==> (refreshed_at <= slot && slot - refreshed_at <= TTL),
        after.is_valid(refreshed_at),
{
}

/// An invalidated value is usable at no slot until it is refreshed.
pub proof fn lemma_invalidated_unusable<T, const TTL: u64>(
    before: Cache<T, TTL>,
    after: Cache<T, TTL>,
    slot: u64,
)
    requires
        after == (Cache::<T, TTL> { invalidated: true, ..before }),
    ensures
        !after.is_valid(slot),
        after.validity(slot) == Some(CacheInvalidError::Invalidated),
{
}

} // verus!
