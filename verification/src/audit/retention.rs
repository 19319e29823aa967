//! Retention: pruning audit events older than a rolling window.
//!
//! The manager owns a storage backend and a window in days; cleaning up
//! computes the cutoff `now - window` and deletes everything older. A
//! periodic driver may call `cleanup` on a timer; the timer, like every
//! other suspension point, lives outside the core.

use vstd::prelude::*;
use crate::audit::storage::{AuditStorage, StorageError, spec_keep_recent};
use crate::clock::now_unix_millis;

verus! {

/// Milliseconds per day.
pub const MS_PER_DAY: i64 = 86400000;

/// Prunes a storage backend by age.
pub struct AuditRetentionManager<S: AuditStorage> {
    storage: S,
    retention_days: u32,
}

impl<S: AuditStorage> AuditRetentionManager<S> {
    /// The model of the backend's stream.
    pub closed spec fn storage_view(self) -> Seq<crate::audit::models::AuditEventSpec> {
        self.storage.view()
    }

    /// The retention window, in days.
    pub closed spec fn spec_retention_days(self) -> u32 {
        self.retention_days
    }

    /// A manager over a backend with a window in days.
    pub fn new(storage: S, retention_days: u32) -> (r: AuditRetentionManager<S>)
        ensures
            r.storage_view() == storage.view(),
            r.spec_retention_days() == retention_days,
    {
        AuditRetentionManager { storage, retention_days }
    }

    /// The retention window, in days.
    pub fn retention_days(&self) -> (r: u32)
        ensures
            r == self.spec_retention_days(),
    {
        self.retention_days
    }

    /// The storage behind the manager.
    pub fn storage(&self) -> (r: &S)
        ensures
            r.view() == self.storage_view(),
    {
        &self.storage
    }

    /// The cutoff for a given reading of the clock: `now` less the
    /// window, saturating at the epoch's far past.
    pub fn cutoff_for(&self, now_ms: i64) -> (r: i64)
        ensures
            r == spec_cutoff(now_ms as int, self.spec_retention_days() as int),
    {
        let window = (self.retention_days as i64) * MS_PER_DAY;
        if now_ms >= i64::MIN + window {
            now_ms - window
        } else {
            i64::MIN
        }
    }

    /// The cutoff as of now: the clock's reading less the window.
    pub fn cutoff_date_ms(&self) -> (r: i64)
    {
        let now = now_unix_millis();
        self.cutoff_for(now)
    }

    /// Deletes every event older than the cutoff computed from `now_ms`;
    /// returns how many went.
    pub fn cleanup_at(&mut self, now_ms: i64) -> (r: Result<u64, StorageError>)
        ensures
            final(self).spec_retention_days() == old(self).spec_retention_days(),
            r matches Ok(c) ==> final(self).storage_view() == spec_keep_recent(
                old(self).storage_view(),
                spec_cutoff(now_ms as int, old(self).spec_retention_days() as int),
            ) && c == old(self).storage_view().len() - final(self).storage_view().len(),
            r is Err ==> final(self).storage_view() == old(self).storage_view(),
    {
        let cutoff = self.cutoff_for(now_ms);
        self.storage.delete_older_than(cutoff)
    }

    /// Deletes every event older than the window, measured from the
    /// clock's current reading; returns how many went.
    pub fn cleanup(&mut self) -> (r: Result<u64, StorageError>)
        ensures
            final(self).spec_retention_days() == old(self).spec_retention_days(),
            r matches Ok(c) ==> exists|now: int|
                final(self).storage_view() == spec_keep_recent(
                    old(self).storage_view(),
                    spec_cutoff(now, old(self).spec_retention_days() as int),
                ) && c == old(self).storage_view().len() - final(self).storage_view().len(),
            r is Err ==> final(self).storage_view() == old(self).storage_view(),
    {
        let now = now_unix_millis();
        self.cleanup_at(now)
    }
}

/// The cutoff a clock reading and a window stand for, clamped to what an
/// epoch-millisecond value can hold.
pub open spec fn spec_cutoff(now_ms: int, retention_days: int) -> int {
    if now_ms - retention_days * (MS_PER_DAY as int) >= i64::MIN {
        now_ms - retention_days * (MS_PER_DAY as int)
    } else {
        i64::MIN as int
    }
}

} // verus!
