//! The steps of a database cleanup cycle: delete what is older than the
//! retention time, shrink the database when it is still over its size
//! limit, then drop old upload queue entries. The caller performs each step
//! on the store and reports back.
use crate::store::{over_size_limit, retention_cutoff, CleanupConfig, CLEANUP_BATCH};
use vstd::prelude::*;

verus! {

/// What one cleanup cycle did: records deleted for their age and for the
/// database size, upload queue entries deleted, and the database size in
/// bytes before and after.
#[derive(Debug, Clone, Copy, PartialEq, Eq, Structural)]
pub struct CleanupStats {
    pub deleted_by_time: u64,
    pub deleted_by_size: u64,
    pub queue_deleted: u64,
    pub size_before_bytes: u64,
    pub size_after_bytes: u64,
}

/// The next thing for the caller to do.
#[derive(Debug, Clone, Copy, PartialEq, Eq, Structural)]
pub enum CleanupStep {
    /// Read the database size and report it.
    MeasureSize,
    /// Delete the measurements that started before this time; report how
    /// many.
    DeleteOlderThan(i64),
    /// Delete the oldest measurements until the database is at most this
    /// many megabytes; report how many.
    DeleteBySize(u64),
    /// Delete the upload queue entries older than this time; report how
    /// many.
    DeleteQueueOlderThan(i64),
    /// The cycle is over.
    Done(CleanupStats),
}

/// Where a cycle stands: which report it waits for.
#[derive(Debug, Clone, Copy, PartialEq, Eq, Structural)]
pub enum CyclePhase {
    SizeBefore,
    TimeCleanup,
    SizeAfterTime,
    SizeCleanup,
    QueueCleanup,
    SizeAfter,
    Finished,
}

/// A cleanup cycle in progress.
#[derive(Debug, Clone, Copy, PartialEq, Eq, Structural)]
pub struct CleanupCycle {
    /// The size limit in megabytes.
    pub max_mb: u64,
    /// The time before which measurements and queue entries are too old.
    pub threshold: i64,
    pub phase: CyclePhase,
    pub stats: CleanupStats,
}

/// The statistics of a cycle that has only begun.
pub open spec fn no_stats() -> CleanupStats {
    CleanupStats {
        deleted_by_time: 0,
        deleted_by_size: 0,
        queue_deleted: 0,
        size_before_bytes: 0,
        size_after_bytes: 0,
    }
}

/// The cycle after a size report, and the next step.
pub open spec fn spec_on_size(c: CleanupCycle, bytes: u64) -> (CleanupCycle, CleanupStep) {
    match c.phase {
        CyclePhase::SizeBefore => (
            CleanupCycle {
                phase: CyclePhase::TimeCleanup,
                stats: CleanupStats { size_before_bytes: bytes, ..c.stats },
                ..c
            },
            CleanupStep::DeleteOlderThan(c.threshold),
        ),
        CyclePhase::SizeAfterTime => if bytes > c.max_mb * 1048576 {
            (CleanupCycle { phase: CyclePhase::SizeCleanup, ..c }, CleanupStep::DeleteBySize(c.max_mb))
        } else {
            (
                CleanupCycle { phase: CyclePhase::QueueCleanup, ..c },
                CleanupStep::DeleteQueueOlderThan(c.threshold),
            )
        },
        _ => {
            let s = CleanupStats { size_after_bytes: bytes, ..c.stats };
            (CleanupCycle { phase: CyclePhase::Finished, stats: s, ..c }, CleanupStep::Done(s))
        },
    }
}

/// The cycle after a deletion report, and the next step.
pub open spec fn spec_on_deleted(c: CleanupCycle, n: u64) -> (CleanupCycle, CleanupStep) {
    match c.phase {
        CyclePhase::TimeCleanup => (
            CleanupCycle {
                phase: CyclePhase::SizeAfterTime,
                stats: CleanupStats { deleted_by_time: n, ..c.stats },
                ..c
            },
            CleanupStep::MeasureSize,
        ),
        CyclePhase::SizeCleanup => (
            CleanupCycle {
                phase: CyclePhase::QueueCleanup,
                stats: CleanupStats { deleted_by_size: n, ..c.stats },
                ..c
            },
            CleanupStep::DeleteQueueOlderThan(c.threshold),
        ),
        _ => (
            CleanupCycle {
                phase: CyclePhase::SizeAfter,
                stats: CleanupStats { queue_deleted: n, ..c.stats },
                ..c
            },
            CleanupStep::MeasureSize,
        ),
    }
}

/// Whether the cycle waits for a size report.
pub open spec fn waits_for_size(p: CyclePhase) -> bool {
    p == CyclePhase::SizeBefore || p == CyclePhase::SizeAfterTime || p == CyclePhase::SizeAfter
}

/// Whether the cycle waits for a deletion report.
pub open spec fn waits_for_deletion(p: CyclePhase) -> bool {
    p == CyclePhase::TimeCleanup || p == CyclePhase::SizeCleanup || p == CyclePhase::QueueCleanup
}

/// The cycle that starts at `now`.
pub open spec fn spec_start(config: CleanupConfig, now: i64) -> CleanupCycle {
    CleanupCycle {
        max_mb: config.max_database_size_mb,
        threshold: (now - config.retention_days * 86400) as i64,
        phase: CyclePhase::SizeBefore,
        stats: no_stats(),
    }
}

impl CleanupCycle {
    /// Starts a cycle at `now` (Unix seconds): the threshold lies
    /// `retention_days` days back. The first step measures the database.
    pub fn start(config: &CleanupConfig, now: i64) -> (r: (CleanupCycle, CleanupStep))
        requires
            now - config.retention_days * 86400 >= i64::MIN,
        ensures
            r.0 == spec_start(*config, now),
            r.1 == CleanupStep::MeasureSize,
    {
        let threshold = retention_cutoff(now, config.retention_days);
        (
            CleanupCycle {
                max_mb: config.max_database_size_mb,
                threshold,
                phase: CyclePhase::SizeBefore,
                stats: CleanupStats {
                    deleted_by_time: 0,
                    deleted_by_size: 0,
                    queue_deleted: 0,
                    size_before_bytes: 0,
                    size_after_bytes: 0,
                },
            },
            CleanupStep::MeasureSize,
        )
    }

    /// Takes the database size that the last step asked for.
    pub fn on_size(&mut self, bytes: u64) -> (step: CleanupStep)
        requires
            waits_for_size(old(self).phase),
        ensures
            (*final(self), step) == spec_on_size(*old(self), bytes),
    {
        match self.phase {
            CyclePhase::SizeBefore => {
                self.stats.size_before_bytes = bytes;
                self.phase = CyclePhase::TimeCleanup;
                CleanupStep::DeleteOlderThan(self.threshold)
            },
            CyclePhase::SizeAfterTime => {
                if over_size_limit(bytes, self.max_mb) {
                    self.phase = CyclePhase::SizeCleanup;
                    CleanupStep::DeleteBySize(self.max_mb)
                } else {
                    self.phase = CyclePhase::QueueCleanup;
                    CleanupStep::DeleteQueueOlderThan(self.threshold)
                }
            },
            _ => {
                self.stats.size_after_bytes = bytes;
                self.phase = CyclePhase::Finished;
                CleanupStep::Done(self.stats)
            },
        }
    }

    /// Takes the number of records that the last step deleted.
    pub fn on_deleted(&mut self, n: u64) -> (step: CleanupStep)
        requires
            waits_for_deletion(old(self).phase),
        ensures
            (*final(self), step) == spec_on_deleted(*old(self), n),
    {
        match self.phase {
            CyclePhase::TimeCleanup => {
                self.stats.deleted_by_time = n;
                self.phase = CyclePhase::SizeAfterTime;
                CleanupStep::MeasureSize
            },
            CyclePhase::SizeCleanup => {
                self.stats.deleted_by_size = n;
                self.phase = CyclePhase::QueueCleanup;
                CleanupStep::DeleteQueueOlderThan(self.threshold)
            },
            _ => {
                self.stats.queue_deleted = n;
                self.phase = CyclePhase::SizeAfter;
                CleanupStep::MeasureSize
            },
        }
    }
}

/// A whole cycle: with the sizes `s0` (at the start), `s1` (after the
/// time-based deletion) and `s2` (at the end) and the deletion counts `a`,
/// `b` and `c`, the cycle first deletes by age before the threshold, deletes
/// by size exactly when `s1` is over the limit, deletes old queue entries
/// before the same threshold, and reports those counts and sizes (no
/// deletion by size when it did not shrink).
pub proof fn lemma_cycle(config: CleanupConfig, now: i64, s0: u64, a: u64, s1: u64, b: u64, c: u64, s2: u64)
    ensures
        ({
            let c0 = spec_start(config, now);
            let (c1, st1) = spec_on_size(c0, s0);
            let (c2, st2) = spec_on_deleted(c1, a);
            let (c3, st3) = spec_on_size(c2, s1);
            let over = s1 > config.max_database_size_mb * 1048576;
            let (c4, st4) = if over {
                spec_on_deleted(c3, b)
            } else {
                (c3, st3)
            };
            let (c5, st5) = spec_on_deleted(c4, c);
            let (c6, st6) = spec_on_size(c5, s2);
            &&& st1 == CleanupStep::DeleteOlderThan(c0.threshold)
            &&& st2 == CleanupStep::MeasureSize
            &&& over ==> st3 == CleanupStep::DeleteBySize(config.max_database_size_mb)
            &&& st4 == CleanupStep::DeleteQueueOlderThan(c0.threshold)
            &&& st5 == CleanupStep::MeasureSize
            &&& st6 == CleanupStep::Done(
                CleanupStats {
                    deleted_by_time: a,
                    deleted_by_size: if over {
                        b
                    } else {
                        0
                    },
                    queue_deleted: c,
                    size_before_bytes: s0,
                    size_after_bytes: s2,
                },
            )
        }),
{
}

// ---------------------------------------------------------------------
// Size-based deletion
// ---------------------------------------------------------------------

/// Deletion by size: the size to get under, and how many records were
/// deleted so far. It deletes the oldest records in batches, measuring the
/// database before each batch.
#[derive(Debug, Clone, Copy, PartialEq, Eq, Structural)]
pub struct SizeCleanup {
    pub target_bytes: u64,
    pub total_deleted: u64,
}

impl SizeCleanup {
    /// Deletion down to `target_mb` megabytes.
    pub fn new(target_mb: u64) -> (r: Self)
        requires
            target_mb * 1048576 <= u64::MAX,
        ensures
            r.target_bytes == target_mb * 1048576,
            r.total_deleted == 0,
    {
        SizeCleanup { target_bytes: target_mb * 1024 * 1024, total_deleted: 0 }
    }

    /// Whether a database of `bytes` still needs deletion.
    pub fn over_target(&self, bytes: u64) -> (r: bool)
        ensures
            r == (bytes > self.target_bytes),
    {
        bytes > self.target_bytes
    }

    /// The most records to delete in one batch.
    pub fn batch_limit(&self) -> (r: usize)
        ensures
            r == CLEANUP_BATCH,
    {
        CLEANUP_BATCH
    }

    /// Takes the size of the batch of oldest records that was found (and
    /// deleted, when there was any). Returns whether deletion goes on: it
    /// stops when no record was left to delete.
    pub fn on_batch(&mut self, n: usize) -> (more: bool)
        requires
            n <= CLEANUP_BATCH,
            old(self).total_deleted + n <= u64::MAX,
        ensures
            final(self).target_bytes == old(self).target_bytes,
            final(self).total_deleted == old(self).total_deleted + n,
            more == (n > 0),
    {
        self.total_deleted = self.total_deleted + n as u64;
        n > 0
    }
}

} // verus!
