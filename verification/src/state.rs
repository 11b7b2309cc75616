//! Shared application state that holds plain values: cached statistics
//! refreshed by a background task, and the last known exit of each managed
//! LLM server.

use vstd::prelude::*;

verus! {

/// Last known exit details of a managed server.
#[derive(Clone, Debug)]
pub struct ManagedLlamaLast {
    pub exit_code: Option<i32>,
    pub stderr_tail: Option<String>,
}

impl Default for ManagedLlamaLast {
    fn default() -> (r: Self)
        ensures
            r.exit_code is None,
            r.stderr_tail is None,
    {
        ManagedLlamaLast { exit_code: None, stderr_tail: None }
    }
}

/// Cached database and file statistics. Counts are never negative.
#[derive(Debug)]
pub struct StatsCache {
    disk_bytes: u64,
    frame_count: i64,
    indexed_count: i64,
    unarchived_bytes: u64,
    archived_count: i64,
    unarchived_count: i64,
}

/// A count as cached: negative values read as zero.
pub open spec fn clamp_count(n: i64) -> i64 {
    if n < 0 {
        0
    } else {
        n
    }
}

impl StatsCache {
    #[verifier::type_invariant]
    spec fn counts_nonnegative(self) -> bool {
        &&& self.frame_count >= 0
        &&& self.indexed_count >= 0
        &&& self.archived_count >= 0
        &&& self.unarchived_count >= 0
    }

    pub closed spec fn disk_bytes_view(self) -> u64 {
        self.disk_bytes
    }

    pub closed spec fn frame_count_view(self) -> i64 {
        self.frame_count
    }

    pub closed spec fn indexed_count_view(self) -> i64 {
        self.indexed_count
    }

    pub closed spec fn unarchived_bytes_view(self) -> u64 {
        self.unarchived_bytes
    }

    pub closed spec fn archived_count_view(self) -> i64 {
        self.archived_count
    }

    pub closed spec fn unarchived_count_view(self) -> i64 {
        self.unarchived_count
    }

    /// Every cached value is zero.
    pub open spec fn is_empty(self) -> bool {
        &&& self.disk_bytes_view() == 0
        &&& self.frame_count_view() == 0
        &&& self.indexed_count_view() == 0
        &&& self.unarchived_bytes_view() == 0
        &&& self.archived_count_view() == 0
        &&& self.unarchived_count_view() == 0
    }

    /// A cache with nothing refreshed yet.
    pub fn new() -> (c: Self)
        ensures
            c.is_empty(),
    {
        StatsCache {
            disk_bytes: 0,
            frame_count: 0,
            indexed_count: 0,
            unarchived_bytes: 0,
            archived_count: 0,
            unarchived_count: 0,
        }
    }

    pub fn set_cached_disk_bytes(&mut self, bytes: u64)
        ensures
            final(self).disk_bytes_view() == bytes,
            final(self).frame_count_view() == old(self).frame_count_view(),
            final(self).indexed_count_view() == old(self).indexed_count_view(),
            final(self).unarchived_bytes_view() == old(self).unarchived_bytes_view(),
            final(self).archived_count_view() == old(self).archived_count_view(),
            final(self).unarchived_count_view() == old(self).unarchived_count_view(),
    {
        proof {
            use_type_invariant(&*self);
        }
        self.disk_bytes = bytes;
    }

    pub fn cached_disk_bytes(&self) -> (r: u64)
        ensures
            r == self.disk_bytes_view(),
    {
        self.disk_bytes
    }

    /// Stores the frame and indexed counts, negative values as zero.
    pub fn set_cached_counts(&mut self, frame_count: i64, indexed_count: i64)
        ensures
            final(self).frame_count_view() == clamp_count(frame_count),
            final(self).indexed_count_view() == clamp_count(indexed_count),
            final(self).disk_bytes_view() == old(self).disk_bytes_view(),
            final(self).unarchived_bytes_view() == old(self).unarchived_bytes_view(),
            final(self).archived_count_view() == old(self).archived_count_view(),
            final(self).unarchived_count_view() == old(self).unarchived_count_view(),
    {
        proof {
            use_type_invariant(&*self);
        }
        self.frame_count = if frame_count < 0 {
            0
        } else {
            frame_count
        };
        self.indexed_count = if indexed_count < 0 {
            0
        } else {
            indexed_count
        };
    }

    /// `(frame_count, indexed_count)`.
    pub fn cached_counts(&self) -> (r: (i64, i64))
        ensures
            r == (self.frame_count_view(), self.indexed_count_view()),
            r.0 >= 0 && r.1 >= 0,
    {
        proof {
            use_type_invariant(self);
        }
        (self.frame_count, self.indexed_count)
    }

    pub fn set_cached_unarchived_bytes(&mut self, bytes: u64)
        ensures
            final(self).unarchived_bytes_view() == bytes,
            final(self).disk_bytes_view() == old(self).disk_bytes_view(),
            final(self).frame_count_view() == old(self).frame_count_view(),
            final(self).indexed_count_view() == old(self).indexed_count_view(),
            final(self).archived_count_view() == old(self).archived_count_view(),
            final(self).unarchived_count_view() == old(self).unarchived_count_view(),
    {
        proof {
            use_type_invariant(&*self);
        }
        self.unarchived_bytes = bytes;
    }

    pub fn cached_unarchived_bytes(&self) -> (r: u64)
        ensures
            r == self.unarchived_bytes_view(),
    {
        self.unarchived_bytes
    }

    /// Stores the archived frame count, a negative value as zero.
    pub fn set_cached_archived_count(&mut self, count: i64)
        ensures
            final(self).archived_count_view() == clamp_count(count),
            final(self).disk_bytes_view() == old(self).disk_bytes_view(),
            final(self).frame_count_view() == old(self).frame_count_view(),
            final(self).indexed_count_view() == old(self).indexed_count_view(),
            final(self).unarchived_bytes_view() == old(self).unarchived_bytes_view(),
            final(self).unarchived_count_view() == old(self).unarchived_count_view(),
    {
        proof {
            use_type_invariant(&*self);
        }
        self.archived_count = if count < 0 {
            0
        } else {
            count
        };
    }

    pub fn cached_archived_count(&self) -> (r: i64)
        ensures
            r == self.archived_count_view(),
            r >= 0,
    {
        proof {
            use_type_invariant(self);
        }
        self.archived_count
    }

    /// Stores the unarchived frame count, a negative value as zero.
    pub fn set_cached_unarchived_count(&mut self, count: i64)
        ensures
            final(self).unarchived_count_view() == clamp_count(count),
            final(self).disk_bytes_view() == old(self).disk_bytes_view(),
            final(self).frame_count_view() == old(self).frame_count_view(),
            final(self).indexed_count_view() == old(self).indexed_count_view(),
            final(self).unarchived_bytes_view() == old(self).unarchived_bytes_view(),
            final(self).archived_count_view() == old(self).archived_count_view(),
    {
        proof {
            use_type_invariant(&*self);
        }
        self.unarchived_count = if count < 0 {
            0
        } else {
            count
        };
    }

    pub fn cached_unarchived_count(&self) -> (r: i64)
        ensures
            r == self.unarchived_count_view(),
            r >= 0,
    {
        proof {
            use_type_invariant(self);
        }
        self.unarchived_count
    }
}

} // verus!
