//! Which frame each indexer is processing, and the recent per-frame timings
//! of each indexer stage.

use crate::capture_perf::{capped_push, deque_to_vec, push_capped};
use crate::stats::{StageTimingStats, summarize_ms, summary_spec};
use std::collections::VecDeque;
use std::time::Instant;
use vstd::prelude::*;

verus! {

/// Completed per-frame timings kept per stage.
pub const TIMING_WINDOW: usize = 400;

#[verifier::external_type_specification]
#[verifier::external_body]
pub struct ExInstant(Instant);

/// The current instant (std's `Instant::now`); nothing is stated of it.
#[verifier::external_body]
fn instant_now() -> Instant {
    Instant::now()
}

/// Whole milliseconds elapsed since `t` (std's `Instant::elapsed`,
/// truncated to `u64`); nothing is stated of the value, which depends on the
/// clock.
#[verifier::external_body]
fn elapsed_ms(t: &Instant) -> u64 {
    t.elapsed().as_millis() as u64
}

/// Frame being processed by the OCR and embedding workers, with the instant
/// each job started, and the recent completion timings of each stage.
pub struct WorkerActivity {
    pub ocr: Option<(i64, Instant)>,
    pub embed: Option<(i64, Instant)>,
    pub ocr_durations: VecDeque<u64>,
    pub embed_durations: VecDeque<u64>,
}

/// The frame id of an activity slot.
pub open spec fn active_id(slot: Option<(i64, Instant)>) -> Option<i64> {
    match slot {
        Some((id, _)) => Some(id),
        None => None,
    }
}

impl WorkerActivity {
    /// Idle workers, no timings.
    pub fn new() -> (a: Self)
        ensures
            active_id(a.ocr) == None::<i64>,
            active_id(a.embed) == None::<i64>,
            a.ocr_durations@ == Seq::<u64>::empty(),
            a.embed_durations@ == Seq::<u64>::empty(),
    {
        WorkerActivity {
            ocr: None,
            embed: None,
            ocr_durations: VecDeque::new(),
            embed_durations: VecDeque::new(),
        }
    }

    /// Marks the OCR worker as processing frame `id` from now, or idle.
    pub fn set_ocr_active(&mut self, id: Option<i64>)
        ensures
            active_id(final(self).ocr) == id,
            final(self).embed == old(self).embed,
            final(self).ocr_durations@ == old(self).ocr_durations@,
            final(self).embed_durations@ == old(self).embed_durations@,
    {
        self.ocr = match id {
            Some(i) => Some((i, instant_now())),
            None => None,
        };
    }

    /// Marks the embedding worker as processing frame `id` from now, or idle.
    pub fn set_embed_active(&mut self, id: Option<i64>)
        ensures
            active_id(final(self).embed) == id,
            final(self).ocr == old(self).ocr,
            final(self).ocr_durations@ == old(self).ocr_durations@,
            final(self).embed_durations@ == old(self).embed_durations@,
    {
        self.embed = match id {
            Some(i) => Some((i, instant_now())),
            None => None,
        };
    }

    /// The frame the OCR worker is processing and how long it has been
    /// running (ms), or `(None, None)` when idle.
    pub fn snapshot_ocr(&self) -> (r: (Option<i64>, Option<u64>))
        ensures
            r.0 == active_id(self.ocr),
            r.1 is Some <==> r.0 is Some,
    {
        match &self.ocr {
            None => (None, None),
            Some((id, t)) => (Some(*id), Some(elapsed_ms(t))),
        }
    }

    /// The frame the embedding worker is processing and how long it has
    /// been running (ms), or `(None, None)` when idle.
    pub fn snapshot_embed(&self) -> (r: (Option<i64>, Option<u64>))
        ensures
            r.0 == active_id(self.embed),
            r.1 is Some <==> r.0 is Some,
    {
        match &self.embed {
            None => (None, None),
            Some((id, t)) => (Some(*id), Some(elapsed_ms(t))),
        }
    }

    /// Records the duration of a finished OCR job.
    pub fn record_ocr_ms(&mut self, ms: u64)
        ensures
            final(self).ocr_durations@ == capped_push(
                old(self).ocr_durations@,
                ms,
                TIMING_WINDOW as nat,
            ),
            final(self).embed_durations@ == old(self).embed_durations@,
            final(self).ocr == old(self).ocr,
            final(self).embed == old(self).embed,
    {
        push_capped(&mut self.ocr_durations, ms, TIMING_WINDOW);
    }

    /// Records the duration of a finished embedding job.
    pub fn record_embed_ms(&mut self, ms: u64)
        ensures
            final(self).embed_durations@ == capped_push(
                old(self).embed_durations@,
                ms,
                TIMING_WINDOW as nat,
            ),
            final(self).ocr_durations@ == old(self).ocr_durations@,
            final(self).ocr == old(self).ocr,
            final(self).embed == old(self).embed,
    {
        push_capped(&mut self.embed_durations, ms, TIMING_WINDOW);
    }

    /// Statistics of the recent OCR and embedding timings.
    pub fn timing_stats(&self) -> (r: (StageTimingStats, StageTimingStats))
        ensures
            r.0 == summary_spec(self.ocr_durations@),
            r.1 == summary_spec(self.embed_durations@),
    {
        (summarize_ms(&deque_to_vec(&self.ocr_durations)), summarize_ms(&deque_to_vec(&self.embed_durations)))
    }
}

/// Marks the OCR worker busy with a frame until `finish` is called.
pub struct OcrActiveGuard {
    pub frame_id: i64,
}

impl OcrActiveGuard {
    /// Marks the OCR worker as processing `id`.
    pub fn new(activity: &mut WorkerActivity, id: i64) -> (g: Self)
        ensures
            g.frame_id == id,
            active_id(final(activity).ocr) == Some(id),
            final(activity).embed == old(activity).embed,
            final(activity).ocr_durations@ == old(activity).ocr_durations@,
            final(activity).embed_durations@ == old(activity).embed_durations@,
    {
        activity.set_ocr_active(Some(id));
        OcrActiveGuard { frame_id: id }
    }

    /// Marks the OCR worker idle again.
    pub fn finish(self, activity: &mut WorkerActivity)
        ensures
            active_id(final(activity).ocr) == None::<i64>,
            final(activity).embed == old(activity).embed,
            final(activity).ocr_durations@ == old(activity).ocr_durations@,
            final(activity).embed_durations@ == old(activity).embed_durations@,
    {
        activity.set_ocr_active(None);
    }
}

/// Marks the embedding worker busy with a frame until `finish` is called.
pub struct EmbedActiveGuard {
    pub frame_id: i64,
}

impl EmbedActiveGuard {
    /// Marks the embedding worker as processing `id`.
    pub fn new(activity: &mut WorkerActivity, id: i64) -> (g: Self)
        ensures
            g.frame_id == id,
            active_id(final(activity).embed) == Some(id),
            final(activity).ocr == old(activity).ocr,
            final(activity).ocr_durations@ == old(activity).ocr_durations@,
            final(activity).embed_durations@ == old(activity).embed_durations@,
    {
        activity.set_embed_active(Some(id));
        EmbedActiveGuard { frame_id: id }
    }

    /// Marks the embedding worker idle again.
    pub fn finish(self, activity: &mut WorkerActivity)
        ensures
            active_id(final(activity).embed) == None::<i64>,
            final(activity).ocr == old(activity).ocr,
            final(activity).ocr_durations@ == old(activity).ocr_durations@,
            final(activity).embed_durations@ == old(activity).embed_durations@,
    {
        activity.set_embed_active(None);
    }
}

/// Work waiting for one indexer stage and the job it is running.
#[derive(Clone, Debug)]
pub struct OneWorkerQueue {
    /// Frames in the database waiting for this stage.
    pub pending_in_db: i64,
    /// Frame id being processed, if any.
    pub active_frame_id: Option<i64>,
    /// How long the current job has been running (ms), if active.
    pub active_elapsed_ms: Option<u64>,
}

impl OneWorkerQueue {
    /// Combines a database backlog count with a worker snapshot.
    pub fn from_snapshot(pending_in_db: i64, snapshot: (Option<i64>, Option<u64>)) -> (q: Self)
        ensures
            q.pending_in_db == pending_in_db,
            q.active_frame_id == snapshot.0,
            q.active_elapsed_ms == snapshot.1,
    {
        OneWorkerQueue {
            pending_in_db,
            active_frame_id: snapshot.0,
            active_elapsed_ms: snapshot.1,
        }
    }
}

/// The indexer status shown in Diagnostics: both queues, recent timings and
/// the number of frames.
#[derive(Clone, Debug)]
pub struct WorkerQueuesSnapshot {
    pub ocr: OneWorkerQueue,
    pub embed: OneWorkerQueue,
    pub ocr_timing: StageTimingStats,
    pub embed_timing: StageTimingStats,
    pub frame_total: i64,
}

/// The indexer status from the database backlogs and frame total and the
/// workers' activity.
pub fn worker_queue_snapshot(
    activity: &WorkerActivity,
    ocr_pending: i64,
    embed_pending: i64,
    frame_total: i64,
) -> (r: WorkerQueuesSnapshot)
    ensures
        r.ocr.pending_in_db == ocr_pending,
        r.ocr.active_frame_id == active_id(activity.ocr),
        r.ocr.active_elapsed_ms is Some <==> r.ocr.active_frame_id is Some,
        r.embed.pending_in_db == embed_pending,
        r.embed.active_frame_id == active_id(activity.embed),
        r.embed.active_elapsed_ms is Some <==> r.embed.active_frame_id is Some,
        r.ocr_timing == summary_spec(activity.ocr_durations@),
        r.embed_timing == summary_spec(activity.embed_durations@),
        r.frame_total == frame_total,
{
    let (ocr_timing, embed_timing) = activity.timing_stats();
    WorkerQueuesSnapshot {
        ocr: OneWorkerQueue::from_snapshot(ocr_pending, activity.snapshot_ocr()),
        embed: OneWorkerQueue::from_snapshot(embed_pending, activity.snapshot_embed()),
        ocr_timing,
        embed_timing,
        frame_total,
    }
}

} // verus!
