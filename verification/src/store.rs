//! Rows of the frame index.

use vstd::prelude::*;

verus! {

/// One captured frame.
#[derive(Clone, Debug)]
pub struct Frame {
    pub id: i64,
    /// Capture time, unix ms.
    pub ts: i64,
    pub path: String,
    pub app: Option<String>,
    pub window_title: Option<String>,
    pub monitor_id: i32,
    pub ocr_done: bool,
    pub embed_done: bool,
    /// A stored embedding vector exists for the frame.
    pub has_embedding: bool,
    /// Last time (unix ms) the screen still matched this frame; equals `ts`
    /// if it never did.
    pub static_until_ms: i64,
    /// Archived video segment holding the frame, if archived.
    pub video_path: Option<String>,
    /// Offset of the frame in `video_path`, ms.
    pub video_offset_ms: Option<i64>,
}

} // verus!
