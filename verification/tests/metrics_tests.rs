use screenrecall::capture_perf::{push_capped, CapturePerf, PhaseSamples};
use screenrecall::config::AppConfig;
use screenrecall::llm::{
    build_user_message_at, chat_messages, chat_timeout_message, effective_system_prompt,
    frame_time, retrieval_k, truncate, SYSTEM_PROMPT,
};
use screenrecall::stats::{sort_samples, summarize_ms, StageTimingStats};
use screenrecall::store::Frame;
use screenrecall::worker_activity::{
    worker_queue_snapshot, EmbedActiveGuard, OcrActiveGuard, OneWorkerQueue, WorkerActivity,
};
use std::collections::VecDeque;

#[test]
fn summary_of_samples() {
    let st = summarize_ms(&vec![30, 10, 20, 40]);
    assert_eq!(st.sample_count, 4);
    assert_eq!(st.min_ms, Some(10));
    assert_eq!(st.max_ms, Some(40));
    assert_eq!(st.sum_ms, Some(100));
    assert_eq!(st.p50_ms, Some(25));
    assert_eq!(st.p95_ms, Some(40));
    assert_eq!(summarize_ms(&Vec::new()), StageTimingStats::default());
    let odd = summarize_ms(&vec![5, 1, 3]);
    assert_eq!(odd.p50_ms, Some(3));
    assert_eq!(sort_samples(&vec![3, 1, 2]), vec![1, 2, 3]);
}

#[test]
fn median_never_above_p95_for_even_counts() {
    let two = summarize_ms(&vec![7, 1]);
    assert_eq!(two.p50_ms, Some(4));
    assert_eq!(two.p95_ms, Some(7));
    let six = summarize_ms(&vec![9, 9, 1, 1, 1, 1]);
    assert_eq!(six.p50_ms, Some(1));
    assert_eq!(six.p95_ms, Some(9));
    assert!(six.min_ms <= six.p50_ms && six.p50_ms <= six.p95_ms && six.p95_ms <= six.max_ms);
}

#[test]
fn p95_of_twenty_samples_is_nineteenth() {
    let v: Vec<u64> = (1..=20).collect();
    assert_eq!(summarize_ms(&v).p95_ms, Some(19));
}

#[test]
fn capped_window_drops_oldest() {
    let mut d: VecDeque<u64> = VecDeque::new();
    for i in 0..5 {
        push_capped(&mut d, i, 3);
    }
    assert_eq!(d, VecDeque::from(vec![2, 3, 4]));
}

#[test]
fn phase_samples_summarise_each_phase() {
    let mut p = PhaseSamples::new();
    p.push(1, 2, 3, 4, 5, 15);
    p.push(3, 2, 3, 4, 5, 17);
    let s = p.summarize();
    assert_eq!(s.sample_count, 2);
    assert_eq!(s.capture.max_ms, Some(3));
    assert_eq!(s.total.sum_ms, Some(32));
}

#[test]
fn capture_perf_snapshot_sorted_by_monitor() {
    let mut perf = CapturePerf::new();
    perf.record(2, "Right", 10, 1, 0, 0, 2, 13);
    perf.record(1, "", 20, 1, 0, 0, 2, 23);
    perf.record_saved(1, 20, 1, 0, 5, 2, 28);
    perf.set_last_tick(40, 3);
    let snap = perf.snapshot();
    assert_eq!(snap.last_tick_ms, 40);
    assert_eq!(snap.last_tick_enum_ms, 3);
    let ids: Vec<i32> = snap.by_monitor.iter().map(|m| m.monitor_id).collect();
    assert_eq!(ids, vec![1, 2]);
    assert_eq!(snap.by_monitor[0].monitor_name, "Monitor 1");
    assert_eq!(snap.by_monitor[1].monitor_name, "Right");
    assert_eq!(snap.overall.sample_count, 2);
    assert_eq!(snap.saved_overall.sample_count, 1);
    // Every named monitor is listed among the saved statistics, with empty
    // statistics when nothing was saved for it.
    assert_eq!(snap.saved_by_monitor.len(), 2);
    assert_eq!(snap.saved_by_monitor[0].stats.sample_count, 1);
    assert_eq!(snap.saved_by_monitor[1].stats.sample_count, 0);
}

#[test]
fn worker_activity_guards_and_snapshot() {
    let mut a = WorkerActivity::new();
    let g = OcrActiveGuard::new(&mut a, 42);
    assert_eq!(a.snapshot_ocr().0, Some(42));
    assert!(a.snapshot_ocr().1.is_some());
    g.finish(&mut a);
    assert_eq!(a.snapshot_ocr(), (None, None));
    let e = EmbedActiveGuard::new(&mut a, 7);
    a.record_embed_ms(120);
    a.record_ocr_ms(30);
    let snap = worker_queue_snapshot(&a, 5, 6, 100);
    assert_eq!(snap.embed.active_frame_id, Some(7));
    assert_eq!(snap.ocr.pending_in_db, 5);
    assert_eq!(snap.embed_timing.max_ms, Some(120));
    assert_eq!(snap.frame_total, 100);
    e.finish(&mut a);
    assert_eq!(a.snapshot_embed(), (None, None));
    let q = OneWorkerQueue::from_snapshot(3, (Some(1), Some(9)));
    assert_eq!((q.pending_in_db, q.active_frame_id, q.active_elapsed_ms), (3, Some(1), Some(9)));
    for i in 0..450u64 {
        a.record_ocr_ms(i);
    }
    assert_eq!(a.timing_stats().0.sample_count, 400);
}

fn frame(ts: i64, static_until_ms: i64) -> Frame {
    Frame {
        id: 1,
        ts,
        path: "p".to_string(),
        app: Some("code.exe".to_string()),
        window_title: None,
        monitor_id: 0,
        ocr_done: true,
        embed_done: false,
        has_embedding: false,
        static_until_ms,
        video_path: None,
        video_offset_ms: None,
    }
}

#[test]
fn user_message_layout() {
    let frames = vec![(frame(0, 5_000), Some("hello".to_string())), (frame(0, 0), None)];
    let times = vec!["T1".to_string(), "T2".to_string()];
    let msg = build_user_message_at("what?", &frames, &times);
    assert_eq!(
        msg,
        "Context:\n[1 | T1 · static ~5s | code.exe — ]\nhello\n\n[2 | T2 | code.exe — ]\n(no OCR text)\n\nQuestion: what?"
    );
}

#[test]
fn truncate_respects_utf8_boundaries() {
    assert_eq!(truncate("hello", 10), "hello");
    assert_eq!(truncate("héllo", 2), "h");
    assert_eq!(truncate("héllo", 3), "hé");
    assert_eq!(truncate("héllo", 0), "");
    assert_eq!(truncate("abcdef", 3), "abc");
}

#[test]
fn system_prompt_and_chat_messages() {
    let mut cfg = AppConfig::default_for("/d".to_string());
    assert_eq!(effective_system_prompt(&cfg), SYSTEM_PROMPT);
    cfg.chat_system_prompt = Some("  Be brief.  ".to_string());
    assert_eq!(effective_system_prompt(&cfg), "Be brief.");
    cfg.chat_system_prompt = Some("   ".to_string());
    assert_eq!(effective_system_prompt(&cfg), SYSTEM_PROMPT);
    let msgs = chat_messages(&cfg, "q", &Vec::new());
    assert_eq!(msgs.len(), 2);
    assert_eq!(msgs[0].role, "system");
    assert_eq!(msgs[1].role, "user");
    assert_eq!(msgs[1].content, "Context:\nQuestion: q");
    assert_eq!(retrieval_k(0), 1);
    assert_eq!(retrieval_k(8), 8);
    assert_eq!(
        chat_timeout_message(),
        "Chat timed out after 300s (no complete response from the model)"
    );
    assert!(!frame_time(1_700_000_000_000).is_empty());
}

fn ends_with_offset_field(s: &str) -> bool {
    let c: Vec<char> = s.chars().collect();
    let n = c.len();
    n >= 6
        && (c[n - 6] == '+' || c[n - 6] == '-')
        && c[n - 5].is_ascii_digit()
        && c[n - 4].is_ascii_digit()
        && c[n - 3] == ':'
        && c[n - 2].is_ascii_digit()
        && c[n - 1].is_ascii_digit()
}

#[test]
fn frame_time_shape_in_every_time_zone() {
    assert_eq!(frame_time(i64::MAX), i64::MAX.to_string());
    assert_eq!(frame_time(i64::MIN), i64::MIN.to_string());
    let with_ms = frame_time(1_700_000_000_123);
    assert!(with_ms.len() >= 25);
    assert!(ends_with_offset_field(&with_ms));
    assert_eq!(&with_ms[with_ms.len() - 10..with_ms.len() - 6], ".123");
    let whole = frame_time(1_700_000_000_000);
    assert!(ends_with_offset_field(&whole));
    assert!(whole.as_bytes()[whole.len() - 7].is_ascii_digit());
    assert!(whole.contains('T'));
}

#[test]
fn summary_ignores_sample_order() {
    assert_eq!(summarize_ms(&vec![3, 1, 2, 9]), summarize_ms(&vec![9, 2, 3, 1]));
    assert_eq!(summarize_ms(&vec![5, 5, 7]), summarize_ms(&vec![7, 5, 5]));
}

#[test]
fn overall_stats_aggregate_the_monitors() {
    let mut perf = CapturePerf::new();
    perf.record(1, "A", 10, 1, 0, 4, 2, 17);
    perf.record(1, "A", 30, 1, 0, 4, 2, 37);
    perf.record(2, "B", 5, 1, 0, 4, 2, 12);
    perf.record(2, "B", 50, 1, 0, 4, 2, 57);
    perf.record(2, "B", 20, 1, 0, 4, 2, 27);
    let snap = perf.snapshot();
    let counts: usize = snap.by_monitor.iter().map(|m| m.stats.sample_count).sum();
    assert_eq!(snap.overall.sample_count, counts);
    assert_eq!(snap.overall.sample_count, 5);
    let mins: Vec<u64> = snap.by_monitor.iter().filter_map(|m| m.stats.capture.min_ms).collect();
    let maxs: Vec<u64> = snap.by_monitor.iter().filter_map(|m| m.stats.capture.max_ms).collect();
    assert_eq!(snap.overall.capture.min_ms, mins.iter().copied().min());
    assert_eq!(snap.overall.capture.max_ms, maxs.iter().copied().max());
    assert_eq!(snap.overall.capture.min_ms, Some(5));
    assert_eq!(snap.overall.capture.max_ms, Some(50));
}

#[test]
fn repeated_records_keep_the_newest_window() {
    let mut perf = CapturePerf::new();
    for i in 0..125u64 {
        perf.record(7, "Cam", i, 0, 0, 0, 0, 1000 + i);
    }
    perf.record(8, "Other", 1, 1, 1, 1, 1, 1);
    let snap = perf.snapshot();
    let m = &snap.by_monitor[0];
    assert_eq!(m.monitor_id, 7);
    assert_eq!(m.stats.sample_count, 120);
    assert_eq!(m.stats.capture.min_ms, Some(5));
    assert_eq!(m.stats.capture.max_ms, Some(124));
    assert_eq!(m.stats.total.min_ms, Some(1005));
    assert_eq!(snap.by_monitor[1].stats.sample_count, 1);
}

#[test]
fn record_names_and_saved_records() {
    let mut perf = CapturePerf::new();
    perf.record(1, "Left", 1, 1, 1, 1, 1, 5);
    perf.record_saved(1, 1, 1, 1, 1, 1, 5);
    perf.record_saved(3, 2, 2, 2, 2, 2, 10);
    perf.record(1, "", 1, 1, 1, 1, 1, 5);
    let before = perf.snapshot();
    perf.record(3, "Cam", 9, 9, 9, 9, 9, 45);
    let after = perf.snapshot();
    assert_eq!(after.saved_overall, before.saved_overall);
    assert_eq!(after.last_tick_ms, before.last_tick_ms);
    let names: Vec<(i32, String)> =
        after.saved_by_monitor.iter().map(|m| (m.monitor_id, m.monitor_name.clone())).collect();
    assert_eq!(names, vec![(1, "Left".to_string()), (3, "Cam".to_string())]);
    let before_saved: Vec<(i32, String)> =
        before.saved_by_monitor.iter().map(|m| (m.monitor_id, m.monitor_name.clone())).collect();
    assert_eq!(before_saved, vec![(1, "Left".to_string()), (3, "Monitor 3".to_string())]);
    assert_eq!(after.saved_by_monitor[1].stats.sample_count, 1);
}

#[test]
fn saved_records_leave_all_capture_stats_alone() {
    let mut perf = CapturePerf::new();
    perf.record(2, "Right", 10, 1, 0, 4, 2, 17);
    perf.record(5, "", 30, 1, 0, 4, 2, 37);
    let before = perf.snapshot();
    perf.record_saved(5, 30, 1, 0, 4, 2, 37);
    let after = perf.snapshot();
    assert_eq!(after.overall, before.overall);
    let ids = |s: &screenrecall::capture_perf::CapturePerfSnapshot| -> Vec<(i32, String, usize)> {
        s.by_monitor.iter().map(|m| (m.monitor_id, m.monitor_name.clone(), m.stats.sample_count)).collect()
    };
    assert_eq!(ids(&after), ids(&before));
    let saved: Vec<(i32, String, usize)> = after
        .saved_by_monitor
        .iter()
        .map(|m| (m.monitor_id, m.monitor_name.clone(), m.stats.sample_count))
        .collect();
    assert_eq!(saved, vec![(2, "Right".to_string(), 0), (5, "Monitor 5".to_string(), 1)]);
    assert_eq!(after.saved_overall.total.max_ms, Some(37));
    let saved_sum: usize = after.saved_by_monitor.iter().map(|m| m.stats.sample_count).sum();
    assert_eq!(after.saved_overall.sample_count, saved_sum);
    let all_sum: usize = after.by_monitor.iter().map(|m| m.stats.sample_count).sum();
    assert_eq!(after.overall.sample_count, all_sum);
}
