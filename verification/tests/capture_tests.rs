use screenrecall::capture::{
    dhash_u64, effective_threshold, extend_candidate, hamming, jpeg_quality, needs_downscale,
    noisy_transition, plan_noisy_merges, record_tick, skip_capture_for_session_lock,
    tick_distance, tick_sleep_ms, window_excluded, AdaptiveMonitorInfo, AdaptiveState,
    FingerprintRow, FrameImage, NoisyTransition,
};

#[test]
fn adaptive_state_flags_noisy_camera() {
    let mut s = AdaptiveState::default();
    for _ in 0..15 {
        s.push(true, 5);
    }
    s.evaluate();
    assert!(s.is_noisy);
}

#[test]
fn adaptive_state_not_flagged_with_low_save_rate() {
    let mut s = AdaptiveState::default();
    for _ in 0..10 {
        s.push(true, 5);
        s.push(false, 0);
    }
    s.evaluate();
    assert!(!s.is_noisy);
}

#[test]
fn adaptive_state_not_flagged_when_real_change_occurs() {
    let mut s = AdaptiveState::default();
    for _ in 0..14 {
        s.push(true, 5);
    }
    s.push(true, 14); // real scene change
    s.evaluate();
    assert!(!s.is_noisy);
}

#[test]
fn adaptive_state_clears_on_real_change() {
    let mut s = AdaptiveState::default();
    for _ in 0..15 {
        s.push(true, 5);
    }
    s.evaluate();
    assert!(s.is_noisy);

    s.push(true, 14);
    s.evaluate();
    assert!(!s.is_noisy);
}

#[test]
fn adaptive_window_keeps_last_twenty_ticks() {
    let mut s = AdaptiveState::default();
    for i in 0..25u32 {
        s.push(true, i);
    }
    assert_eq!(s.ticks.len(), 20);
    assert_eq!(s.ticks.front().copied(), Some(Some(5)));
    assert_eq!(s.ticks.back().copied(), Some(Some(24)));
}

#[test]
fn adaptive_state_needs_fifteen_ticks() {
    let mut s = AdaptiveState::default();
    for _ in 0..14 {
        s.push(true, 1);
    }
    s.evaluate();
    assert!(!s.is_noisy);
}

#[test]
fn distance_twelve_still_counts_as_noise() {
    let mut s = AdaptiveState::default();
    for _ in 0..15 {
        s.push(true, 12);
    }
    s.evaluate();
    assert!(s.is_noisy);
}

#[test]
fn hamming_counts_differing_bits() {
    assert_eq!(hamming(0, 0), 0);
    assert_eq!(hamming(0b1011, 0b0001), 2);
    assert_eq!(hamming(u64::MAX, 0), 64);
    assert_eq!(hamming(0x0f0f, 0xf0f0), hamming(0xf0f0, 0x0f0f));
}

fn solid(width: u32, height: u32, rgba: [u8; 4]) -> FrameImage {
    let mut px = Vec::new();
    for _ in 0..(width * height) {
        px.extend_from_slice(&rgba);
    }
    FrameImage { width, height, rgba: px }
}

#[test]
fn dhash_of_flat_image_is_zero() {
    let img = solid(32, 16, [120, 120, 120, 255]);
    assert_eq!(dhash_u64(&img), 0);
}

#[test]
fn dhash_sees_left_to_right_darkening() {
    // 9 columns, brightness falling to the right: every comparison is "brighter than right".
    let width = 9u32;
    let height = 8u32;
    let mut px = Vec::new();
    for _y in 0..height {
        for x in 0..width {
            let v = 250 - (x as u8) * 20;
            px.extend_from_slice(&[v, v, v, 255]);
        }
    }
    let img = FrameImage { width, height, rgba: px };
    assert_eq!(dhash_u64(&img), u64::MAX);
}

#[test]
fn effective_threshold_uses_noisy_threshold_only_when_adaptive() {
    assert_eq!(effective_threshold(true, 3, true, 8), 8);
    assert_eq!(effective_threshold(false, 3, true, 8), 3);
    assert_eq!(effective_threshold(true, 0, true, 8), 0);
    assert_eq!(effective_threshold(true, 3, false, 8), 3);
}

#[test]
fn tick_distance_and_extend_decision() {
    assert_eq!(tick_distance(None, 0xff), 0);
    assert_eq!(tick_distance(Some((7, 0b1111)), 0b0011), 2);
    assert_eq!(extend_candidate(Some((7, 0)), 3, 2, 3), Some(7));
    assert_eq!(extend_candidate(Some((7, 0)), 3, 4, 3), None);
    assert_eq!(extend_candidate(Some((7, 0)), 3, 3, 3), None);
    assert_eq!(extend_candidate(Some((7, 0)), 0, 0, 3), None);
    assert_eq!(extend_candidate(None, 3, 0, 3), None);
}

#[test]
fn twenty_small_saves_flag_any_monitor() {
    let mut s = AdaptiveState::default();
    s.push(true, 20);
    for _ in 0..5 {
        s.push(false, 0);
    }
    for i in 0..20u32 {
        record_tick(&mut s, true, 3 + i % 9, true, 3);
    }
    assert_eq!(s.ticks.len(), 20);
    assert!(s.is_noisy);
}

#[test]
fn unchanged_frame_extends_last_kept_frame() {
    let h: u64 = 0xdead_beef_0123_4567;
    let d = tick_distance(Some((11, h)), h);
    assert_eq!(d, 0);
    assert_eq!(extend_candidate(Some((11, h)), 1, d, 1), Some(11));
    assert_eq!(extend_candidate(Some((11, h)), 3, d, 8), Some(11));
}

#[test]
fn record_tick_evaluates_only_when_adaptive() {
    let mut s = AdaptiveState::default();
    for _ in 0..15 {
        record_tick(&mut s, true, 4, false, 3);
    }
    assert!(!s.is_noisy);
    record_tick(&mut s, true, 4, true, 3);
    assert!(s.is_noisy);
}

#[test]
fn noisy_transitions() {
    assert_eq!(noisy_transition(false, true), NoisyTransition::BecameNoisy);
    assert_eq!(noisy_transition(true, false), NoisyTransition::Cleared);
    assert_eq!(noisy_transition(true, true), NoisyTransition::Unchanged);
}

#[test]
fn monitor_info_reflects_window() {
    let mut s = AdaptiveState::default();
    s.push(true, 3);
    s.push(false, 0);
    s.push(true, 9);
    let mut info = AdaptiveMonitorInfo::default();
    info.add_merged(4);
    info.update_from(&s);
    assert_eq!(info.tick_count, 3);
    assert_eq!(info.saved_tick_count, 2);
    assert_eq!(info.last_distance, 9);
    assert_eq!(info.merged_frames_count, 4);
}

fn row(id: i64, ts: i64, phash: u64) -> FingerprintRow {
    FingerprintRow { id, ts, path: format!("f{}.jpg", id), phash }
}

#[test]
fn noisy_merge_groups_runs_of_similar_frames() {
    let frames = vec![
        row(1, 100, 0b0000),
        row(2, 200, 0b0001),
        row(3, 300, 0b0011),
        row(4, 400, 0xffff_0000),
        row(5, 500, 0xffff_0001),
    ];
    let plan = plan_noisy_merges(&frames, 1);
    assert_eq!(plan.len(), 2);
    assert_eq!(plan[0].keeper_id, 1);
    assert_eq!(plan[0].delete_ids, vec![2, 3]);
    assert_eq!(plan[0].delete_paths, vec!["f2.jpg".to_string(), "f3.jpg".to_string()]);
    assert_eq!(plan[0].last_ts, 300);
    assert_eq!(plan[1].keeper_id, 4);
    assert_eq!(plan[1].delete_ids, vec![5]);
    assert_eq!(plan[1].last_ts, 500);
}

#[test]
fn noisy_merge_never_deletes_a_keeper() {
    let frames = vec![
        row(10, 100, 0),
        row(11, 200, 1),
        row(12, 300, 0xff00),
        row(13, 400, 0xff00),
        row(14, 500, 0xff01),
        row(15, 600, u64::MAX),
    ];
    let plan = plan_noisy_merges(&frames, 1);
    let keepers: Vec<i64> = plan.iter().map(|g| g.keeper_id).collect();
    let deleted: Vec<i64> = plan.iter().flat_map(|g| g.delete_ids.clone()).collect();
    assert_eq!(keepers, vec![10, 12]);
    assert_eq!(deleted, vec![11, 13, 14]);
    for k in &keepers {
        assert!(!deleted.contains(k));
    }
    let mut unique = deleted.clone();
    unique.dedup();
    assert_eq!(unique, deleted);
}

#[test]
fn noisy_merge_needs_two_frames() {
    let plan = plan_noisy_merges(&vec![row(1, 1, 0)], 8);
    assert!(plan.is_empty());
}

#[test]
fn exclusion_by_process_and_title() {
    let procs = vec!["KeePass.exe".to_string()];
    let subs = vec!["Incognito".to_string(), "Private Browsing".to_string()];
    assert!(window_excluded(&procs, &subs, "keepass.EXE", "Vault"));
    assert!(window_excluded(&procs, &subs, "chrome.exe", "New tab - INCOGNITO"));
    assert!(!window_excluded(&procs, &subs, "chrome.exe", "Inbox"));
    // Unicode lower-casing of the title applies, not only ASCII.
    let subs2 = vec!["ÉCOLE".to_string()];
    assert!(window_excluded(&Vec::new(), &subs2, "x", "mon école"));
}

#[test]
fn capture_settings_helpers() {
    assert!(skip_capture_for_session_lock(true, true));
    assert!(!skip_capture_for_session_lock(false, true));
    assert_eq!(jpeg_quality(0), 1);
    assert_eq!(jpeg_quality(150), 100);
    assert_eq!(jpeg_quality(85), 85);
    assert!(needs_downscale(3840, 2160, 1920));
    assert!(!needs_downscale(1920, 1080, 1920));
    assert!(!needs_downscale(3840, 2160, 0));
    assert_eq!(tick_sleep_ms(3, 1200), 1800);
    assert_eq!(tick_sleep_ms(0, 200), 800);
    assert_eq!(tick_sleep_ms(3, 5000), 50);
}
