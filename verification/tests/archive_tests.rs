use screenrecall::archive::{
    archive_ffmpeg_args, archive_window, archiver_sleep_secs, build_concat_list_and_offsets,
    clear_encoder_cache, ffmpeg_failure_message, ffmpeg_unix_paths, find_preset,
    get_archiver_status, group_into_segments, initial_archiver_status, is_ffmpeg_version_output,
    keep_frames_cutoff, known_encoders, parse_encoder_list, probe_outcome, recommend_encoder,
    reset_archiver_status, segment_duration_ms, segment_has_webp, segment_is_archivable,
    stderr_tail, transcode_ffmpeg_args, version_line, where_ffmpeg_candidates, FrameRow,
    PRESET_COUNT,
};

#[test]
fn concat_offsets_are_video_relative_not_wall_clock_timestamps() {
    let segment: Vec<FrameRow> = vec![
        (10, 1_700_000_000_000, "C:\\frames\\one.jpg".to_string()),
        (11, 1_700_000_005_000, "C:\\frames\\two.jpg".to_string()),
        (12, 1_700_000_010_000, "C:\\frames\\three.jpg".to_string()),
    ];

    let (_list, offsets) = build_concat_list_and_offsets(&segment, 10_000);

    assert_eq!(offsets, vec![(10, 0), (11, 1_000), (12, 2_000)]);
}

#[test]
fn concat_list_escapes_single_quotes_and_caps_frame_duration() {
    let segment: Vec<FrameRow> = vec![
        (1, 0, "C:\\frames\\Bob's app.jpg".to_string()),
        (2, 10_000, "C:\\frames\\next.jpg".to_string()),
    ];

    let (list, offsets) = build_concat_list_and_offsets(&segment, 10_000);

    assert!(list.contains("file 'C:\\frames\\Bob'\\''s app.jpg'\n"));
    assert!(list.contains("duration 1.000\n"));
    assert_eq!(offsets, vec![(1, 0), (2, 1_000)]);
}

#[test]
fn concat_list_exact_text_and_rounding() {
    let segment: Vec<FrameRow> = vec![
        (1, 0, "a.jpg".to_string()),
        (2, 1, "b.jpg".to_string()),
        (3, 2, "c.jpg".to_string()),
    ];
    // 1000 ms over 3 frames: 333.33 ms each, rounded to 333.
    let (list, offsets) = build_concat_list_and_offsets(&segment, 1_000);
    assert_eq!(
        list,
        "file 'a.jpg'\nduration 0.333\nfile 'b.jpg'\nduration 0.333\nfile 'c.jpg'\nduration 0.333\n"
    );
    assert_eq!(offsets, vec![(1, 0), (2, 333), (3, 666)]);
    let (empty_list, empty_offsets) = build_concat_list_and_offsets(&Vec::new(), 1_000);
    assert!(empty_list.is_empty());
    assert!(empty_offsets.is_empty());
}

#[test]
fn segments_split_at_segment_length() {
    let frames: Vec<FrameRow> = vec![
        (1, 0, "a".to_string()),
        (2, 500_000, "b".to_string()),
        (3, 900_000, "c".to_string()),
        (4, 1_000_000, "d".to_string()),
        (5, 1_800_000, "e".to_string()),
    ];
    let segs = group_into_segments(&frames, 900);
    let ids: Vec<Vec<i64>> = segs.iter().map(|s| s.iter().map(|f| f.0).collect()).collect();
    assert_eq!(ids, vec![vec![1, 2], vec![3, 4], vec![5]]);
    assert!(group_into_segments(&Vec::new(), 900).is_empty());
}

#[test]
fn segments_never_span_their_length() {
    let frames: Vec<FrameRow> = vec![
        (1, 0, "a".to_string()),
        (2, 5_000, "b".to_string()),
        (3, 9_999, "c".to_string()),
        (4, 10_000, "d".to_string()),
        (5, 25_000, "e".to_string()),
    ];
    let segs = group_into_segments(&frames, 10);
    let ids: Vec<Vec<i64>> = segs.iter().map(|s| s.iter().map(|f| f.0).collect()).collect();
    assert_eq!(ids, vec![vec![1, 2, 3], vec![4], vec![5]]);
    for s in &segs {
        for f in s.iter().skip(1) {
            assert!(f.1 - s[0].1 < 10_000);
        }
    }
}

#[test]
fn segment_duration_has_half_second_floor() {
    assert_eq!(segment_duration_ms(1000, 1200), 500);
    assert_eq!(segment_duration_ms(1000, 61_000), 60_000);
}

#[test]
fn presets_are_known_and_found_by_id() {
    let all = known_encoders();
    assert_eq!(all.len(), PRESET_COUNT);
    let h264 = find_preset("h264").expect("h264 preset");
    assert_eq!(h264.id, "h264");
    assert!(find_preset("no-such-codec").is_none());
}

#[test]
fn encoder_probe_parsing() {
    let text = " V....D libx264              libx264 H.264\n V....D h264_nvenc           NVIDIA NVENC\n A....D aac  AAC\n";
    let list = parse_encoder_list(text);
    assert!(list.contains(&"libx264".to_string()));
    assert!(list.contains(&"h264_nvenc".to_string()));
    assert_eq!(recommend_encoder(&list), "h264_nvenc");
    assert_eq!(recommend_encoder(&vec!["libx264".to_string()]), "h264");
    assert_eq!(
        version_line("ffmpeg version 6.1 Copyright\nbuilt with gcc", ""),
        Some("ffmpeg version 6.1 Copyright".to_string())
    );
    let missing = probe_outcome(None, None);
    assert!(!missing.ffmpeg_found);
    assert_eq!(missing.recommended, "h264");
    let mut cache = Some(missing);
    clear_encoder_cache(&mut cache);
    assert!(cache.is_none());
}

#[test]
fn archiver_status_lifecycle() {
    let mut s = initial_archiver_status();
    s.begin_run(true);
    assert!(s.running && s.enabled);
    s.finish_run(1_000, 50, 10, 2, 0);
    assert!(!s.running);
    assert_eq!(s.total_archived, 10);
    assert_eq!(s.total_segments, 2);
    assert_eq!(s.last_run_ts, Some(1_000));
    s.add_deleted(3);
    assert_eq!(s.total_source_deleted, 3);
    s.fail_run("boom".to_string());
    assert_eq!(s.last_error.as_deref(), Some("boom"));
    s.schedule_next(1_000, 60);
    assert_eq!(s.next_run_ts, Some(61_000));
    let copy = get_archiver_status(&s);
    assert_eq!(copy.total_archived, 10);
    reset_archiver_status(&mut s);
    assert_eq!(s.total_archived, 0);
    assert!(s.last_error.is_none());
    assert_eq!(archiver_sleep_secs(10), 60);
    assert_eq!(archiver_sleep_secs(900), 900);
}

#[test]
fn archive_window_from_last_success_and_lookback() {
    let now = 10_000_000;
    assert_eq!(archive_window(now, Some(5_000_000), 0, 60), (5_000_000, now - 60_000));
    assert_eq!(archive_window(now, Some(5_000_000), 1_000, 60), (9_000_000, now - 60_000));
    assert_eq!(archive_window(now, None, 0, 60), (0, now - 60_000));
    assert_eq!(archive_window(now, None, 10, 60), (now - 60_000, now - 60_000));
    assert_eq!(keep_frames_cutoff(200_000_000, 1), 200_000_000 - 86_400_000);
}

#[test]
fn webp_detection_and_archivable_segments() {
    let seg: Vec<FrameRow> = vec![(1, 0, "a.JPG".to_string()), (2, 1, "b.WebP".to_string())];
    assert!(segment_has_webp(&seg));
    assert!(!segment_has_webp(&vec![(1, 0, "a.jpg".to_string())]));
    assert!(segment_is_archivable(&seg));
    assert!(!segment_is_archivable(&vec![(1, 0, "a.jpg".to_string())]));
}

#[test]
fn ffmpeg_command_lines() {
    let args = archive_ffmpeg_args("list.txt", true, "libx264", "crf", 23, "out.mp4");
    assert_eq!(
        args,
        vec![
            "-y", "-f", "concat", "-safe", "0", "-i", "list.txt", "-vf", "format=yuv420p", "-c:v",
            "libx264", "-preset", "veryfast", "-vsync", "vfr", "-pix_fmt", "yuv420p", "-crf", "23",
            "out.mp4"
        ]
    );
    let plain = archive_ffmpeg_args("l", false, "h264_nvenc", "cq", 0, "o");
    assert_eq!(
        plain,
        vec![
            "-y", "-f", "concat", "-safe", "0", "-i", "l", "-c:v", "h264_nvenc", "-preset",
            "veryfast", "-vsync", "vfr", "-pix_fmt", "yuv420p", "o"
        ]
    );
    let t = transcode_ffmpeg_args("v.mp4", "libx265", "crf", 28, "v.tmp.mp4");
    assert_eq!(
        t,
        vec![
            "-y", "-i", "v.mp4", "-c:v", "libx265", "-preset", "veryfast", "-pix_fmt", "yuv420p",
            "-crf", "28", "-an", "v.tmp.mp4"
        ]
    );
}

#[test]
fn ffmpeg_error_tail_keeps_last_lines() {
    let err = "l1\nl2\nl3\nl4\nl5\nl6\nl7\nl8\nl9\nl10\n";
    assert_eq!(stderr_tail(err, 3), "l8 | l9 | l10");
    assert_eq!(
        ffmpeg_failure_message(err),
        "ffmpeg failed: l3 | l4 | l5 | l6 | l7 | l8 | l9 | l10"
    );
    assert_eq!(stderr_tail("", 8), "");
}

#[test]
fn ffmpeg_detection_helpers() {
    assert!(is_ffmpeg_version_output("", "ffmpeg version 7.0"));
    assert!(!is_ffmpeg_version_output("avconv", ""));
    let found = where_ffmpeg_candidates("  C:\\ff\\bin\\ffmpeg.exe  \r\nINFO: nothing\r\n");
    assert_eq!(found, vec!["C:\\ff\\bin\\ffmpeg.exe".to_string()]);
    assert_eq!(ffmpeg_unix_paths(true), vec!["/opt/homebrew/bin/ffmpeg", "/usr/local/bin/ffmpeg"]);
    assert_eq!(ffmpeg_unix_paths(false).len(), 3);
}
