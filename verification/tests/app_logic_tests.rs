use screenrecall::commands::{
    already_running_error, blocks_setup, connection_result, connection_test_url,
    dependency_report, embed_test_success, exited_immediately_error, idle_managed_status,
    log_stream_suffix, managed_command, managed_log_file_name, model_base_name,
    model_dependency, model_is_pulled, normalize_managed_kind, ollama_endpoint_dependency,
    openai_backend_dependency, start_both_plan, startup_disable_outcome,
    startup_enable_outcome, startup_reg_args, startup_unsupported_status, stopped_managed_status,
    tail_chars, tail_limit, tail_lines, tail_read_start, tesseract_dependency, trim_base_url,
    DependencyStatus,
};
use screenrecall::config::{
    apply_legacy_migrations, config_from_file, AppConfig, CaptureImageFormat, LlmBackend,
};
use screenrecall::ocr::{build_engine, ocr_stored_text, TesseractEngine};
use screenrecall::paths::{
    frame_rel_path, frame_rel_path_at, utc_fields, video_rel_path, UtcParts,
};
use screenrecall::runtime::{
    autostart_plan, disk_check, tray_action, DiskAction, DiskMonitor, TrayAction,
};
use screenrecall::shell::{
    log_keep_from, normalize_model_args, plan_shell_command, split_command_line,
    strip_weird_wrap_quotes, ShellCommandError,
};
use screenrecall::state::{ManagedLlamaLast, StatsCache};
use screenrecall::util::{
    accept_friendly_name, display_config_entries, friendly_monitor_name, probe_known_path,
    tesseract_candidates, tesseract_known_paths, utf16_to_string,
};
use screenrecall::config::OcrEngineKind;

fn strings(v: &[&str]) -> Vec<String> {
    v.iter().map(|s| s.to_string()).collect()
}

#[test]
fn command_line_splitting() {
    assert_eq!(
        split_command_line("llama-server -m \"C:/models/my model.gguf\" --port 8080", false),
        strings(&["llama-server", "-m", "C:/models/my model.gguf", "--port", "8080"])
    );
    assert_eq!(split_command_line("a\\ b 'c d' \"e'f\"", false), strings(&["a b", "c d", "e'f"]));
    assert_eq!(
        split_command_line("C:\\llama\\server.exe -m C:\\m.gguf", true),
        strings(&["C:\\llama\\server.exe", "-m", "C:\\m.gguf"])
    );
    assert_eq!(split_command_line("   \t ", false), Vec::<String>::new());
    assert_eq!(split_command_line("x \"\" y", false), strings(&["x", "y"]));
}

#[test]
fn wrap_quotes_are_stripped_repeatedly() {
    assert_eq!(strip_weird_wrap_quotes("  \"'C:\\m.gguf'\"  ".to_string()), "C:\\m.gguf");
    assert_eq!(strip_weird_wrap_quotes("\"a\"b\"".to_string()), "a\"b");
    assert_eq!(strip_weird_wrap_quotes("\"".to_string()), "\"");
    assert_eq!(strip_weird_wrap_quotes("'mixed\"".to_string()), "'mixed\"");
}

#[test]
fn model_arguments_are_cleaned() {
    let parts = strings(&["srv", "-m", "'x.gguf'", "--model='y.gguf'", "--model", " \"z\" ", "-m"]);
    assert_eq!(
        normalize_model_args(parts),
        strings(&["srv", "-m", "x.gguf", "--model=y.gguf", "--model", "z", "-m"])
    );
}

#[test]
fn shell_command_plan() {
    let plan = plan_shell_command("srv -m \"a b.gguf\"", Some("  /work  "), false).unwrap();
    assert_eq!(plan.exe, "srv");
    assert_eq!(plan.args, strings(&["-m", "a b.gguf"]));
    assert_eq!(plan.cwd, Some("/work".to_string()));
    let no_cwd = plan_shell_command("srv", Some("   "), false).unwrap();
    assert_eq!(no_cwd.cwd, None);
    assert_eq!(
        plan_shell_command("  ", None, false).unwrap_err(),
        ShellCommandError::EmptyCommand
    );
    assert_eq!(log_keep_from(100, 200), None);
    assert_eq!(log_keep_from(300, 200), Some(100));
}

#[test]
fn stats_cache_clamps_counts() {
    let mut c = StatsCache::new();
    assert_eq!(c.cached_counts(), (0, 0));
    c.set_cached_counts(-5, 7);
    assert_eq!(c.cached_counts(), (0, 7));
    c.set_cached_archived_count(-1);
    assert_eq!(c.cached_archived_count(), 0);
    c.set_cached_unarchived_count(12);
    assert_eq!(c.cached_unarchived_count(), 12);
    c.set_cached_disk_bytes(99);
    assert_eq!(c.cached_disk_bytes(), 99);
    c.set_cached_unarchived_bytes(5);
    assert_eq!(c.cached_unarchived_bytes(), 5);
    let last = ManagedLlamaLast::default();
    assert!(last.exit_code.is_none() && last.stderr_tail.is_none());
}

#[test]
fn managed_kind_normalisation() {
    assert_eq!(normalize_managed_kind(" Chat "), Ok("chat"));
    assert_eq!(normalize_managed_kind("EMBEDDINGS"), Ok("embed"));
    assert_eq!(normalize_managed_kind("embed"), Ok("embed"));
    assert_eq!(
        normalize_managed_kind("vision"),
        Err("kind must be 'chat' or 'embed'".to_string())
    );
}

#[test]
fn url_and_tail_helpers() {
    assert_eq!(trim_base_url("  http://x:1/v1///  "), "http://x:1/v1");
    assert_eq!(tail_chars("abcdef", 3), "def");
    assert_eq!(tail_chars("ab", 3), "ab");
    assert_eq!(log_stream_suffix(Some(" STDOUT ")), "stdout");
    assert_eq!(log_stream_suffix(Some("other")), "stderr");
    assert_eq!(log_stream_suffix(None), "stderr");
    assert_eq!(tail_limit(None), 200);
    assert_eq!(tail_limit(Some(0)), 1);
    assert_eq!(tail_limit(Some(5000)), 2000);
    assert_eq!(managed_log_file_name("chat", "stderr"), "chat.stderr.log");
    assert_eq!(tail_read_start(1000, 100), 900);
    assert_eq!(tail_read_start(50, 100), 0);
    assert_eq!(tail_read_start(50, 0), 49);
    assert_eq!(tail_lines("partial\nl1\r\nl2\nl3\n", true, 2), strings(&["l2", "l3"]));
    assert_eq!(tail_lines("a\nb", false, 10), strings(&["a", "b"]));
}

fn row(key: &str, status: &str) -> DependencyStatus {
    DependencyStatus {
        key: key.to_string(),
        label: "L".to_string(),
        status: status.to_string(),
        detail: String::new(),
    }
}

#[test]
fn setup_gate_ignores_model_rows() {
    assert!(!blocks_setup(&row("chat_model", "optional")));
    assert!(blocks_setup(&row("tesseract", "missing")));
    assert!(dependency_report(vec![row("tesseract", "ok"), row("embed_model", "optional")]).ok);
    assert!(!dependency_report(vec![row("ollama", "missing")]).ok);
    assert!(dependency_report(Vec::new()).ok);
}

#[test]
fn model_presence_ignores_tags() {
    let names = strings(&["llama3.2:latest", "nomic-embed-text:v1.5"]);
    assert_eq!(model_base_name("llama3.2:latest"), "llama3.2");
    assert_eq!(model_base_name("plain"), "plain");
    assert!(model_is_pulled(&names, "llama3.2"));
    assert!(model_is_pulled(&names, "llama3.2:8b"));
    assert!(!model_is_pulled(&names, "mistral"));
    let ok = model_dependency("chat_model", "Chat model (Ollama)", "llama3.2", &names);
    assert_eq!(ok.status, "ok");
    assert_eq!(ok.detail, "llama3.2 is pulled in Ollama");
    let missing = model_dependency("embed_model", "Embedding model (Ollama)", "bge", &names);
    assert_eq!(missing.status, "optional");
    assert_eq!(
        missing.detail,
        "Not found as \"bge\" — pull it or change model name in Settings (e.g. llama3.3)"
    );
}

#[test]
fn dependency_rows() {
    let t = tesseract_dependency(Some(("/usr/bin/tesseract", "tesseract 5.3.0\n leptonica")));
    assert_eq!(t.status, "ok");
    assert_eq!(t.detail, "tesseract 5.3.0 (/usr/bin/tesseract)");
    let t2 = tesseract_dependency(Some(("tesseract", "")));
    assert_eq!(t2.detail, "tesseract found at tesseract");
    let m = tesseract_dependency(None);
    assert_eq!((m.status.as_str(), m.detail.as_str()), ("missing", "program not found"));
    let o = ollama_endpoint_dependency("http://localhost:11434", None);
    assert_eq!(o.detail, "reachable at http://localhost:11434");
    let o2 = ollama_endpoint_dependency("u", Some("refused"));
    assert_eq!((o2.status.as_str(), o2.detail.as_str()), ("missing", "refused"));
    let b = openai_backend_dependency("http://c/v1/", &Some(" http://e/v1/ ".to_string()));
    assert_eq!(
        b.detail,
        "OpenAI-compatible — chat http://c/v1, embeddings http://e/v1 (Ollama not required for chat)"
    );
    let b2 = openai_backend_dependency("http://c/v1", &None);
    assert_eq!(
        b2.detail,
        "OpenAI-compatible — chat/embed use http://c/v1 (separate embed URL in Settings, or Ollama fallback for embeds)"
    );
}

#[test]
fn connection_test_messages() {
    assert_eq!(
        connection_test_url(" http://o:1/ ", "/api/tags", "Ollama URL is empty").unwrap(),
        "http://o:1/api/tags"
    );
    let empty = connection_test_url("  ", "/models", "Base URL is empty").unwrap_err();
    assert!(!empty.ok);
    assert_eq!(empty.detail, "Base URL is empty");
    let ok = connection_result("GET", "http://o/api/tags", "200 OK", true, "ignored");
    assert!(ok.ok);
    assert_eq!(ok.detail, "GET http://o/api/tags → 200 OK");
    let body = "x".repeat(300);
    let bad = connection_result("GET", "u", "404 Not Found", false, &body);
    assert_eq!(bad.detail, format!("GET u → 404 Not Found: {}", "x".repeat(200)));
    assert_eq!(embed_test_success("u", Some(768)).detail, "POST u → 200, embedding dim 768");
    assert_eq!(
        embed_test_success("u", Some(0)).detail,
        "POST u → 200 (body did not look like OpenAI embeddings JSON)"
    );
}

#[test]
fn managed_server_texts() {
    let last = ManagedLlamaLast { exit_code: Some(1), stderr_tail: Some("boom".to_string()) };
    let idle = idle_managed_status("chat", &last);
    assert!(!idle.running);
    assert_eq!(idle.last_exit_code, Some(1));
    assert_eq!(idle.last_stderr_tail.as_deref(), Some("boom"));
    let stopped = stopped_managed_status("embed");
    assert_eq!(stopped.kind, "embed");
    assert!(stopped.last_exit_code.is_none());
    let plan = start_both_plan(&Some("srv".to_string()), &Some("  ".to_string()));
    assert_eq!(plan.started, strings(&["chat"]));
    assert_eq!(plan.skipped, strings(&["embed"]));
    assert_eq!(managed_command("  srv -m x  "), Ok("srv -m x".to_string()));
    assert_eq!(managed_command("  "), Err("Command is empty".to_string()));
    assert_eq!(
        already_running_error("chat", Some(42)),
        "Managed chat server is already running (pid Some(42))"
    );
    assert_eq!(
        exited_immediately_error("embed", Some(-1), &None),
        "Managed embed server exited immediately (code Some(-1)). process exited immediately (no stderr captured)"
    );
    assert_eq!(
        exited_immediately_error("chat", None, &Some("bad model".to_string())),
        "Managed chat server exited immediately (code None). bad model"
    );
}

#[test]
fn launch_on_startup_decisions() {
    assert_eq!(
        startup_reg_args(true, "C:\\app.exe"),
        strings(&[
            "add",
            "HKCU\\Software\\Microsoft\\Windows\\CurrentVersion\\Run",
            "/v",
            "ScreenRecall",
            "/t",
            "REG_SZ",
            "/d",
            "\"C:\\app.exe\"",
            "/f"
        ])
    );
    assert_eq!(startup_reg_args(false, "x").len(), 5);
    let on = startup_enable_outcome("C:\\app.exe", true, "").unwrap();
    assert!(on.enabled);
    assert_eq!(on.detail, "Enabled from C:\\app.exe");
    assert_eq!(startup_enable_outcome("x", false, "denied").unwrap_err(), "denied");
    let off = startup_disable_outcome(false, "", "ERROR: Unable to find the value").unwrap();
    assert!(!off.enabled);
    assert_eq!(off.detail, "Disabled");
    assert_eq!(startup_disable_outcome(false, "out", "  ").unwrap_err(), "out");
    assert_eq!(startup_disable_outcome(false, "out", "err").unwrap_err(), "err");
    assert!(!startup_unsupported_status().enabled);
}

#[test]
fn config_migrations() {
    let mut c = AppConfig::default_for("/d".to_string());
    c.archive_enabled = false;
    c.archive_interval_secs = 900;
    apply_legacy_migrations(&mut c, "{\"archive_delete_source\": true}");
    assert!(c.archive_enabled);
    assert_eq!(c.archive_keep_frames_days, 1);
    let mut c2 = AppConfig::default_for("/d".to_string());
    c2.archive_enabled = false;
    apply_legacy_migrations(&mut c2, "{\"archive_enabled\": false, \"archive_delete_source\": false}");
    assert!(!c2.archive_enabled);
    assert_eq!(c2.archive_keep_frames_days, 0);
    let d = config_from_file(None, "", "/home/u/.screenrecall".to_string());
    assert_eq!(d.data_dir, "/home/u/.screenrecall");
    assert_eq!(d.capture_interval_secs, 3);
    assert_eq!(d.capture_dedupe_threshold, 3);
}

#[test]
fn paths_from_utc_time() {
    // 2023-11-14T22:13:20.123Z
    let p = utc_fields(1_700_000_000_123).unwrap();
    assert_eq!((p.year, p.month, p.day, p.hour, p.minute, p.second, p.millis), (2023, 11, 14, 22, 13, 20, 123));
    assert_eq!(
        frame_rel_path(1_700_000_000_123, 2, CaptureImageFormat::Webp).unwrap(),
        "2023/11/14/221320123_m2.webp"
    );
    assert_eq!(
        video_rel_path(1_700_000_000_123, -1).unwrap(),
        "2023/11/14/221320_m-1.mp4"
    );
    let early = UtcParts { year: 7, month: 1, day: 2, hour: 3, minute: 4, second: 5, millis: 6 };
    assert_eq!(frame_rel_path_at(early, 0, CaptureImageFormat::Jpeg), "0007/01/02/030405006_m0.jpg");
    assert!(utc_fields(i64::MAX).is_none());
}

fn ymd_hms(ms: i64) -> (i32, u32, u32, u32, u32, u32, u32) {
    let p = utc_fields(ms).unwrap();
    (p.year, p.month, p.day, p.hour, p.minute, p.second, p.millis)
}

#[test]
fn utc_dates_follow_the_gregorian_calendar() {
    assert_eq!(ymd_hms(0), (1970, 1, 1, 0, 0, 0, 0));
    assert_eq!(ymd_hms(951_782_400_000), (2000, 2, 29, 0, 0, 0, 0));
    assert_eq!(ymd_hms(1_709_164_800_000), (2024, 2, 29, 0, 0, 0, 0));
    assert_eq!(ymd_hms(-1), (1969, 12, 31, 23, 59, 59, 999));
    assert_eq!(ymd_hms(253_402_300_799_999), (9999, 12, 31, 23, 59, 59, 999));
    assert_eq!(ymd_hms(-62_135_596_800_000), (1, 1, 1, 0, 0, 0, 0));
    assert_eq!(ymd_hms(-62_167_219_200_000), (0, 1, 1, 0, 0, 0, 0));
    assert_eq!(
        frame_rel_path(951_782_400_001, 1, CaptureImageFormat::Jpeg).unwrap(),
        "2000/02/29/000000001_m1.jpg"
    );
}

#[test]
fn disk_monitor_pauses_once_and_warns_once() {
    let mut m = DiskMonitor::new();
    assert_eq!(disk_check(&mut m, true, false), DiskAction::WarnLow);
    assert_eq!(disk_check(&mut m, true, false), DiskAction::Nothing);
    assert_eq!(disk_check(&mut m, true, true), DiskAction::PauseRecording);
    assert_eq!(disk_check(&mut m, true, true), DiskAction::Nothing);
    assert_eq!(disk_check(&mut m, true, false), DiskAction::Nothing);
    assert_eq!(disk_check(&mut m, false, false), DiskAction::Nothing);
    assert!(!m.warned);
    assert_eq!(disk_check(&mut m, true, false), DiskAction::WarnLow);
}

#[test]
fn tray_and_autostart() {
    assert_eq!(tray_action("pause"), TrayAction::PauseRecording);
    assert_eq!(tray_action("quit"), TrayAction::Quit);
    assert_eq!(tray_action("x"), TrayAction::Ignore);
    let mut c = AppConfig::default_for("/d".to_string());
    c.managed_chat_server_command = Some("srv".to_string());
    c.managed_chat_server_autostart = true;
    assert!(autostart_plan(&c).is_empty());
    c.llm_backend = LlmBackend::Openai;
    c.managed_embed_server_command = Some("emb".to_string());
    assert_eq!(autostart_plan(&c), vec![("chat".to_string(), "srv".to_string())]);
    c.managed_embed_server_autostart = true;
    assert_eq!(autostart_plan(&c).len(), 2);
}

#[test]
fn monitor_names_and_known_paths() {
    assert_eq!(accept_friendly_name("  AW3225QF "), Some("AW3225QF".to_string()));
    assert_eq!(accept_friendly_name("Generic PnP Monitor"), None);
    assert_eq!(accept_friendly_name("  "), None);
    let pairs = vec![
        ("\\\\.\\DISPLAY1 ".to_string(), "AW3225QF".to_string()),
        ("\\\\.\\DISPLAY2".to_string(), "generic pnp monitor".to_string()),
        ("  ".to_string(), "X".to_string()),
    ];
    let entries = display_config_entries(&pairs);
    assert_eq!(entries, vec![("\\\\.\\DISPLAY1".to_string(), "AW3225QF".to_string())]);
    assert_eq!(
        friendly_monitor_name("\\\\.\\DISPLAY1", &entries, None),
        Some("AW3225QF".to_string())
    );
    assert_eq!(
        friendly_monitor_name("\\\\.\\DISPLAY2", &entries, Some(" Dell U2720Q ")),
        Some("Dell U2720Q".to_string())
    );
    assert_eq!(friendly_monitor_name("\\\\.\\DISPLAY3", &entries, None), None);
    let wide: Vec<u16> = "DELL".encode_utf16().chain([0u16, 65, 66]).collect();
    assert_eq!(utf16_to_string(&wide), "DELL");
    let mixed: Vec<u16> = vec![0x48, 0xD83D, 0xDE00, 0xD800, 0x41, 0xDC00, 0xE9, 0, 0x42];
    assert_eq!(utf16_to_string(&mixed), "H\u{1F600}\u{FFFD}A\u{FFFD}\u{e9}");
    assert_eq!(utf16_to_string(&[0xDBFF]), "\u{FFFD}");
    let cands = tesseract_known_paths(false);
    assert_eq!(probe_known_path(&cands, &vec![false, true, true]), Some("/usr/local/bin/tesseract".to_string()));
    assert_eq!(probe_known_path(&cands, &vec![false, false, false]), None);
    assert_eq!(tesseract_known_paths(true).len(), 2);
    assert_eq!(tesseract_candidates()[1], "tesseract");
}

#[test]
fn ocr_helpers() {
    let e: TesseractEngine = build_engine(OcrEngineKind::Tesseract);
    assert!(e.reads_directly(Some("PNG")));
    assert!(!e.reads_directly(Some("webp")));
    assert!(!e.reads_directly(None));
    assert_eq!(
        e.args("in.png"),
        strings(&["in.png", "stdout", "-l", "eng", "--dpi", "220", "--psm", "6", "--oem", "3"])
    );
    assert_eq!(e.run_outcome(true, "  text \n", ""), Ok("text".to_string()));
    assert_eq!(
        e.run_outcome(false, "", " bad image \n"),
        Err("tesseract run failed: bad image".to_string())
    );
    assert_eq!(ocr_stored_text(Err("x".to_string())), "");
    assert_eq!(ocr_stored_text(Ok("hi".to_string())), "hi");
}

#[test]
fn error_text_and_log_limits() {
    assert_eq!(screenrecall::commands::err("disk full"), "disk full");
    assert_eq!(screenrecall::commands::err(42), "42");
    assert_eq!(screenrecall::commands::log_tail_limit(None, 300), 300);
    assert_eq!(screenrecall::commands::log_tail_limit(Some(0), 300), 1);
    assert_eq!(screenrecall::commands::log_tail_limit(Some(9000), 400), 5000);
}

#[test]
fn frame_time_rendering() {
    assert_eq!(screenrecall::llm::frame_time_text(None, -1500), "-1500");
    assert_eq!(
        screenrecall::llm::frame_time_text(Some("2024-01-01T00:00:00+00:00".to_string()), 0),
        "2024-01-01T00:00:00+00:00"
    );
}
