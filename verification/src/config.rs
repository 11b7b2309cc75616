//! Application settings: defaults, and the migrations applied to settings
//! files written by older versions.

use crate::text::{chars_of, contains_chars, contains_seq};
use vstd::prelude::*;

verus! {

/// Which LLM / embedding backend to use.
#[derive(Clone, Copy, Debug, PartialEq, Eq)]
pub enum LlmBackend {
    Ollama,
    Openai,
}

/// OCR engine choice.
#[derive(Clone, Copy, Debug, PartialEq, Eq)]
pub enum OcrEngineKind {
    Tesseract,
}

/// Image format of stored frames.
#[derive(Clone, Copy, Debug, PartialEq, Eq)]
pub enum CaptureImageFormat {
    Webp,
    Jpeg,
}

/// What closing the main window does.
#[derive(Clone, Copy, Debug, PartialEq, Eq)]
pub enum CloseBehavior {
    Ask,
    Minimize,
    Quit,
}

/// Resize filter for frame downscaling.
#[derive(Clone, Copy, Debug, PartialEq, Eq)]
pub enum CaptureResizeFilter {
    Nearest,
    Lanczos3,
}

/// All settings.
#[derive(Clone, Debug)]
pub struct AppConfig {
    /// Interval between capture attempts, in seconds.
    pub capture_interval_secs: u64,
    /// How long to keep frames (0 = forever).
    pub retention_days: u64,
    /// Where frames and the database are stored.
    pub data_dir: String,
    /// Process executable names to skip.
    pub excluded_processes: Vec<String>,
    /// Substrings of the active window title that skip capture.
    pub excluded_window_substrings: Vec<String>,
    pub llm_backend: LlmBackend,
    pub ollama_url: String,
    pub openai_base_url: String,
    /// OpenAI-compatible base used for embeddings only, when set.
    pub openai_embedding_base_url: Option<String>,
    pub openai_api_key: String,
    pub chat_model: String,
    /// Custom assistant system prompt for Chat.
    pub chat_system_prompt: Option<String>,
    pub embed_model: String,
    pub vision_model: Option<String>,
    pub managed_chat_server_command: Option<String>,
    pub managed_embed_server_command: Option<String>,
    pub managed_server_working_dir: Option<String>,
    pub managed_chat_server_autostart: bool,
    pub managed_embed_server_autostart: bool,
    pub ocr_engine: OcrEngineKind,
    /// Whether first-run dependency setup has been completed.
    pub setup_complete: bool,
    /// Timeline auto-refresh period (0 = none).
    pub timeline_refresh_secs: u64,
    /// Skip capture while the session is locked.
    pub pause_when_workstation_locked: bool,
    pub close_behavior: CloseBehavior,
    pub archive_enabled: bool,
    /// Encoder preset id for video archival.
    pub archive_codec: String,
    pub archive_interval_secs: u64,
    pub archive_segment_secs: u64,
    /// Days to keep frame files after archival (0 = forever).
    pub archive_keep_frames_days: u64,
    /// Max lookback of the automatic archiver (0 = unlimited).
    pub archive_max_lookback_secs: u64,
    /// Frames newer than this are never archived.
    pub archive_delay_secs: u64,
    /// Encoder quality value (0 = encoder default).
    pub archive_quality: u32,
    /// Max long edge of stored frames (0 = keep full resolution).
    pub capture_downscale_max_edge: u32,
    pub capture_image_format: CaptureImageFormat,
    /// JPEG quality (1..=100).
    pub capture_jpeg_quality: u8,
    pub capture_resize_filter: CaptureResizeFilter,
    /// dHash distance below which a capture is a duplicate (0 = off).
    pub capture_dedupe_threshold: u32,
    /// Detect noisy monitors and use a higher threshold for them.
    pub capture_adaptive_dedupe_enabled: bool,
    /// Threshold applied to monitors classified noisy.
    pub capture_noisy_monitor_threshold: u32,
}

pub fn default_timeline_refresh_secs() -> (r: u64)
    ensures
        r == 5,
{
    5
}

pub fn default_true() -> (r: bool)
    ensures
        r,
{
    true
}

pub fn default_close_behavior() -> (r: CloseBehavior)
    ensures
        r == CloseBehavior::Ask,
{
    CloseBehavior::Ask
}

pub fn default_archive_enabled() -> (r: bool)
    ensures
        r,
{
    true
}

pub fn default_archive_codec() -> (r: String)
    ensures
        r@ == "h264"@,
{
    "h264".to_owned()
}

pub fn default_archive_interval_secs() -> (r: u64)
    ensures
        r == 900,
{
    900
}

pub fn default_archive_segment_secs() -> (r: u64)
    ensures
        r == 900,
{
    900
}

pub fn default_archive_keep_frames_days() -> (r: u64)
    ensures
        r == 1,
{
    1
}

pub fn default_archive_max_lookback_secs() -> (r: u64)
    ensures
        r == 0,
{
    0
}

pub fn default_archive_delay_secs() -> (r: u64)
    ensures
        r == 60,
{
    60
}

pub fn default_capture_downscale_max_edge() -> (r: u32)
    ensures
        r == 1920,
{
    1920
}

pub fn default_capture_image_format() -> (r: CaptureImageFormat)
    ensures
        r == CaptureImageFormat::Jpeg,
{
    CaptureImageFormat::Jpeg
}

pub fn default_capture_jpeg_quality() -> (r: u8)
    ensures
        r == 85,
{
    85
}

pub fn default_capture_resize_filter() -> (r: CaptureResizeFilter)
    ensures
        r == CaptureResizeFilter::Nearest,
{
    CaptureResizeFilter::Nearest
}

pub fn default_capture_dedupe_threshold() -> (r: u32)
    ensures
        r == 3,
{
    3
}

pub fn default_capture_noisy_monitor_threshold() -> (r: u32)
    ensures
        r == 8,
{
    8
}

/// The settings a fresh installation starts with.
pub open spec fn is_default_config(c: AppConfig, data_dir: Seq<char>) -> bool {
    &&& c.capture_interval_secs == 3
    &&& c.retention_days == 30
    &&& c.data_dir@ == data_dir
    &&& c.excluded_processes@.len() == 0
    &&& c.excluded_window_substrings@.len() == 2
    &&& c.excluded_window_substrings@[0]@ == "Incognito"@
    &&& c.excluded_window_substrings@[1]@ == "Private Browsing"@
    &&& c.llm_backend == LlmBackend::Ollama
    &&& c.ollama_url@ == "http://localhost:11434"@
    &&& c.openai_base_url@ == "https://api.openai.com/v1"@
    &&& c.openai_embedding_base_url is None
    &&& c.openai_api_key@ == Seq::<char>::empty()
    &&& c.chat_model@ == "llama3.2"@
    &&& c.chat_system_prompt is None
    &&& c.embed_model@ == "nomic-embed-text"@
    &&& c.vision_model is None
    &&& c.managed_chat_server_command is None
    &&& c.managed_embed_server_command is None
    &&& c.managed_server_working_dir is None
    &&& !c.managed_chat_server_autostart
    &&& !c.managed_embed_server_autostart
    &&& c.ocr_engine == OcrEngineKind::Tesseract
    &&& !c.setup_complete
    &&& c.timeline_refresh_secs == 5
    &&& c.pause_when_workstation_locked
    &&& c.close_behavior == CloseBehavior::Ask
    &&& c.archive_enabled
    &&& c.archive_codec@ == "h264"@
    &&& c.archive_interval_secs == 900
    &&& c.archive_segment_secs == 900
    &&& c.archive_keep_frames_days == 1
    &&& c.archive_max_lookback_secs == 0
    &&& c.archive_delay_secs == 60
    &&& c.archive_quality == 0
    &&& c.capture_downscale_max_edge == 1920
    &&& c.capture_image_format == CaptureImageFormat::Jpeg
    &&& c.capture_jpeg_quality == 85
    &&& c.capture_resize_filter == CaptureResizeFilter::Nearest
    &&& c.capture_dedupe_threshold == 3
    &&& !c.capture_adaptive_dedupe_enabled
    &&& c.capture_noisy_monitor_threshold == 8
}

impl AppConfig {
    /// Default settings storing data under `data_dir`.
    pub fn default_for(data_dir: String) -> (c: Self)
        ensures
            is_default_config(c, data_dir@),
    {
        AppConfig {
            capture_interval_secs: 3,
            retention_days: 30,
            data_dir,
            excluded_processes: Vec::new(),
            excluded_window_substrings: vec!["Incognito".to_owned(), "Private Browsing".to_owned()],
            llm_backend: LlmBackend::Ollama,
            ollama_url: "http://localhost:11434".to_owned(),
            openai_base_url: "https://api.openai.com/v1".to_owned(),
            openai_embedding_base_url: None,
            openai_api_key: String::new(),
            chat_model: "llama3.2".to_owned(),
            chat_system_prompt: None,
            embed_model: "nomic-embed-text".to_owned(),
            vision_model: None,
            managed_chat_server_command: None,
            managed_embed_server_command: None,
            managed_server_working_dir: None,
            managed_chat_server_autostart: false,
            managed_embed_server_autostart: false,
            ocr_engine: OcrEngineKind::Tesseract,
            setup_complete: false,
            timeline_refresh_secs: default_timeline_refresh_secs(),
            pause_when_workstation_locked: true,
            close_behavior: default_close_behavior(),
            archive_enabled: default_archive_enabled(),
            archive_codec: default_archive_codec(),
            archive_interval_secs: default_archive_interval_secs(),
            archive_segment_secs: default_archive_segment_secs(),
            archive_keep_frames_days: default_archive_keep_frames_days(),
            archive_max_lookback_secs: default_archive_max_lookback_secs(),
            archive_delay_secs: default_archive_delay_secs(),
            archive_quality: 0,
            capture_downscale_max_edge: default_capture_downscale_max_edge(),
            capture_image_format: default_capture_image_format(),
            capture_jpeg_quality: default_capture_jpeg_quality(),
            capture_resize_filter: default_capture_resize_filter(),
            capture_dedupe_threshold: default_capture_dedupe_threshold(),
            capture_adaptive_dedupe_enabled: false,
            capture_noisy_monitor_threshold: default_capture_noisy_monitor_threshold(),
        }
    }
}

/// Archiving setting after migrating a settings file without the
/// `archive_enabled` key: on exactly when an archive interval was set.
pub open spec fn migrated_archive_enabled(text: Seq<char>, enabled: bool, interval_secs: u64) -> bool {
    if !contains_seq(text, "archive_enabled"@) {
        interval_secs > 0
    } else {
        enabled
    }
}

/// Frame-keeping days after migrating the old `archive_delete_source` flag:
/// one day when it was `true`, forever (0) when it was `false`.
pub open spec fn migrated_keep_days(text: Seq<char>, keep_days: u64) -> u64 {
    if contains_seq(text, "archive_delete_source"@) {
        if contains_seq(text, "\"archive_delete_source\": true"@) {
            1
        } else {
            0
        }
    } else {
        keep_days
    }
}

/// Applies the migrations for settings written by older versions, given the
/// raw settings text they were parsed from.
pub fn apply_legacy_migrations(cfg: &mut AppConfig, text: &str)
    ensures
        final(cfg).archive_enabled == migrated_archive_enabled(
            text@,
            old(cfg).archive_enabled,
            old(cfg).archive_interval_secs,
        ),
        final(cfg).archive_keep_frames_days == migrated_keep_days(
            text@,
            old(cfg).archive_keep_frames_days,
        ),
        *final(cfg) == (AppConfig {
            archive_enabled: final(cfg).archive_enabled,
            archive_keep_frames_days: final(cfg).archive_keep_frames_days,
            ..*old(cfg)
        }),
{
    let t = chars_of(text);
    if !contains_chars(&t, &chars_of("archive_enabled")) {
        cfg.archive_enabled = cfg.archive_interval_secs > 0;
    }
    if contains_chars(&t, &chars_of("archive_delete_source")) {
        cfg.archive_keep_frames_days = if contains_chars(
            &t,
            &chars_of("\"archive_delete_source\": true"),
        ) {
            1
        } else {
            0
        };
    }
}

/// Settings loaded from a settings file: the parsed settings with the
/// legacy migrations applied, or the defaults when the text did not parse.
pub fn config_from_file(parsed: Option<AppConfig>, text: &str, default_data_dir: String) -> (c:
    AppConfig)
    ensures
        match parsed {
            Some(p) => c == (AppConfig {
                archive_enabled: migrated_archive_enabled(
                    text@,
                    p.archive_enabled,
                    p.archive_interval_secs,
                ),
                archive_keep_frames_days: migrated_keep_days(text@, p.archive_keep_frames_days),
                ..p
            }),
            None => is_default_config(c, default_data_dir@),
        },
{
    match parsed {
        Some(p) => {
            let mut c = p;
            apply_legacy_migrations(&mut c, text);
            c
        },
        None => AppConfig::default_for(default_data_dir),
    }
}

} // verus!
