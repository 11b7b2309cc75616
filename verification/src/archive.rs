//! Video archival: encoder presets and detection, the archiver's schedule
//! and status, grouping of frames into segments, and the concat list and
//! command line handed to FFmpeg.

use crate::llm::utf8_len;
use crate::text::{
    ascii_lower_seq, ascii_lowercase, chars_of, contains_chars, contains_seq, decimal,
    ends_with_chars, ends_with_seq, eq_chars, lines, push_all, push_decimal, push_padded, push_str,
    split_lines, split_whitespace, string_from_chars, string_views, trim, trim_chars, views, words,
    zero_padded,
};
use vstd::prelude::*;

verus! {

/// A known encoder preset.
#[derive(Clone, Copy, Debug)]
pub struct EncoderPreset {
    pub id: &'static str,
    pub label: &'static str,
    pub ffmpeg_encoder: &'static str,
    pub description: &'static str,
    /// Whether the encoder needs hardware support.
    pub hardware_only: bool,
    /// FFmpeg quality flag name (e.g. `crf`, `global_quality`, `cq`).
    pub quality_flag: &'static str,
}

/// Number of known presets.
pub const PRESET_COUNT: usize = 9;

/// Row `i` of the preset table: id, FFmpeg encoder, quality flag, hardware only.
pub open spec fn preset_row(i: int) -> (Seq<char>, Seq<char>, Seq<char>, bool) {
    if i == 0 {
        ("h264"@, "libx264"@, "crf"@, false)
    } else if i == 1 {
        ("h264_qsv"@, "h264_qsv"@, "global_quality"@, true)
    } else if i == 2 {
        ("h264_nvenc"@, "h264_nvenc"@, "cq"@, true)
    } else if i == 3 {
        ("h265"@, "libx265"@, "crf"@, false)
    } else if i == 4 {
        ("h265_qsv"@, "hevc_qsv"@, "global_quality"@, true)
    } else if i == 5 {
        ("h265_nvenc"@, "hevc_nvenc"@, "cq"@, true)
    } else if i == 6 {
        ("av1_qsv"@, "av1_qsv"@, "global_quality"@, true)
    } else if i == 7 {
        ("av1_nvenc"@, "av1_nvenc"@, "cq"@, true)
    } else {
        ("vp9"@, "libvpx-vp9"@, "crf"@, false)
    }
}

/// Label and description of row `i` of the preset table.
pub open spec fn preset_text(i: int) -> (Seq<char>, Seq<char>) {
    if i == 0 {
        ("H.264 (software)"@, "Universal compatibility, fast encode"@)
    } else if i == 1 {
        ("H.264 (Intel QSV)"@, "Intel hardware encode, very fast"@)
    } else if i == 2 {
        ("H.264 (NVIDIA NVENC)"@, "NVIDIA hardware encode, very fast"@)
    } else if i == 3 {
        ("H.265/HEVC (software)"@, "40-50% smaller than H.264, slower encode"@)
    } else if i == 4 {
        ("H.265/HEVC (Intel QSV)"@, "Intel hardware HEVC encode"@)
    } else if i == 5 {
        ("H.265/HEVC (NVIDIA NVENC)"@, "NVIDIA hardware HEVC encode"@)
    } else if i == 6 {
        ("AV1 (Intel QSV)"@, "Intel Arc hardware AV1, smallest files"@)
    } else if i == 7 {
        ("AV1 (NVIDIA NVENC)"@, "NVIDIA hardware AV1 encode"@)
    } else {
        ("VP9 (software)"@, "Google's open codec, good compression"@)
    }
}

/// `p` is row `i` of the preset table.
pub open spec fn is_preset_row(p: EncoderPreset, i: int) -> bool {
    &&& p.id@ == preset_row(i).0
    &&& p.label@ == preset_text(i).0
    &&& p.ffmpeg_encoder@ == preset_row(i).1
    &&& p.description@ == preset_text(i).1
    &&& p.quality_flag@ == preset_row(i).2
    &&& p.hardware_only == preset_row(i).3
}

/// Preset `i` of the table.
fn preset_at(i: usize) -> (p: EncoderPreset)
    requires
        i < PRESET_COUNT,
    ensures
        is_preset_row(p, i as int),
{
    if i == 0 {
        EncoderPreset {
            id: "h264",
            label: "H.264 (software)",
            ffmpeg_encoder: "libx264",
            description: "Universal compatibility, fast encode",
            hardware_only: false,
            quality_flag: "crf",
        }
    } else if i == 1 {
        EncoderPreset {
            id: "h264_qsv",
            label: "H.264 (Intel QSV)",
            ffmpeg_encoder: "h264_qsv",
            description: "Intel hardware encode, very fast",
            hardware_only: true,
            quality_flag: "global_quality",
        }
    } else if i == 2 {
        EncoderPreset {
            id: "h264_nvenc",
            label: "H.264 (NVIDIA NVENC)",
            ffmpeg_encoder: "h264_nvenc",
            description: "NVIDIA hardware encode, very fast",
            hardware_only: true,
            quality_flag: "cq",
        }
    } else if i == 3 {
        EncoderPreset {
            id: "h265",
            label: "H.265/HEVC (software)",
            ffmpeg_encoder: "libx265",
            description: "40-50% smaller than H.264, slower encode",
            hardware_only: false,
            quality_flag: "crf",
        }
    } else if i == 4 {
        EncoderPreset {
            id: "h265_qsv",
            label: "H.265/HEVC (Intel QSV)",
            ffmpeg_encoder: "hevc_qsv",
            description: "Intel hardware HEVC encode",
            hardware_only: true,
            quality_flag: "global_quality",
        }
    } else if i == 5 {
        EncoderPreset {
            id: "h265_nvenc",
            label: "H.265/HEVC (NVIDIA NVENC)",
            ffmpeg_encoder: "hevc_nvenc",
            description: "NVIDIA hardware HEVC encode",
            hardware_only: true,
            quality_flag: "cq",
        }
    } else if i == 6 {
        EncoderPreset {
            id: "av1_qsv",
            label: "AV1 (Intel QSV)",
            ffmpeg_encoder: "av1_qsv",
            description: "Intel Arc hardware AV1, smallest files",
            hardware_only: true,
            quality_flag: "global_quality",
        }
    } else if i == 7 {
        EncoderPreset {
            id: "av1_nvenc",
            label: "AV1 (NVIDIA NVENC)",
            ffmpeg_encoder: "av1_nvenc",
            description: "NVIDIA hardware AV1 encode",
            hardware_only: true,
            quality_flag: "cq",
        }
    } else {
        EncoderPreset {
            id: "vp9",
            label: "VP9 (software)",
            ffmpeg_encoder: "libvpx-vp9",
            description: "Google's open codec, good compression",
            hardware_only: false,
            quality_flag: "crf",
        }
    }
}

/// All known presets, in table order.
pub fn known_encoders() -> (v: Vec<EncoderPreset>)
    ensures
        v@.len() == PRESET_COUNT,
        forall|i: int| 0 <= i < PRESET_COUNT ==> is_preset_row(#[trigger] v@[i], i),
{
    let mut v: Vec<EncoderPreset> = Vec::new();
    let mut i: usize = 0;
    while i < PRESET_COUNT
        invariant
            i <= PRESET_COUNT,
            v@.len() == i,
            forall|j: int| 0 <= j < i ==> is_preset_row(#[trigger] v@[j], j),
        decreases PRESET_COUNT - i,
    {
        v.push(preset_at(i));
        i = i + 1;
    }
    v
}

/// Index of the first table row whose id is `id`, if any.
pub open spec fn preset_index(id: Seq<char>, from: int) -> Option<int>
    decreases PRESET_COUNT - from,
{
    if from < 0 || from >= PRESET_COUNT {
        None
    } else if preset_row(from).0 == id {
        Some(from)
    } else {
        preset_index(id, from + 1)
    }
}

/// The preset with the given id.
pub fn find_preset(id: &str) -> (r: Option<EncoderPreset>)
    ensures
        match preset_index(id@, 0) {
            Some(i) => r is Some && is_preset_row(r->0, i),
            None => r is None,
        },
{
    let want = chars_of(id);
    let mut i: usize = 0;
    while i < PRESET_COUNT
        invariant
            i <= PRESET_COUNT,
            want@ == id@,
            preset_index(id@, 0) == preset_index(id@, i as int),
        decreases PRESET_COUNT - i,
    {
        let p = preset_at(i);
        let pid = chars_of(p.id);
        if crate::text::eq_chars(&pid, &want) {
            return Some(p);
        }
        i = i + 1;
    }
    None
}


/// Encoder name listed on one line of `ffmpeg -encoders` output: a line whose
/// first field is a 6-byte flag field starting with `V` (video) and whose
/// second field does not start with `=`.
pub open spec fn encoder_on_line(line: Seq<char>) -> Option<Seq<char>> {
    let ws = words(line);
    if ws.len() >= 2 && utf8_len(ws[0]) == 6 && ws[0][0] == 'V' && !(ws[1].len() > 0
        && ws[1][0] == '=') {
        Some(ws[1])
    } else {
        None
    }
}

/// Encoder names listed in the lines, in order.
pub open spec fn encoders_in(ls: Seq<Seq<char>>) -> Seq<Seq<char>>
    decreases ls.len(),
{
    if ls.len() == 0 {
        Seq::empty()
    } else {
        let prev = encoders_in(ls.drop_last());
        match encoder_on_line(ls.last()) {
            Some(e) => prev.push(e),
            None => prev,
        }
    }
}

/// UTF-8 length of `s` in bytes.
fn utf8_len_of(s: &[char]) -> (n: u128)
    ensures
        n == utf8_len(s@),
{
    let mut n: u128 = 0;
    let mut i = s.len();
    proof {
        assert(s@.skip(s@.len() as int).len() == 0);
    }
    while i > 0
        invariant
            i <= s@.len() <= usize::MAX,
            n == utf8_len(s@.skip(i as int)),
            n <= 4 * (s@.len() - i),
        decreases i,
    {
        i = i - 1;
        let c = s[i];
        let w: u128 = if (c as u32) < 0x80 {
            1
        } else if (c as u32) < 0x800 {
            2
        } else if (c as u32) < 0x10000 {
            3
        } else {
            4
        };
        proof {
            let t = s@.skip(i as int);
            assert(t.drop_first() =~= s@.skip(i as int + 1));
            assert(t[0] == c);
        }
        n = n + w;
    }
    proof {
        assert(s@.skip(0) =~= s@);
    }
    n
}

/// The encoder listed on one line, if any.
fn encoder_of_line(line: &Vec<char>) -> (r: Option<Vec<char>>)
    ensures
        match r {
            Some(v) => encoder_on_line(line@) == Some(v@),
            None => encoder_on_line(line@) is None,
        },
{
    let ws = split_whitespace(line);
    if ws.len() < 2 {
        return None;
    }
    let f0 = &ws[0];
    let f1 = &ws[1];
    proof {
        assert(views(ws@)[0] == f0@);
        assert(views(ws@)[1] == f1@);
    }
    if utf8_len_of(f0) == 6 && f0[0] == 'V' && !(f1.len() > 0 && f1[0] == '=') {
        proof {
            assert(utf8_len(f0@) == 6 ==> f0@.len() > 0);
        }
        Some(f1.clone())
    } else {
        None
    }
}

/// Encoder names listed in `ffmpeg -encoders` output.
pub fn parse_encoder_list(text: &str) -> (r: Vec<String>)
    ensures
        string_views(r@) == encoders_in(lines(text@)),
{
    let t = chars_of(text);
    let ls = split_lines(&t);
    let mut out: Vec<String> = Vec::new();
    let mut i: usize = 0;
    while i < ls.len()
        invariant
            i <= ls@.len(),
            views(ls@) == lines(text@),
            string_views(out@) == encoders_in(views(ls@).subrange(0, i as int)),
        decreases ls@.len() - i,
    {
        let ghost before = string_views(out@);
        proof {
            let sub = views(ls@).subrange(0, i as int + 1);
            assert(sub.drop_last() =~= views(ls@).subrange(0, i as int));
            assert(sub.last() == ls@[i as int]@);
        }
        match encoder_of_line(&ls[i]) {
            Some(e) => {
                let s = string_from_chars(&e);
                out.push(s);
                proof {
                    assert(string_views(out@) =~= before.push(s@));
                }
            },
            None => {},
        }
        i = i + 1;
    }
    proof {
        assert(views(ls@).subrange(0, ls@.len() as int) =~= views(ls@));
    }
    out
}


/// The encoder preferred among those available: hardware AV1, then
/// hardware HEVC, then hardware H.264 (Intel before NVIDIA), else `h264`.
pub open spec fn recommended_spec(avail: Seq<Seq<char>>) -> Seq<char> {
    if avail.contains("av1_qsv"@) {
        "av1_qsv"@
    } else if avail.contains("av1_nvenc"@) {
        "av1_nvenc"@
    } else if avail.contains("hevc_qsv"@) {
        "hevc_qsv"@
    } else if avail.contains("hevc_nvenc"@) {
        "hevc_nvenc"@
    } else if avail.contains("h264_qsv"@) {
        "h264_qsv"@
    } else if avail.contains("h264_nvenc"@) {
        "h264_nvenc"@
    } else {
        "h264"@
    }
}

/// Whether `name` is in the list.
fn list_contains(list: &Vec<String>, name: &str) -> (b: bool)
    ensures
        b == string_views(list@).contains(name@),
{
    let want = chars_of(name);
    let mut i: usize = 0;
    while i < list.len()
        invariant
            i <= list@.len(),
            want@ == name@,
            forall|j: int| 0 <= j < i ==> list@[j]@ != name@,
        decreases list@.len() - i,
    {
        let c = chars_of(list[i].as_str());
        if eq_chars(&c, &want) {
            proof {
                assert(string_views(list@)[i as int] == name@);
            }
            return true;
        }
        i = i + 1;
    }
    proof {
        if string_views(list@).contains(name@) {
            let j = choose|j: int| 0 <= j < list@.len() && string_views(list@)[j] == name@;
            assert(list@[j]@ == name@);
        }
    }
    false
}

/// The recommended encoder.
pub fn recommend_encoder(available: &Vec<String>) -> (r: String)
    ensures
        r@ == recommended_spec(string_views(available@)),
{
    if list_contains(available, "av1_qsv") {
        "av1_qsv".to_owned()
    } else if list_contains(available, "av1_nvenc") {
        "av1_nvenc".to_owned()
    } else if list_contains(available, "hevc_qsv") {
        "hevc_qsv".to_owned()
    } else if list_contains(available, "hevc_nvenc") {
        "hevc_nvenc".to_owned()
    } else if list_contains(available, "h264_qsv") {
        "h264_qsv".to_owned()
    } else if list_contains(available, "h264_nvenc") {
        "h264_nvenc".to_owned()
    } else {
        "h264".to_owned()
    }
}

/// The output of `ffmpeg -encoders` to read: stdout, unless it is blank,
/// in which case stderr (some builds print the list there).
pub open spec fn encoder_text_spec(stdout: Seq<char>, stderr: Seq<char>) -> Seq<char> {
    if trim(stdout).len() == 0 {
        stderr
    } else {
        stdout
    }
}

/// First line of `s`, or `unknown` when it has none.
pub open spec fn first_line_or_unknown(s: Seq<char>) -> Seq<char> {
    if lines(s).len() > 0 {
        lines(s)[0]
    } else {
        "unknown"@
    }
}

/// The version banner of `ffmpeg -version`: the first line of whichever
/// stream mentions `ffmpeg version` (stderr first); `None` when neither does.
pub open spec fn version_line_spec(stdout: Seq<char>, stderr: Seq<char>) -> Option<Seq<char>> {
    if contains_seq(stderr, "ffmpeg version"@) {
        Some(first_line_or_unknown(stderr))
    } else if contains_seq(stdout, "ffmpeg version"@) {
        Some(first_line_or_unknown(stdout))
    } else {
        None
    }
}

/// First line of `s`, or `unknown`.
fn first_line(s: &Vec<char>) -> (r: String)
    ensures
        r@ == first_line_or_unknown(s@),
{
    let ls = split_lines(s);
    if ls.len() > 0 {
        proof {
            assert(views(ls@)[0] == ls@[0]@);
        }
        string_from_chars(&ls[0])
    } else {
        "unknown".to_owned()
    }
}

/// The version banner found in `ffmpeg -version` output, if any.
pub fn version_line(stdout: &str, stderr: &str) -> (r: Option<String>)
    ensures
        match version_line_spec(stdout@, stderr@) {
            Some(v) => r is Some && r->0@ == v,
            None => r is None,
        },
{
    let marker = chars_of("ffmpeg version");
    let se = chars_of(stderr);
    let so = chars_of(stdout);
    if contains_chars(&se, &marker) {
        Some(first_line(&se))
    } else if contains_chars(&so, &marker) {
        Some(first_line(&so))
    } else {
        None
    }
}

/// Result of probing the available FFmpeg encoders.
#[derive(Clone, Debug, Default)]
pub struct EncoderAvailability {
    pub ffmpeg_found: bool,
    pub ffmpeg_version: String,
    pub available_encoders: Vec<String>,
    pub recommended: String,
}

/// What a probe concludes from the output of `ffmpeg -version` and of
/// `ffmpeg -encoders` (each `(stdout, stderr)`, `None` when FFmpeg was not
/// found or the command could not run).
pub open spec fn probe_spec(
    version_out: Option<(Seq<char>, Seq<char>)>,
    encoders_out: Option<(Seq<char>, Seq<char>)>,
    r: EncoderAvailability,
) -> bool {
    let v = match version_out {
        Some((so, se)) => version_line_spec(so, se),
        None => None,
    };
    match v {
        None => {
            &&& !r.ffmpeg_found
            &&& r.ffmpeg_version@ == Seq::<char>::empty()
            &&& r.available_encoders@.len() == 0
            &&& r.recommended@ == "h264"@
        },
        Some(line) => {
            let avail = match encoders_out {
                Some((so, se)) => encoders_in(lines(encoder_text_spec(so, se))),
                None => Seq::empty(),
            };
            &&& r.ffmpeg_found
            &&& r.ffmpeg_version@ == line
            &&& string_views(r.available_encoders@) == avail
            &&& r.recommended@ == recommended_spec(avail)
        },
    }
}

/// Combines the outputs of the two FFmpeg probes.
pub fn probe_outcome(
    version_out: Option<(String, String)>,
    encoders_out: Option<(String, String)>,
) -> (r: EncoderAvailability)
    ensures
        probe_spec(
            match version_out {
                Some((so, se)) => Some((so@, se@)),
                None => None,
            },
            match encoders_out {
                Some((so, se)) => Some((so@, se@)),
                None => None,
            },
            r,
        ),
{
    let line = match &version_out {
        Some((so, se)) => version_line(so.as_str(), se.as_str()),
        None => None,
    };
    match line {
        None => EncoderAvailability {
            ffmpeg_found: false,
            ffmpeg_version: String::new(),
            available_encoders: Vec::new(),
            recommended: "h264".to_owned(),
        },
        Some(v) => {
            let avail = match &encoders_out {
                Some((so, se)) => {
                    let t = trim_chars(&chars_of(so.as_str()));
                    if t.len() == 0 {
                        parse_encoder_list(se.as_str())
                    } else {
                        parse_encoder_list(so.as_str())
                    }
                },
                None => {
                    let e: Vec<String> = Vec::new();
                    proof {
                        assert(string_views(e@) =~= Seq::<Seq<char>>::empty());
                    }
                    e
                },
            };
            let rec = recommend_encoder(&avail);
            EncoderAvailability {
                ffmpeg_found: true,
                ffmpeg_version: v,
                available_encoders: avail,
                recommended: rec,
            }
        },
    }
}

/// Forgets the cached probe so the next request re-detects FFmpeg.
pub fn clear_encoder_cache(cache: &mut Option<EncoderAvailability>)
    ensures
        *final(cache) is None,
{
    *cache = None;
}


/// Archiver state shown on the Diagnostics page.
#[derive(Clone, Debug)]
pub struct ArchiverStatus {
    pub enabled: bool,
    pub running: bool,
    pub last_run_ts: Option<i64>,
    pub last_duration_ms: Option<u64>,
    pub next_run_ts: Option<i64>,
    pub total_archived: i64,
    pub total_segments: i64,
    pub total_source_deleted: i64,
    pub last_error: Option<String>,
}

/// The status before any run: disabled, idle, no history.
pub open spec fn is_initial_status(s: ArchiverStatus) -> bool {
    &&& !s.enabled
    &&& !s.running
    &&& s.last_run_ts is None
    &&& s.last_duration_ms is None
    &&& s.next_run_ts is None
    &&& s.total_archived == 0
    &&& s.total_segments == 0
    &&& s.total_source_deleted == 0
    &&& s.last_error is None
}

/// A fresh status.
pub fn initial_archiver_status() -> (s: ArchiverStatus)
    ensures
        is_initial_status(s),
{
    ArchiverStatus {
        enabled: false,
        running: false,
        last_run_ts: None,
        last_duration_ms: None,
        next_run_ts: None,
        total_archived: 0,
        total_segments: 0,
        total_source_deleted: 0,
        last_error: None,
    }
}

/// A copy of the status.
pub fn get_archiver_status(status: &ArchiverStatus) -> (r: ArchiverStatus)
    ensures
        r.enabled == status.enabled,
        r.running == status.running,
        r.last_run_ts == status.last_run_ts,
        r.last_duration_ms == status.last_duration_ms,
        r.next_run_ts == status.next_run_ts,
        r.total_archived == status.total_archived,
        r.total_segments == status.total_segments,
        r.total_source_deleted == status.total_source_deleted,
        match status.last_error {
            Some(e) => r.last_error is Some && r.last_error->0@ == e@,
            None => r.last_error is None,
        },
{
    ArchiverStatus {
        enabled: status.enabled,
        running: status.running,
        last_run_ts: status.last_run_ts,
        last_duration_ms: status.last_duration_ms,
        next_run_ts: status.next_run_ts,
        total_archived: status.total_archived,
        total_segments: status.total_segments,
        total_source_deleted: status.total_source_deleted,
        last_error: match &status.last_error {
            Some(e) => Some(e.clone()),
            None => None,
        },
    }
}

/// Resets the status to its initial value.
pub fn reset_archiver_status(status: &mut ArchiverStatus)
    ensures
        is_initial_status(*final(status)),
{
    *status = initial_archiver_status();
}

/// Seconds the archiver sleeps between runs: the interval, at least a minute.
pub open spec fn sleep_secs_spec(interval_secs: u64) -> u64 {
    if interval_secs > 60 {
        interval_secs
    } else {
        60
    }
}

/// Seconds to sleep before the next run.
pub fn archiver_sleep_secs(interval_secs: u64) -> (r: u64)
    ensures
        r == sleep_secs_spec(interval_secs),
        r >= 60,
{
    if interval_secs > 60 {
        interval_secs
    } else {
        60
    }
}

impl ArchiverStatus {
    /// The archiver is turned off: not enabled, not running.
    pub fn mark_disabled(&mut self)
        ensures
            *final(self) == (ArchiverStatus { enabled: false, running: false, ..*old(self) }),
    {
        self.enabled = false;
        self.running = false;
    }

    /// The worker started with archiving turned on.
    pub fn mark_enabled_idle(&mut self)
        ensures
            *final(self) == (ArchiverStatus { enabled: true, running: false, ..*old(self) }),
    {
        self.enabled = true;
        self.running = false;
    }

    /// A run begins: running, previous error cleared.
    pub fn begin_run(&mut self, enabled: bool)
        ensures
            *final(self) == (ArchiverStatus {
                enabled: enabled,
                running: true,
                last_error: None,
                ..*old(self)
            }),
    {
        self.enabled = enabled;
        self.running = true;
        self.last_error = None;
    }

    /// A run finished: idle, its time and duration recorded, totals grown.
    pub fn finish_run(
        &mut self,
        now_ms: i64,
        duration_ms: u64,
        archived: u64,
        segments: u64,
        deleted: u64,
    )
        requires
            archived <= i64::MAX,
            segments <= i64::MAX,
            deleted <= i64::MAX,
            old(self).total_archived + archived <= i64::MAX,
            old(self).total_segments + segments <= i64::MAX,
            old(self).total_source_deleted + deleted <= i64::MAX,
        ensures
            *final(self) == (ArchiverStatus {
                running: false,
                last_run_ts: Some(now_ms),
                last_duration_ms: Some(duration_ms),
                total_archived: (old(self).total_archived + archived) as i64,
                total_segments: (old(self).total_segments + segments) as i64,
                total_source_deleted: (old(self).total_source_deleted + deleted) as i64,
                ..*old(self)
            }),
    {
        self.running = false;
        self.last_run_ts = Some(now_ms);
        self.last_duration_ms = Some(duration_ms);
        self.total_archived = self.total_archived + archived as i64;
        self.total_segments = self.total_segments + segments as i64;
        self.total_source_deleted = self.total_source_deleted + deleted as i64;
    }

    /// Frame files past the keep threshold were deleted.
    pub fn add_deleted(&mut self, deleted: u64)
        requires
            deleted <= i64::MAX,
            old(self).total_source_deleted + deleted <= i64::MAX,
        ensures
            *final(self) == (ArchiverStatus {
                total_source_deleted: (old(self).total_source_deleted + deleted) as i64,
                ..*old(self)
            }),
    {
        self.total_source_deleted = self.total_source_deleted + deleted as i64;
    }

    /// A run failed: idle, with the error.
    pub fn fail_run(&mut self, error: String)
        ensures
            *final(self) == (ArchiverStatus {
                running: false,
                last_error: Some(error),
                ..*old(self)
            }),
    {
        self.running = false;
        self.last_error = Some(error);
    }

    /// Schedules the next run `sleep_secs` after `now_ms`.
    pub fn schedule_next(&mut self, now_ms: i64, sleep_secs: u64)
        requires
            sleep_secs <= i64::MAX / 1000,
            now_ms + sleep_secs * 1000 <= i64::MAX,
        ensures
            *final(self) == (ArchiverStatus {
                next_run_ts: Some((now_ms + sleep_secs * 1000) as i64),
                ..*old(self)
            }),
    {
        self.next_run_ts = Some(now_ms + (sleep_secs as i64) * 1000);
    }
}

/// The time window of an automatic archiver run, `(min_ts, cutoff)`: frames
/// captured in `[min_ts, cutoff)` are archived. The run starts where the
/// last successful one ended (no earlier than the lookback limit, when one
/// is set; from the beginning or one lookback ago, at least a minute, when
/// there was none) and stops `delay_secs` before now.
pub open spec fn archive_window_spec(
    now_ms: i64,
    last_success: Option<i64>,
    max_lookback_secs: u64,
    delay_secs: u64,
) -> (int, int) {
    let lookback_ms = max_lookback_secs * 1000;
    let min_ts = match last_success {
        Some(ts) => if max_lookback_secs > 0 {
            if ts >= now_ms - lookback_ms {
                ts as int
            } else {
                now_ms - lookback_ms
            }
        } else {
            ts as int
        },
        None => if max_lookback_secs > 0 {
            now_ms - if lookback_ms > 60_000 {
                lookback_ms
            } else {
                60_000
            }
        } else {
            0
        },
    };
    (min_ts, now_ms - delay_secs * 1000)
}

/// Computes the window of an automatic archiver run.
pub fn archive_window(
    now_ms: i64,
    last_success: Option<i64>,
    max_lookback_secs: u64,
    delay_secs: u64,
) -> (r: (i64, i64))
    requires
        max_lookback_secs <= i64::MAX / 1000,
        delay_secs <= i64::MAX / 1000,
        now_ms - max_lookback_secs * 1000 >= i64::MIN,
        now_ms - 60_000 >= i64::MIN,
        now_ms - delay_secs * 1000 >= i64::MIN,
    ensures
        (r.0 as int, r.1 as int) == archive_window_spec(
            now_ms,
            last_success,
            max_lookback_secs,
            delay_secs,
        ),
{
    let lookback_ms: i64 = (max_lookback_secs as i64) * 1000;
    let min_ts = match last_success {
        Some(ts) => if max_lookback_secs > 0 {
            let floor = now_ms - lookback_ms;
            if ts >= floor {
                ts
            } else {
                floor
            }
        } else {
            ts
        },
        None => if max_lookback_secs > 0 {
            now_ms - if lookback_ms > 60_000 {
                lookback_ms
            } else {
                60_000
            }
        } else {
            0
        },
    };
    (min_ts, now_ms - (delay_secs as i64) * 1000)
}

/// Successive automatic runs cover contiguous, non-overlapping windows: a
/// run that follows a successful run whose bookmark is `prev_cutoff` starts
/// exactly there, and ends `delay_secs` before its own start time. This
/// fails only when a lookback limit is set and the bookmark is older than
/// the limit allows (the run then skips ahead to `now - lookback`).
pub proof fn lemma_windows_contiguous(
    prev_cutoff: i64,
    now_ms: i64,
    max_lookback_secs: u64,
    delay_secs: u64,
)
    requires
        max_lookback_secs == 0 || prev_cutoff >= now_ms - max_lookback_secs * 1000,
    ensures
        archive_window_spec(now_ms, Some(prev_cutoff), max_lookback_secs, delay_secs).0
            == prev_cutoff,
        archive_window_spec(now_ms, Some(prev_cutoff), max_lookback_secs, delay_secs).1 == now_ms
            - delay_secs * 1000,
{
}

/// Where an archiver run's window starts and ends, for every input:
/// - it always ends `delay_secs` seconds before `now_ms`;
/// - the first run (no earlier success) with a lookback limit `L` starts at
///   the earlier of `L` seconds and one minute before `now_ms`, so it covers
///   the whole lookback period; without a limit it starts at time 0;
/// - a later run starts where the last success left off, but never more
///   than `L` seconds before `now_ms` when a limit is set.
pub proof fn lemma_archive_window_bounds(
    now_ms: i64,
    last_success: Option<i64>,
    max_lookback_secs: u64,
    delay_secs: u64,
)
    ensures
        ({
            let (start, end) = archive_window_spec(
                now_ms,
                last_success,
                max_lookback_secs,
                delay_secs,
            );
            &&& end == now_ms - delay_secs * 1000
            &&& (last_success is None && max_lookback_secs > 0) ==> {
                &&& start <= now_ms - max_lookback_secs * 1000
                &&& start <= now_ms - 60_000
                &&& (start == now_ms - max_lookback_secs * 1000 || start == now_ms - 60_000)
            }
            &&& (last_success is None && max_lookback_secs == 0) ==> start == 0
            &&& (last_success is Some && max_lookback_secs > 0) ==> {
                &&& start >= now_ms - max_lookback_secs * 1000
                &&& start >= last_success->0
                &&& (start == last_success->0 || start == now_ms - max_lookback_secs * 1000)
            }
            &&& (last_success is Some && max_lookback_secs == 0) ==> start == last_success->0
        }),
{
}

/// Capture time before which archived frames lose their source files:
/// `keep_days` days before `now_ms`.
pub fn keep_frames_cutoff(now_ms: i64, keep_days: u64) -> (r: i64)
    requires
        keep_days <= i64::MAX / 86_400_000,
        now_ms - keep_days * 86_400_000 >= i64::MIN,
    ensures
        r == now_ms - keep_days * 86_400_000,
{
    now_ms - (keep_days as i64) * 24 * 3600 * 1000
}


/// An unarchived frame: `(id, ts, path)`.
pub type FrameRow = (i64, i64, String);

/// Left-to-right scan grouping frames into segments: the finished
/// segments, the segment being filled, and the start time of that segment.
/// A frame at least `seg_ms` after the segment start opens a new segment.
pub open spec fn segment_scan(f: Seq<FrameRow>, seg_ms: i64) -> (Seq<Seq<FrameRow>>, Seq<FrameRow>, Option<i64>)
    decreases f.len(),
{
    if f.len() == 0 {
        (Seq::empty(), Seq::empty(), None)
    } else {
        let (done, cur, start) = segment_scan(f.drop_last(), seg_ms);
        let r = f.last();
        let s0 = match start {
            Some(s) => s,
            None => r.1,
        };
        if r.1 - s0 >= seg_ms && cur.len() > 0 {
            (done.push(cur), seq![r], Some(r.1))
        } else {
            (done, cur.push(r), Some(s0))
        }
    }
}

/// The segments of a list of frames (ordered by time).
pub open spec fn segments_spec(f: Seq<FrameRow>, seg_ms: i64) -> Seq<Seq<FrameRow>> {
    let (done, cur, _) = segment_scan(f, seg_ms);
    if cur.len() > 0 {
        done.push(cur)
    } else {
        done
    }
}

/// Concatenation of a list of sequences.
pub open spec fn flatten<T>(s: Seq<Seq<T>>) -> Seq<T>
    decreases s.len(),
{
    if s.len() == 0 {
        Seq::empty()
    } else {
        flatten(s.drop_last()) + s.last()
    }
}

proof fn lemma_segment_scan(f: Seq<FrameRow>, seg_ms: i64)
    ensures
        flatten(segment_scan(f, seg_ms).0) + segment_scan(f, seg_ms).1 == f,
        forall|i: int|
            0 <= i < segment_scan(f, seg_ms).0.len() ==> (#[trigger] segment_scan(
                f,
                seg_ms,
            ).0[i]).len() > 0,
        f.len() > 0 ==> segment_scan(f, seg_ms).1.len() > 0,
    decreases f.len(),
{
    if f.len() > 0 {
        lemma_segment_scan(f.drop_last(), seg_ms);
        let (done, cur, start) = segment_scan(f.drop_last(), seg_ms);
        let (d2, c2, _) = segment_scan(f, seg_ms);
        if d2.len() > done.len() {
            assert(d2.drop_last() =~= done);
            assert(flatten(d2) =~= flatten(done) + cur);
        }
        assert(f =~= f.drop_last().push(f.last()));
    }
}

/// Segments cover the frames exactly, in order, and none is empty.
pub proof fn lemma_segments_partition(f: Seq<FrameRow>, seg_ms: i64)
    ensures
        flatten(segments_spec(f, seg_ms)) == f,
        forall|i: int|
            0 <= i < segments_spec(f, seg_ms).len() ==> (#[trigger] segments_spec(
                f,
                seg_ms,
            )[i]).len() > 0,
{
    lemma_segment_scan(f, seg_ms);
    let (done, cur, _) = segment_scan(f, seg_ms);
    if cur.len() > 0 {
        assert(done.push(cur).drop_last() =~= done);
    } else {
        assert(cur =~= Seq::<FrameRow>::empty());
        assert(flatten(done) + cur =~= flatten(done));
    }
}

/// Every frame of `g` lies less than `seg_ms` after its first frame.
pub open spec fn within_segment_span(g: Seq<FrameRow>, seg_ms: i64) -> bool {
    forall|i: int| 1 <= i < g.len() ==> (#[trigger] g[i]).1 - g[0].1 < seg_ms
}

proof fn lemma_segment_scan_span(f: Seq<FrameRow>, seg_ms: i64)
    ensures
        ({
            let (done, cur, start) = segment_scan(f, seg_ms);
            &&& forall|k: int| 0 <= k < done.len() ==> within_segment_span(#[trigger] done[k], seg_ms)
            &&& within_segment_span(cur, seg_ms)
            &&& cur.len() > 0 ==> start == Some(cur[0].1)
            &&& cur.len() == 0 ==> start is None
        }),
    decreases f.len(),
{
    if f.len() > 0 {
        lemma_segment_scan(f.drop_last(), seg_ms);
        lemma_segment_scan_span(f.drop_last(), seg_ms);
        let (done, cur, start) = segment_scan(f.drop_last(), seg_ms);
        let (d2, c2, s2) = segment_scan(f, seg_ms);
        let r = f.last();
        if d2.len() > done.len() {
            assert forall|k: int| 0 <= k < d2.len() implies within_segment_span(
                #[trigger] d2[k],
                seg_ms,
            ) by {
                if k < done.len() {
                    assert(d2[k] == done[k]);
                } else {
                    assert(d2[k] == cur);
                }
            }
            assert(c2 =~= seq![r]);
        } else {
            assert(d2 == done);
            assert(c2 == cur.push(r));
            assert forall|i: int| 1 <= i < c2.len() implies (#[trigger] c2[i]).1 - c2[0].1
                < seg_ms by {
                if i < cur.len() {
                    assert(c2[i] == cur[i]);
                }
            }
        }
    }
}

/// A segment never spans its length: every frame of a segment was captured
/// less than `seg_ms` after the segment's first frame.
pub proof fn lemma_segments_within_span(f: Seq<FrameRow>, seg_ms: i64)
    ensures
        forall|k: int|
            0 <= k < segments_spec(f, seg_ms).len() ==> within_segment_span(
                #[trigger] segments_spec(f, seg_ms)[k],
                seg_ms,
            ),
{
    lemma_segment_scan_span(f, seg_ms);
    let (done, cur, _) = segment_scan(f, seg_ms);
    if cur.len() > 0 {
        assert forall|k: int| 0 <= k < segments_spec(f, seg_ms).len() implies within_segment_span(
            #[trigger] segments_spec(f, seg_ms)[k],
            seg_ms,
        ) by {
            if k < done.len() {
                assert(segments_spec(f, seg_ms)[k] == done[k]);
            }
        }
    }
}

/// Views of a list of segments.
pub open spec fn segment_views(v: Seq<Vec<FrameRow>>) -> Seq<Seq<FrameRow>> {
    v.map_values(|x: Vec<FrameRow>| x@)
}

/// A copy of a frame row.
fn copy_row(r: &FrameRow) -> (c: FrameRow)
    ensures
        c == *r,
{
    (r.0, r.1, r.2.clone())
}

/// Groups frames of one monitor (ordered by time) into segments of
/// `segment_secs` seconds.
pub fn group_into_segments(frames: &Vec<FrameRow>, segment_secs: u64) -> (r: Vec<Vec<FrameRow>>)
    requires
        segment_secs <= u64::MAX / 1000,
    ensures
        segment_views(r@) == segments_spec(frames@, ((segment_secs * 1000) as u64) as i64),
        flatten(segment_views(r@)) == frames@,
        forall|i: int| 0 <= i < r@.len() ==> (#[trigger] r@[i])@.len() > 0,
        forall|i: int|
            0 <= i < r@.len() ==> within_segment_span(
                (#[trigger] r@[i])@,
                ((segment_secs * 1000) as u64) as i64,
            ),
{
    let segment_ms = segment_secs * 1000;
    let seg = segment_ms as i64;
    let mut done: Vec<Vec<FrameRow>> = Vec::new();
    let mut cur: Vec<FrameRow> = Vec::new();
    let mut start: Option<i64> = None;
    let mut i: usize = 0;
    while i < frames.len()
        invariant
            i <= frames@.len(),
            seg == ((segment_secs * 1000) as u64) as i64,
            (segment_views(done@), cur@, start) == segment_scan(frames@.subrange(0, i as int), seg),
        decreases frames@.len() - i,
    {
        let r = copy_row(&frames[i]);
        let ts = r.1;
        proof {
            assert(frames@.subrange(0, i as int + 1).drop_last() =~= frames@.subrange(0, i as int));
        }
        let s0 = match start {
            Some(s) => s,
            None => ts,
        };
        if (ts as i128) - (s0 as i128) >= (seg as i128) && cur.len() > 0 {
            let ghost before = segment_views(done@);
            let finished = cur;
            done.push(finished);
            cur = Vec::new();
            cur.push(r);
            start = Some(ts);
            proof {
                assert(segment_views(done@) =~= before.push(finished@));
                assert(cur@ =~= seq![r]);
            }
        } else {
            cur.push(r);
            start = Some(s0);
        }
        i = i + 1;
    }
    proof {
        assert(frames@.subrange(0, frames@.len() as int) =~= frames@);
    }
    if cur.len() > 0 {
        let ghost before = segment_views(done@);
        let last = cur;
        done.push(last);
        proof {
            assert(segment_views(done@) =~= before.push(last@));
        }
    }
    proof {
        lemma_segments_partition(frames@, seg);
        lemma_segments_within_span(frames@, seg);
        assert forall|i: int| 0 <= i < done@.len() implies (#[trigger] done@[i])@.len() > 0
            && within_segment_span(done@[i]@, seg) by {
            assert(segment_views(done@)[i] == done@[i]@);
        }
    }
    done
}

/// Duration assumed for a segment, ms: its time span, at least half a second.
pub open spec fn segment_duration_spec(first_ts: i64, last_ts: i64) -> int {
    let span = last_ts - first_ts;
    if span < 500 {
        500
    } else if span > i64::MAX {
        i64::MAX as int
    } else {
        span
    }
}

/// Duration of a segment from its first and last frame times.
pub fn segment_duration_ms(first_ts: i64, last_ts: i64) -> (d: i64)
    ensures
        d == segment_duration_spec(first_ts, last_ts),
        d >= 500,
{
    let span = (last_ts as i128) - (first_ts as i128);
    if span < 500 {
        500
    } else if span > i64::MAX as i128 {
        i64::MAX
    } else {
        span as i64
    }
}

/// Per-frame display duration in a segment of `n` frames lasting
/// `duration_ms`: the even share, rounded to the nearest millisecond, at
/// most one second (so a video never plays slower than 1 fps).
pub open spec fn frame_duration_spec(duration_ms: int, n: nat) -> int {
    let share = (2 * duration_ms + n as int) / (2 * n as int);
    if share < 1000 {
        share
    } else {
        1000
    }
}

/// `ms` as seconds with three decimals (`{:.3}`).
pub open spec fn seconds_text(ms: nat) -> Seq<char> {
    decimal(ms / 1000) + "."@ + zero_padded(decimal(ms % 1000), 3)
}

/// `path` with each `'` written as `'\''` (quoting for the concat demuxer).
pub open spec fn escape_quotes(path: Seq<char>) -> Seq<char>
    decreases path.len(),
{
    if path.len() == 0 {
        Seq::empty()
    } else {
        escape_quotes(path.drop_last()) + if path.last() == '\'' {
            "'\\''"@
        } else {
            seq![path.last()]
        }
    }
}

/// The concat-demuxer lines of the frames, each with the same duration.
pub open spec fn concat_list_spec(seg: Seq<FrameRow>, frame_ms: nat) -> Seq<char>
    decreases seg.len(),
{
    if seg.len() == 0 {
        Seq::empty()
    } else {
        concat_list_spec(seg.drop_last(), frame_ms) + "file '"@ + escape_quotes(seg.last().2@)
            + "'\n"@ + "duration "@ + seconds_text(frame_ms) + "\n"@
    }
}

/// Appends `path` with its single quotes escaped.
fn push_escaped(out: &mut Vec<char>, path: &String)
    ensures
        final(out)@ == old(out)@ + escape_quotes(path@),
{
    let cs = chars_of(path.as_str());
    let ghost start = out@;
    let mut i: usize = 0;
    while i < cs.len()
        invariant
            i <= cs@.len(),
            cs@ == path@,
            out@ == start + escape_quotes(cs@.subrange(0, i as int)),
        decreases cs@.len() - i,
    {
        proof {
            assert(cs@.subrange(0, i as int + 1).drop_last() =~= cs@.subrange(0, i as int));
        }
        if cs[i] == '\'' {
            push_str(out, "'\\''");
        } else {
            out.push(cs[i]);
        }
        i = i + 1;
        proof {
            assert(out@ =~= start + escape_quotes(cs@.subrange(0, i as int)));
        }
    }
    proof {
        assert(cs@.subrange(0, cs@.len() as int) =~= cs@);
    }
}

/// Appends `ms` as seconds with three decimals.
fn push_seconds(out: &mut Vec<char>, ms: u64)
    ensures
        final(out)@ == old(out)@ + seconds_text(ms as nat),
{
    push_decimal(out, ms / 1000);
    push_str(out, ".");
    push_padded(out, ms % 1000, 3);
    proof {
        assert(final(out)@ =~= old(out)@ + seconds_text(ms as nat));
    }
}

/// The FFmpeg concat list of a segment and each frame's offset in the video:
/// every frame is shown for the same duration (see `frame_duration_spec`),
/// so frame `i` starts `i` durations into the video.
pub fn build_concat_list_and_offsets(segment: &Vec<FrameRow>, duration_ms: i64) -> (r: (
    String,
    Vec<(i64, i64)>,
))
    requires
        duration_ms >= 0,
        segment@.len() <= i64::MAX / 1000,
    ensures
        segment@.len() == 0 ==> r.0@.len() == 0 && r.1@.len() == 0,
        segment@.len() > 0 ==> {
            let d = frame_duration_spec(duration_ms as int, segment@.len());
            &&& r.0@ == concat_list_spec(segment@, d as nat)
            &&& r.1@.len() == segment@.len()
            &&& forall|i: int|
                0 <= i < segment@.len() ==> #[trigger] r.1@[i] == (segment@[i].0, (i * d) as i64)
        },
{
    let n = segment.len();
    let mut text: Vec<char> = Vec::new();
    let mut offsets: Vec<(i64, i64)> = Vec::new();
    if n == 0 {
        return (string_from_chars(&text), offsets);
    }
    let share: u128 = (2 * (duration_ms as u128) + n as u128) / (2 * n as u128);
    let d: u64 = if share < 1000 {
        share as u64
    } else {
        1000
    };
    let mut i: usize = 0;
    while i < n
        invariant
            n == segment@.len(),
            n <= i64::MAX / 1000,
            i <= n,
            d <= 1000,
            d == frame_duration_spec(duration_ms as int, n as nat),
            text@ == concat_list_spec(segment@.subrange(0, i as int), d as nat),
            offsets@.len() == i,
            forall|j: int| 0 <= j < i ==> #[trigger] offsets@[j] == (segment@[j].0, (j * d) as i64),
        decreases n - i,
    {
        proof {
            assert(segment@.subrange(0, i as int + 1).drop_last() =~= segment@.subrange(0, i as int));
        }
        push_str(&mut text, "file '");
        push_escaped(&mut text, &segment[i].2);
        push_str(&mut text, "'\n");
        push_str(&mut text, "duration ");
        push_seconds(&mut text, d);
        push_str(&mut text, "\n");
        proof {
            assert(text@ =~= concat_list_spec(segment@.subrange(0, i as int + 1), d as nat));
            assert(i * d <= n * 1000) by (nonlinear_arith)
                requires
                    i <= n,
                    d <= 1000,
            ;
        }
        offsets.push((segment[i].0, (i as i64) * (d as i64)));
        i = i + 1;
    }
    proof {
        assert(segment@.subrange(0, n as int) =~= segment@);
    }
    (string_from_chars(&text), offsets)
}


/// Frames of a segment stored as WebP (by file name, ASCII case ignored).
pub open spec fn has_webp_spec(seg: Seq<FrameRow>) -> bool {
    exists|i: int| 0 <= i < seg.len() && ends_with_seq(ascii_lower_seq(#[trigger] seg[i].2@), ".webp"@)
}

/// Whether a segment holds a WebP frame (whose alpha needs converting).
pub fn segment_has_webp(segment: &Vec<FrameRow>) -> (b: bool)
    ensures
        b == has_webp_spec(segment@),
{
    let suffix = chars_of(".webp");
    let mut i: usize = 0;
    while i < segment.len()
        invariant
            i <= segment@.len(),
            suffix@ == ".webp"@,
            forall|j: int| 0 <= j < i ==> !ends_with_seq(ascii_lower_seq(#[trigger] segment@[j].2@), ".webp"@),
        decreases segment@.len() - i,
    {
        let l = ascii_lowercase(&chars_of(segment[i].2.as_str()));
        if ends_with_chars(&l, &suffix) {
            return true;
        }
        i = i + 1;
    }
    false
}

/// A segment is encoded only when it has at least two frames.
pub fn segment_is_archivable(segment: &Vec<FrameRow>) -> (b: bool)
    ensures
        b == (segment@.len() >= 2),
{
    segment.len() >= 2
}

/// The quality arguments: `-{flag} {quality}` when a quality is set.
pub open spec fn quality_args(quality_flag: Seq<char>, quality: u32) -> Seq<Seq<char>> {
    if quality > 0 {
        seq!["-"@ + quality_flag, decimal(quality as nat)]
    } else {
        Seq::empty()
    }
}

/// FFmpeg arguments that encode a concat list into a video.
pub open spec fn archive_args_spec(
    list_path: Seq<char>,
    has_webp: bool,
    encoder: Seq<char>,
    quality_flag: Seq<char>,
    quality: u32,
    video_path: Seq<char>,
) -> Seq<Seq<char>> {
    seq!["-y"@, "-f"@, "concat"@, "-safe"@, "0"@, "-i"@, list_path] + (if has_webp {
        seq!["-vf"@, "format=yuv420p"@]
    } else {
        Seq::empty()
    }) + seq![
        "-c:v"@,
        encoder,
        "-preset"@,
        "veryfast"@,
        "-vsync"@,
        "vfr"@,
        "-pix_fmt"@,
        "yuv420p"@,
    ] + quality_args(quality_flag, quality) + seq![video_path]
}

fn push_string(v: &mut Vec<String>, s: &str)
    ensures
        string_views(final(v)@) == string_views(old(v)@).push(s@),
{
    let t = s.to_owned();
    v.push(t);
    proof {
        assert(string_views(final(v)@) =~= string_views(old(v)@).push(s@));
    }
}

fn push_quality_args(v: &mut Vec<String>, quality_flag: &str, quality: u32)
    ensures
        string_views(final(v)@) == string_views(old(v)@) + quality_args(quality_flag@, quality),
{
    if quality > 0 {
        let mut f: Vec<char> = Vec::new();
        push_str(&mut f, "-");
        push_str(&mut f, quality_flag);
        let fs = string_from_chars(&f);
        let ghost before = string_views(v@);
        v.push(fs);
        let mut q: Vec<char> = Vec::new();
        push_decimal(&mut q, quality as u64);
        let qs = string_from_chars(&q);
        v.push(qs);
        proof {
            assert(string_views(v@) =~= before + quality_args(quality_flag@, quality));
        }
    } else {
        proof {
            assert(string_views(v@) =~= string_views(v@) + quality_args(quality_flag@, quality));
        }
    }
}

/// The FFmpeg command line that encodes a segment's concat list.
pub fn archive_ffmpeg_args(
    list_path: &str,
    has_webp: bool,
    encoder: &str,
    quality_flag: &str,
    quality: u32,
    video_path: &str,
) -> (r: Vec<String>)
    ensures
        string_views(r@) == archive_args_spec(
            list_path@,
            has_webp,
            encoder@,
            quality_flag@,
            quality,
            video_path@,
        ),
{
    let mut v: Vec<String> = Vec::new();
    push_string(&mut v, "-y");
    push_string(&mut v, "-f");
    push_string(&mut v, "concat");
    push_string(&mut v, "-safe");
    push_string(&mut v, "0");
    push_string(&mut v, "-i");
    push_string(&mut v, list_path);
    let ghost a = string_views(v@);
    if has_webp {
        push_string(&mut v, "-vf");
        push_string(&mut v, "format=yuv420p");
    }
    let ghost b = string_views(v@);
    push_string(&mut v, "-c:v");
    push_string(&mut v, encoder);
    push_string(&mut v, "-preset");
    push_string(&mut v, "veryfast");
    push_string(&mut v, "-vsync");
    push_string(&mut v, "vfr");
    push_string(&mut v, "-pix_fmt");
    push_string(&mut v, "yuv420p");
    let ghost c = string_views(v@);
    push_quality_args(&mut v, quality_flag, quality);
    push_string(&mut v, video_path);
    proof {
        assert(string_views(v@) =~= archive_args_spec(
            list_path@,
            has_webp,
            encoder@,
            quality_flag@,
            quality,
            video_path@,
        ));
    }
    v
}

/// FFmpeg arguments that re-encode an archived video to `temp_path`.
pub open spec fn transcode_args_spec(
    video_path: Seq<char>,
    encoder: Seq<char>,
    quality_flag: Seq<char>,
    quality: u32,
    temp_path: Seq<char>,
) -> Seq<Seq<char>> {
    seq!["-y"@, "-i"@, video_path, "-c:v"@, encoder, "-preset"@, "veryfast"@, "-pix_fmt"@, "yuv420p"@]
        + quality_args(quality_flag, quality) + seq!["-an"@, temp_path]
}

/// The FFmpeg command line that re-encodes an archived video.
pub fn transcode_ffmpeg_args(
    video_path: &str,
    encoder: &str,
    quality_flag: &str,
    quality: u32,
    temp_path: &str,
) -> (r: Vec<String>)
    ensures
        string_views(r@) == transcode_args_spec(
            video_path@,
            encoder@,
            quality_flag@,
            quality,
            temp_path@,
        ),
{
    let mut v: Vec<String> = Vec::new();
    push_string(&mut v, "-y");
    push_string(&mut v, "-i");
    push_string(&mut v, video_path);
    push_string(&mut v, "-c:v");
    push_string(&mut v, encoder);
    push_string(&mut v, "-preset");
    push_string(&mut v, "veryfast");
    push_string(&mut v, "-pix_fmt");
    push_string(&mut v, "yuv420p");
    push_quality_args(&mut v, quality_flag, quality);
    push_string(&mut v, "-an");
    push_string(&mut v, temp_path);
    proof {
        assert(string_views(v@) =~= transcode_args_spec(
            video_path@,
            encoder@,
            quality_flag@,
            quality,
            temp_path@,
        ));
    }
    v
}

/// `ts` joined with `sep`.
pub open spec fn join_with(ts: Seq<Seq<char>>, sep: Seq<char>) -> Seq<char>
    decreases ts.len(),
{
    if ts.len() == 0 {
        Seq::empty()
    } else if ts.len() == 1 {
        ts[0]
    } else {
        join_with(ts.drop_last(), sep) + sep + ts.last()
    }
}

/// The last `n` lines of `text` joined with ` | ` (FFmpeg prints its
/// banner first and the error last).
pub open spec fn stderr_tail_spec(text: Seq<char>, n: nat) -> Seq<char> {
    let ls = lines(text);
    join_with(if ls.len() > n {
        ls.skip(ls.len() - n)
    } else {
        ls
    }, " | "@)
}

/// The last `n` lines of a tool's error output on one line.
pub fn stderr_tail(text: &str, n: usize) -> (r: String)
    ensures
        r@ == stderr_tail_spec(text@, n as nat),
{
    let ls = split_lines(&chars_of(text));
    let len = ls.len();
    let from: usize = if len > n {
        len - n
    } else {
        0
    };
    let ghost kept = views(ls@).subrange(from as int, len as int);
    let mut out: Vec<char> = Vec::new();
    let mut i = from;
    while i < len
        invariant
            from <= i <= len == ls@.len(),
            kept == views(ls@).subrange(from as int, len as int),
            out@ == join_with(views(ls@).subrange(from as int, i as int), " | "@),
        decreases len - i,
    {
        let ghost prev = views(ls@).subrange(from as int, i as int);
        if i > from {
            push_str(&mut out, " | ");
        }
        push_all(&mut out, &ls[i]);
        proof {
            let cur = views(ls@).subrange(from as int, i as int + 1);
            assert(cur.drop_last() =~= prev);
            assert(cur.last() == ls@[i as int]@);
            if i > from {
                assert(out@ =~= join_with(cur, " | "@));
            } else {
                assert(out@ =~= cur[0]);
            }
        }
        i = i + 1;
    }
    proof {
        let ls0 = lines(text@);
        assert(views(ls@) == ls0);
        if ls0.len() > n {
            assert(ls0.skip(ls0.len() - n) =~= kept);
        } else {
            assert(ls0 =~= kept);
        }
    }
    string_from_chars(&out)
}

/// Lines of FFmpeg's error output shown when encoding a segment fails.
pub const FFMPEG_ERROR_LINES: usize = 8;

/// The error of a failed segment encode: `ffmpeg failed: ` and the last
/// lines of FFmpeg's error output.
pub fn ffmpeg_failure_message(stderr: &str) -> (r: String)
    ensures
        r@ == "ffmpeg failed: "@ + stderr_tail_spec(stderr@, 8),
{
    let mut v: Vec<char> = Vec::new();
    push_str(&mut v, "ffmpeg failed: ");
    let t = stderr_tail(stderr, FFMPEG_ERROR_LINES);
    push_str(&mut v, t.as_str());
    string_from_chars(&v)
}

/// Output of `-version` that identifies FFmpeg.
pub open spec fn ffmpeg_version_spec(stdout: Seq<char>, stderr: Seq<char>) -> bool {
    contains_seq(stderr, "ffmpeg version"@) || contains_seq(stdout, "ffmpeg version"@)
}

/// Whether a candidate binary's `-version` output shows it is FFmpeg.
pub fn is_ffmpeg_version_output(stdout: &str, stderr: &str) -> (b: bool)
    ensures
        b == ffmpeg_version_spec(stdout@, stderr@),
{
    let needle = chars_of("ffmpeg version");
    contains_chars(&chars_of(stderr), &needle) || contains_chars(&chars_of(stdout), &needle)
}

/// The trimmed lines of `where ffmpeg.exe` output that name `ffmpeg.exe`,
/// in order.
pub open spec fn where_candidates_spec(ls: Seq<Seq<char>>) -> Seq<Seq<char>>
    decreases ls.len(),
{
    if ls.len() == 0 {
        Seq::empty()
    } else {
        let prev = where_candidates_spec(ls.drop_last());
        let t = trim(ls.last());
        if ends_with_seq(t, "ffmpeg.exe"@) {
            prev.push(t)
        } else {
            prev
        }
    }
}

/// The FFmpeg paths listed by `where ffmpeg.exe`.
pub fn where_ffmpeg_candidates(text: &str) -> (r: Vec<String>)
    ensures
        string_views(r@) == where_candidates_spec(lines(text@)),
{
    let ls = split_lines(&chars_of(text));
    let suffix = chars_of("ffmpeg.exe");
    let mut out: Vec<String> = Vec::new();
    let mut i: usize = 0;
    while i < ls.len()
        invariant
            i <= ls@.len(),
            views(ls@) == lines(text@),
            suffix@ == "ffmpeg.exe"@,
            string_views(out@) == where_candidates_spec(views(ls@).subrange(0, i as int)),
        decreases ls@.len() - i,
    {
        proof {
            assert(views(ls@).subrange(0, i as int + 1).drop_last() =~= views(ls@).subrange(0, i as int));
            assert(views(ls@).subrange(0, i as int + 1).last() == ls@[i as int]@);
        }
        let t = trim_chars(&ls[i]);
        if ends_with_chars(&t, &suffix) {
            let ghost before = string_views(out@);
            let s = string_from_chars(&t);
            out.push(s);
            proof {
                assert(string_views(out@) =~= before.push(s@));
            }
        }
        i = i + 1;
    }
    proof {
        assert(views(ls@).subrange(0, ls@.len() as int) =~= views(ls@));
    }
    out
}

/// Install locations of FFmpeg tried on macOS and on Linux, in order.
pub open spec fn ffmpeg_unix_paths_spec(macos: bool) -> Seq<Seq<char>> {
    if macos {
        seq!["/opt/homebrew/bin/ffmpeg"@, "/usr/local/bin/ffmpeg"@]
    } else {
        seq!["/usr/bin/ffmpeg"@, "/usr/local/bin/ffmpeg"@, "/snap/bin/ffmpeg"@]
    }
}

/// The FFmpeg install locations tried on macOS or Linux after `PATH`.
pub fn ffmpeg_unix_paths(macos: bool) -> (r: Vec<String>)
    ensures
        string_views(r@) == ffmpeg_unix_paths_spec(macos),
{
    let mut v: Vec<String> = Vec::new();
    if macos {
        push_string(&mut v, "/opt/homebrew/bin/ffmpeg");
        push_string(&mut v, "/usr/local/bin/ffmpeg");
    } else {
        push_string(&mut v, "/usr/bin/ffmpeg");
        push_string(&mut v, "/usr/local/bin/ffmpeg");
        push_string(&mut v, "/snap/bin/ffmpeg");
    }
    proof {
        assert(string_views(v@) =~= ffmpeg_unix_paths_spec(macos));
    }
    v
}

} // verus!
