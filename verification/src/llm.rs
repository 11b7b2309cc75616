//! Chat prompts and the framing of streamed chat responses.

use crate::config::AppConfig;
use chrono::TimeZone;
use crate::store::Frame;
use crate::text::{
    chars_of, decimal, push_decimal, push_signed, push_str, signed_decimal, string_from_chars, trim,
    trim_chars, zero_padded,
};
use vstd::prelude::*;

verus! {

/// The built-in assistant system prompt.
pub const SYSTEM_PROMPT: &'static str = "You are ScreenRecall, a helpful assistant that answers questions
about the user's recent computer activity. You are given numbered
context entries taken from OCR of the user's screen at specific times.
Each entry begins with `[i | timestamp | app \u{2014} window title]` followed by the raw OCR text.

Important: You do not receive pixels\u{2014}only text from OCR. The OCR may include
browser chrome: address bar text, tabs, URLs, and page titles often appear as
lines in the block (not always at the top). Small UI text can be misread or
missing. When the user asks about a webpage, URL, or address bar, search the
OCR for URL-like strings (http/https), domain names, and path segments; quote
them exactly when present. If OCR clearly shows no URL for that window, say so.
Do not claim the address bar is \"not visible\" in the image\u{2014}you cannot see images;
only say the URL or bar text is not present in the OCR text.

Use the entries to answer the user's question. Cite the entries you
use by their number in square brackets (e.g. \"[2]\"). If the context
does not contain the answer, say so briefly instead of inventing one.
Be concise.";

/// One chat message.
#[derive(Clone, Debug)]
pub struct ChatMessage {
    /// `system`, `user` or `assistant`.
    pub role: String,
    pub content: String,
}

/// The system prompt in force: the custom prompt from the settings, trimmed,
/// when it is set and not blank; the built-in prompt otherwise.
pub open spec fn effective_prompt_spec(custom: Option<String>) -> Seq<char> {
    match custom {
        Some(p) => if trim(p@).len() > 0 {
            trim(p@)
        } else {
            SYSTEM_PROMPT@
        },
        None => SYSTEM_PROMPT@,
    }
}

/// The resolved assistant system prompt.
pub fn effective_system_prompt(cfg: &AppConfig) -> (r: String)
    ensures
        r@ == effective_prompt_spec(cfg.chat_system_prompt),
{
    match &cfg.chat_system_prompt {
        Some(p) => {
            let t = trim_chars(&chars_of(p.as_str()));
            if t.len() > 0 {
                string_from_chars(&t)
            } else {
                SYSTEM_PROMPT.to_owned()
            }
        },
        None => SYSTEM_PROMPT.to_owned(),
    }
}

/// Number of bytes of `c` in UTF-8.
pub open spec fn utf8_width(c: char) -> nat {
    if (c as u32) < 0x80 {
        1
    } else if (c as u32) < 0x800 {
        2
    } else if (c as u32) < 0x10000 {
        3
    } else {
        4
    }
}

/// Number of bytes of `s` in UTF-8.
pub open spec fn utf8_len(s: Seq<char>) -> nat
    decreases s.len(),
{
    if s.len() == 0 {
        0
    } else {
        utf8_width(s[0]) + utf8_len(s.drop_first())
    }
}

/// Number of leading characters of `s` whose UTF-8 encoding fits in
/// `budget` bytes.
pub open spec fn fitting_chars(s: Seq<char>, budget: int) -> nat
    decreases s.len(),
{
    if s.len() == 0 || utf8_width(s[0]) > budget {
        0
    } else {
        1 + fitting_chars(s.drop_first(), budget - utf8_width(s[0]))
    }
}

/// `s` cut to at most `max` UTF-8 bytes without splitting a character: the
/// longest prefix of `s` that fits.
pub open spec fn truncate_spec(s: Seq<char>, max: nat) -> Seq<char> {
    if utf8_len(s) <= max {
        s
    } else {
        s.take(fitting_chars(s, max as int) as int)
    }
}

/// Bytes of `c` in UTF-8.
fn char_width(c: char) -> (w: usize)
    ensures
        w == utf8_width(c),
{
    let u = c as u32;
    if u < 0x80 {
        1
    } else if u < 0x800 {
        2
    } else if u < 0x10000 {
        3
    } else {
        4
    }
}

proof fn lemma_fitting_le(s: Seq<char>, budget: int)
    ensures
        fitting_chars(s, budget) <= s.len(),
    decreases s.len(),
{
    if s.len() > 0 && utf8_width(s[0]) <= budget {
        lemma_fitting_le(s.drop_first(), budget - utf8_width(s[0]));
    }
}

proof fn lemma_fitting_prefix(s: Seq<char>, budget: int)
    requires
        budget >= 0,
    ensures
        utf8_len(s.take(fitting_chars(s, budget) as int)) <= budget,
        fitting_chars(s, budget) < s.len() ==> utf8_len(
            s.take(fitting_chars(s, budget) as int + 1),
        ) > budget,
    decreases s.len(),
{
    lemma_fitting_le(s, budget);
    let k = fitting_chars(s, budget) as int;
    if s.len() == 0 || utf8_width(s[0]) > budget {
        assert(s.take(0).len() == 0);
        if s.len() > 0 {
            let t = s.take(1);
            assert(t.drop_first().len() == 0);
            assert(utf8_len(t.drop_first()) == 0);
        }
    } else {
        let w = utf8_width(s[0]);
        let rest = s.drop_first();
        lemma_fitting_prefix(rest, budget - w);
        let n = fitting_chars(rest, budget - w) as int;
        assert(s.take(n + 1).drop_first() =~= rest.take(n));
        assert(s.take(n + 1)[0] == s[0]);
        if k < s.len() {
            assert(s.take(n + 2).drop_first() =~= rest.take(n + 1));
            assert(s.take(n + 2)[0] == s[0]);
        }
    }
}

/// A cut text keeps at most `max` bytes of UTF-8 and never splits a
/// character: it is a prefix of the text that fits, and one more character
/// would not fit. Text that already fits is returned unchanged.
pub proof fn lemma_truncate_fits(s: Seq<char>, max: nat)
    ensures
        utf8_len(truncate_spec(s, max)) <= max,
        truncate_spec(s, max) == s.take(truncate_spec(s, max).len() as int),
        utf8_len(s) <= max ==> truncate_spec(s, max) == s,
        utf8_len(s) > max ==> ({
            let k = fitting_chars(s, max as int) as int;
            &&& k < s.len()
            &&& truncate_spec(s, max) == s.take(k)
            &&& utf8_len(s.take(k + 1)) > max
        }),
{
    lemma_fitting_prefix(s, max as int);
    lemma_fitting_le(s, max as int);
    if utf8_len(s) > max {
        let k = fitting_chars(s, max as int) as int;
        if k == s.len() {
            assert(s.take(k) =~= s);
        }
        assert(s.take(k).len() == k);
    } else {
        assert(s.take(s.len() as int) =~= s);
    }
}

/// Truncates `s` to at most `max` UTF-8 bytes on a character boundary.
pub fn truncate(s: &str, max: usize) -> (r: String)
    ensures
        r@ == truncate_spec(s@, max as nat),
        utf8_len(r@) <= max,
        r@ == s@.take(r@.len() as int),
{
    proof {
        lemma_truncate_fits(s@, max as nat);
    }
    let cs = chars_of(s);
    let n = cs.len();
    let mut i: usize = 0;
    let mut used: usize = 0;
    proof {
        assert(cs@.skip(0) =~= cs@);
    }
    while i < n
        invariant
            n == cs@.len(),
            cs@ == s@,
            i <= n,
            used <= max,
            utf8_len(cs@) == used + utf8_len(cs@.skip(i as int)),
            fitting_chars(cs@, max as int) == i + fitting_chars(cs@.skip(i as int), max - used),
        decreases n - i,
    {
        let w = char_width(cs[i]);
        proof {
            let t = cs@.skip(i as int);
            assert(t.drop_first() =~= cs@.skip(i as int + 1));
            assert(t[0] == cs@[i as int]);
        }
        if w > max - used {
            proof {
                let t = cs@.skip(i as int);
                assert(fitting_chars(t, max - used) == 0);
                assert(utf8_len(cs@) > max);
            }
            let out = slice_prefix(&cs, i);
            proof {
                assert(out@ == truncate_spec(s@, max as nat));
                lemma_truncate_fits(s@, max as nat);
            }
            return string_from_chars(&out);
        }
        used = used + w;
        i = i + 1;
    }
    proof {
        assert(cs@.skip(n as int).len() == 0);
        assert(utf8_len(cs@) == used);
    }
    s.to_owned()
}

/// Copy of the first `k` characters.
fn slice_prefix(s: &Vec<char>, k: usize) -> (v: Vec<char>)
    requires
        k <= s@.len(),
    ensures
        v@ == s@.take(k as int),
{
    let v = crate::text::slice_to_vec(s, 0, k);
    proof {
        assert(s@.subrange(0, k as int) =~= s@.take(k as int));
    }
    v
}


/// `until - ts`, saturated to the `i64` range (std's `i64::saturating_sub`).
pub open spec fn held_ms_spec(until: i64, ts: i64) -> int {
    let d = until - ts;
    if d > i64::MAX {
        i64::MAX as int
    } else if d < i64::MIN {
        i64::MIN as int
    } else {
        d
    }
}

/// The time label of a context entry: the rendered capture time, plus how
/// long the screen stayed unchanged when that exceeds two seconds.
pub open spec fn time_label(f: Frame, when: Seq<char>) -> Seq<char> {
    let held = held_ms_spec(f.static_until_ms, f.ts);
    if held > 2000 {
        when + " \u{b7} static ~"@ + decimal((held / 1000) as nat) + "s"@
    } else {
        when
    }
}

/// The application shown for a frame (`—` when unknown).
pub open spec fn app_label(f: Frame) -> Seq<char> {
    match f.app {
        Some(a) => a@,
        None => "\u{2014}"@,
    }
}

/// The window title shown for a frame (empty when unknown).
pub open spec fn title_label(f: Frame) -> Seq<char> {
    match f.window_title {
        Some(t) => t@,
        None => Seq::empty(),
    }
}

/// Context entry `i` (0-based): its header, then the frame's OCR text cut to
/// 4000 bytes, or a placeholder when there is none.
pub open spec fn context_entry(i: nat, f: Frame, ocr: Option<String>, when: Seq<char>) -> Seq<
    char,
> {
    "["@ + decimal(i + 1) + " | "@ + time_label(f, when) + " | "@ + app_label(f) + " \u{2014} "@
        + title_label(f) + "]\n"@ + match ocr {
        Some(t) => truncate_spec(t@, 4000) + "\n\n"@,
        None => "(no OCR text)\n\n"@,
    }
}

/// All context entries, in order.
pub open spec fn context_entries(frames: Seq<(Frame, Option<String>)>, times: Seq<Seq<char>>) -> Seq<
    char,
>
    decreases frames.len(),
{
    if frames.len() == 0 {
        Seq::empty()
    } else {
        let k = (frames.len() - 1) as nat;
        context_entries(frames.drop_last(), times) + context_entry(
            k,
            frames[k as int].0,
            frames[k as int].1,
            times[k as int],
        )
    }
}

/// The user message: the retrieved frames as numbered context, then the
/// question.
pub open spec fn user_message_spec(
    query: Seq<char>,
    frames: Seq<(Frame, Option<String>)>,
    times: Seq<Seq<char>>,
) -> Seq<char> {
    "Context:\n"@ + context_entries(frames, times) + "Question: "@ + query
}

/// The header of a context entry shows the frame's window title exactly as
/// recorded, and nothing when the frame has none.
pub proof fn lemma_title_label_is_window_title(f: Frame)
    ensures
        f.window_title matches Some(t) ==> title_label(f) == t@,
        f.window_title is None ==> title_label(f).len() == 0,
{
}

/// A context entry for a frame with an application `a` and a window title
/// `t`, shown for at most two seconds, is `[n | time | a — t]` on its own
/// line (with `n` the entry's 1-based number), followed by the frame's OCR
/// text cut to 4000 bytes and a blank line, or by a placeholder line.
pub proof fn lemma_context_entry_shows_frame(
    i: nat,
    f: Frame,
    ocr: Option<String>,
    when: Seq<char>,
    a: String,
    t: String,
)
    requires
        f.app == Some(a),
        f.window_title == Some(t),
        f.static_until_ms as int - f.ts as int <= 2000,
    ensures
        context_entry(i, f, ocr, when) == "["@ + decimal(i + 1) + " | "@ + when + " | "@ + a@
            + " \u{2014} "@ + t@ + "]\n"@ + match ocr {
            Some(o) => truncate_spec(o@, 4000) + "\n\n"@,
            None => "(no OCR text)\n\n"@,
        },
{
}

/// The user message for a single frame with an application `a`, a window
/// title `t` and OCR text `o`, shown for at most two seconds at time `w`, is
/// `Context:`, the entry `[1 | w | a — t]` with the text cut to 4000 bytes,
/// a blank line, and the question.
pub proof fn lemma_user_message_one_frame(
    query: Seq<char>,
    f: Frame,
    o: String,
    w: Seq<char>,
    a: String,
    t: String,
)
    requires
        f.app == Some(a),
        f.window_title == Some(t),
        f.static_until_ms as int - f.ts as int <= 2000,
    ensures
        user_message_spec(query, seq![(f, Some(o))], seq![w]) == "Context:\n[1 | "@ + w + " | "@
            + a@ + " \u{2014} "@ + t@ + "]\n"@ + truncate_spec(o@, 4000) + "\n\nQuestion: "@
            + query,
{
    let frames = seq![(f, Some(o))];
    let ws = seq![w];
    assert(frames.drop_last() =~= Seq::<(Frame, Option<String>)>::empty());
    assert(context_entries(frames.drop_last(), ws) == Seq::<char>::empty());
    let e = context_entry(0, f, Some(o), w);
    assert(context_entries(frames, ws) =~= e);
    lemma_context_entry_shows_frame(0, f, Some(o), w, a, t);
    assert(decimal(1) == seq!['1']);
    reveal_strlit("Context:\n[1 | ");
    reveal_strlit("Context:\n");
    reveal_strlit("[");
    reveal_strlit(" | ");
    reveal_strlit("\n\nQuestion: ");
    reveal_strlit("\n\n");
    reveal_strlit("Question: ");
    assert("Context:\n"@ + "["@ + decimal(1) + " | "@ =~= "Context:\n[1 | "@);
    assert("\n\n"@ + "Question: "@ =~= "\n\nQuestion: "@);
    assert(user_message_spec(query, frames, ws) =~= "Context:\n[1 | "@ + w + " | "@ + a@
        + " \u{2014} "@ + t@ + "]\n"@ + truncate_spec(o@, 4000) + "\n\nQuestion: "@ + query);
}

/// Appends the time label of a frame.
fn push_time_label(out: &mut Vec<char>, f: &Frame, when: &String)
    ensures
        final(out)@ == old(out)@ + time_label(*f, when@),
{
    push_str(out, when.as_str());
    let d: i128 = f.static_until_ms as i128 - f.ts as i128;
    let held: i64 = if d > i64::MAX as i128 {
        i64::MAX
    } else if d < i64::MIN as i128 {
        i64::MIN
    } else {
        d as i64
    };
    if held > 2000 {
        push_str(out, " \u{b7} static ~");
        push_decimal(out, (held / 1000) as u64);
        push_str(out, "s");
    }
    proof {
        assert(out@ =~= old(out)@ + time_label(*f, when@));
    }
}

/// Appends context entry `i`.
fn push_context_entry(
    out: &mut Vec<char>,
    i: usize,
    frame: &Frame,
    ocr: &Option<String>,
    when: &String,
)
    requires
        i < u64::MAX,
    ensures
        final(out)@ == old(out)@ + context_entry(i as nat, *frame, *ocr, when@),
{
    push_str(out, "[");
    push_decimal(out, (i as u64) + 1);
    push_str(out, " | ");
    push_time_label(out, frame, when);
    push_str(out, " | ");
    match &frame.app {
        Some(a) => push_str(out, a.as_str()),
        None => push_str(out, "\u{2014}"),
    }
    push_str(out, " \u{2014} ");
    match &frame.window_title {
        Some(t) => push_str(out, t.as_str()),
        None => {},
    }
    push_str(out, "]\n");
    match ocr {
        Some(text) => {
            let t = truncate(text.as_str(), 4000);
            push_str(out, t.as_str());
            push_str(out, "\n\n");
        },
        None => push_str(out, "(no OCR text)\n\n"),
    }
    proof {
        assert(out@ =~= old(out)@ + context_entry(i as nat, *frame, *ocr, when@));
    }
}

/// Builds the user message from frames and their rendered capture times.
pub fn build_user_message_at(
    query: &str,
    frames: &Vec<(Frame, Option<String>)>,
    times: &Vec<String>,
) -> (r: String)
    requires
        times@.len() == frames@.len(),
    ensures
        r@ == user_message_spec(query@, frames@, times@.map_values(|t: String| t@)),
{
    let ghost tv = times@.map_values(|t: String| t@);
    let mut out: Vec<char> = Vec::new();
    push_str(&mut out, "Context:\n");
    let mut i: usize = 0;
    while i < frames.len()
        invariant
            i <= frames@.len(),
            times@.len() == frames@.len(),
            tv == times@.map_values(|t: String| t@),
            out@ == "Context:\n"@ + context_entries(frames@.subrange(0, i as int), tv),
        decreases frames@.len() - i,
    {
        let ghost before = out@;
        let (frame, ocr) = &frames[i];
        push_context_entry(&mut out, i, frame, ocr, &times[i]);
        proof {
            let sub = frames@.subrange(0, i as int + 1);
            assert(sub.drop_last() =~= frames@.subrange(0, i as int));
            assert(sub[i as int] == frames@[i as int]);
            assert(tv[i as int] == times@[i as int]@);
        }
        i = i + 1;
    }
    push_str(&mut out, "Question: ");
    push_str(&mut out, query);
    proof {
        assert(frames@.subrange(0, frames@.len() as int) =~= frames@);
        assert(out@ =~= user_message_spec(query@, frames@, tv));
    }
    string_from_chars(&out)
}

/// `c` is an ASCII digit.
pub open spec fn is_ascii_digit(c: char) -> bool {
    '0' <= c && c <= '9'
}

/// An RFC 3339 offset field: `+HH:MM` or `-HH:MM`.
pub open spec fn is_offset_field(t: Seq<char>) -> bool {
    &&& t.len() == 6
    &&& (t[0] == '+' || t[0] == '-')
    &&& is_ascii_digit(t[1]) && is_ascii_digit(t[2])
    &&& t[3] == ':'
    &&& is_ascii_digit(t[4]) && is_ascii_digit(t[5])
}

/// What holds of the local RFC 3339 rendering of the instant `ms` in every
/// time zone: at least a date, a time and an offset long; it ends with the
/// offset field, preceded by `.mmm` (the milliseconds of the instant) when
/// the instant is not a whole second, and by a digit of the seconds when it
/// is.
pub open spec fn local_rendering_shape(s: Seq<char>, ms: i64) -> bool {
    let n = s.len() as int;
    &&& n >= 25
    &&& is_offset_field(s.subrange(n - 6, n))
    &&& if ms % 1000 != 0 {
        s.subrange(n - 10, n - 6) == "."@ + zero_padded(decimal((ms % 1000) as nat), 3)
    } else {
        is_ascii_digit(s[n - 7])
    }
}

/// Instants more than this many milliseconds from the epoch lie outside
/// chrono's calendar (years -262143 to 262142).
pub const CHRONO_MS_BOUND: i64 = 9_000_000_000_000_000;

/// A frame time rendered in the local time zone as RFC 3339 (chrono's
/// `Local.timestamp_millis_opt(ts).single()` then `to_rfc3339`). The
/// contract states what holds in every time zone: `None` for instants
/// outside chrono's calendar, a rendering from the epoch to the end of year
/// 9999, and the shape of the rendering's end (milliseconds and offset
/// field). The date, time and offset digits depend on the machine's time
/// zone and are not stated.
#[verifier::external_body]
fn local_rfc3339(ts_ms: i64) -> (r: Option<String>)
    ensures
        match r {
            Some(s) => local_rendering_shape(s@, ts_ms),
            None => true,
        },
        ts_ms < -CHRONO_MS_BOUND || ts_ms > CHRONO_MS_BOUND ==> r is None,
        0 <= ts_ms <= 253402300799999 ==> r is Some,
{
    chrono::Local.timestamp_millis_opt(ts_ms).single().map(|d| d.to_rfc3339())
}

/// The rendered capture time of a frame from its local rendering: that
/// rendering when there is one, else the raw unix milliseconds.
pub fn frame_time_text(local: Option<String>, ts_ms: i64) -> (r: String)
    ensures
        match local {
            Some(s) => r@ == s@,
            None => r@ == signed_decimal(ts_ms as int),
        },
{
    match local {
        Some(s) => s,
        None => {
            let mut v: Vec<char> = Vec::new();
            push_signed(&mut v, ts_ms);
            string_from_chars(&v)
        },
    }
}

/// What the rendered capture time `t` of an instant `ts` can be, in every
/// time zone: the raw unix milliseconds or a local RFC 3339 rendering; the
/// raw milliseconds outside chrono's calendar, and a local rendering from the
/// epoch to the end of year 9999.
pub open spec fn possible_frame_time(t: Seq<char>, ts: i64) -> bool {
    &&& t == signed_decimal(ts as int) || local_rendering_shape(t, ts)
    &&& ts < -CHRONO_MS_BOUND || ts > CHRONO_MS_BOUND ==> t == signed_decimal(ts as int)
    &&& 0 <= ts <= 253402300799999 ==> local_rendering_shape(t, ts)
}

/// The rendered capture time of a frame: local RFC 3339, or the raw unix
/// milliseconds when the time cannot be rendered (see `frame_time_text`).
/// The digits of the local rendering depend on the machine's time zone; what
/// holds in every zone is stated.
pub fn frame_time(ts_ms: i64) -> (r: String)
    ensures
        r@ == signed_decimal(ts_ms as int) || local_rendering_shape(r@, ts_ms),
        ts_ms < -CHRONO_MS_BOUND || ts_ms > CHRONO_MS_BOUND ==> r@ == signed_decimal(ts_ms as int),
        0 <= ts_ms <= 253402300799999 ==> local_rendering_shape(r@, ts_ms),
{
    frame_time_text(local_rfc3339(ts_ms), ts_ms)
}

/// Builds the user message, rendering each frame's capture time in the
/// local time zone: the time of entry `i` is a possible rendering of frame
/// `i`'s capture time.
pub fn build_user_message(query: &str, frames: &Vec<(Frame, Option<String>)>) -> (r: String)
    ensures
        exists|times: Seq<Seq<char>>|
            times.len() == frames@.len() && (forall|i: int|
                0 <= i < times.len() ==> possible_frame_time(
                    #[trigger] times[i],
                    frames@[i].0.ts,
                )) && r@ == user_message_spec(query@, frames@, times),
{
    let mut times: Vec<String> = Vec::new();
    let mut i: usize = 0;
    while i < frames.len()
        invariant
            i <= frames@.len(),
            times@.len() == i,
            forall|j: int|
                0 <= j < i ==> possible_frame_time(#[trigger] times@[j]@, frames@[j].0.ts),
        decreases frames@.len() - i,
    {
        times.push(frame_time(frames[i].0.ts));
        i = i + 1;
    }
    let r = build_user_message_at(query, frames, &times);
    proof {
        let tv = times@.map_values(|t: String| t@);
        assert forall|i: int| 0 <= i < tv.len() implies possible_frame_time(
            #[trigger] tv[i],
            frames@[i].0.ts,
        ) by {
            assert(tv[i] == times@[i]@);
        }
    }
    r
}

/// Number of frames retrieved as chat context: the requested number, at
/// least one.
pub fn retrieval_k(k: usize) -> (r: usize)
    ensures
        r == (if k < 1 {
            1
        } else {
            k
        }),
{
    if k < 1 {
        1
    } else {
        k
    }
}

/// The messages of a chat request: the system prompt in force, then the
/// user message built from the question and the retrieved frames.
pub fn chat_messages(cfg: &AppConfig, prompt: &str, ctx: &Vec<(Frame, Option<String>)>) -> (r: Vec<
    ChatMessage,
>)
    ensures
        r@.len() == 2,
        r@[0].role@ == "system"@,
        r@[0].content@ == effective_prompt_spec(cfg.chat_system_prompt),
        r@[1].role@ == "user"@,
        exists|times: Seq<Seq<char>>|
            times.len() == ctx@.len() && (forall|i: int|
                0 <= i < times.len() ==> possible_frame_time(#[trigger] times[i], ctx@[i].0.ts))
                && r@[1].content@ == user_message_spec(prompt@, ctx@, times),
{
    let system = ChatMessage { role: "system".to_owned(), content: effective_system_prompt(cfg) };
    let user = ChatMessage { role: "user".to_owned(), content: build_user_message(prompt, ctx) };
    let mut v: Vec<ChatMessage> = Vec::new();
    v.push(system);
    v.push(user);
    v
}

/// Seconds a chat stream may take before it is abandoned.
pub const CHAT_STREAM_TIMEOUT_SECS: u64 = 300;

/// The error reported when a chat stream times out.
pub fn chat_timeout_message() -> (r: String)
    ensures
        r@ == "Chat timed out after "@ + decimal(CHAT_STREAM_TIMEOUT_SECS as nat)
            + "s (no complete response from the model)"@,
{
    let mut v: Vec<char> = Vec::new();
    push_str(&mut v, "Chat timed out after ");
    push_decimal(&mut v, CHAT_STREAM_TIMEOUT_SECS);
    push_str(&mut v, "s (no complete response from the model)");
    string_from_chars(&v)
}

} // verus!
