//! Framing of streamed chat completions: Ollama sends newline-delimited
//! JSON, OpenAI-compatible servers send server-sent events
//! (`data: <json>` blocks separated by a blank line). The functions here cut
//! complete frames off the receive buffer and pick out what is forwarded.

use crate::config::{AppConfig, LlmBackend};
use crate::embed::{endpoint_spec, endpoint_url};
use crate::text::{
    chars_of, lines, split_lines, starts_with_chars, starts_with_seq, string_from_chars,
    string_views, trim, trim_chars, views, slice_to_vec, eq_chars,
};
use vstd::prelude::*;

verus! {

/// Largest receive buffer tolerated without a complete frame, bytes.
pub const MAX_STREAM_SCRATCH_BYTES: usize = 8388608;

/// Whether a receive buffer of `len` bytes has outgrown the limit (the
/// stream is then treated as malformed).
pub fn buffer_exceeds_limit(len: usize) -> (b: bool)
    ensures
        b == (len > MAX_STREAM_SCRATCH_BYTES),
{
    len > MAX_STREAM_SCRATCH_BYTES
}

/// A blank line (`\n\n`) starts at `i` of `b`.
pub open spec fn double_newline_at(b: Seq<u8>, i: int) -> bool {
    0 <= i && i + 1 < b.len() && b[i] == 10 && b[i + 1] == 10
}

/// The position of the first `\n\n` in `buf`.
pub fn find_double_newline(buf: &[u8]) -> (r: Option<usize>)
    ensures
        match r {
            Some(i) => double_newline_at(buf@, i as int) && forall|j: int|
                0 <= j < i ==> !double_newline_at(buf@, j),
            None => forall|j: int| !double_newline_at(buf@, j),
        },
{
    let n = buf.len();
    let mut i: usize = 0;
    while n > 0 && i < n - 1
        invariant
            n == buf@.len(),
            forall|j: int| 0 <= j < i ==> !double_newline_at(buf@, j),
        decreases n - i,
    {
        if buf[i] == 10 && buf[i + 1] == 10 {
            return Some(i);
        }
        i = i + 1;
    }
    None
}

/// The first line feed of `b` is at `i`.
pub open spec fn first_newline_at(b: Seq<u8>, i: int) -> bool {
    0 <= i < b.len() && b[i] == 10 && forall|j: int| 0 <= j < i ==> b[j] != 10
}

/// Moves `b[0..k]` out of `buf`, leaving `b[k..]`.
fn split_off_front(buf: &mut Vec<u8>, k: usize) -> (front: Vec<u8>)
    requires
        k <= old(buf)@.len(),
    ensures
        front@ == old(buf)@.take(k as int),
        final(buf)@ == old(buf)@.skip(k as int),
{
    let mut front: Vec<u8> = Vec::new();
    let mut rest: Vec<u8> = Vec::new();
    let mut i: usize = 0;
    while i < buf.len()
        invariant
            k <= buf@.len(),
            i <= buf@.len(),
            i <= k ==> front@ == buf@.take(i as int) && rest@.len() == 0,
            i > k ==> front@ == buf@.take(k as int) && rest@ == buf@.subrange(k as int, i as int),
        decreases buf@.len() - i,
    {
        if i < k {
            front.push(buf[i]);
        } else {
            rest.push(buf[i]);
        }
        i = i + 1;
        proof {
            if i <= k {
                assert(front@ =~= buf@.take(i as int));
            } else {
                assert(rest@ =~= buf@.subrange(k as int, i as int));
                assert(front@ =~= buf@.take(k as int));
            }
        }
    }
    proof {
        assert(rest@ =~= buf@.skip(k as int));
    }
    *buf = rest;
    front
}

/// Cuts the first complete line of newline-delimited JSON off `buf`: the
/// bytes before the first line feed, which is dropped with them. Without a
/// line feed nothing changes.
pub fn take_ndjson_line(buf: &mut Vec<u8>) -> (r: Option<Vec<u8>>)
    ensures
        match r {
            Some(line) => exists|i: int|
                first_newline_at(old(buf)@, i) && line@ == old(buf)@.take(i) && final(buf)@ == old(
                    buf,
                )@.skip(i + 1),
            None => final(buf)@ == old(buf)@ && forall|j: int|
                0 <= j < old(buf)@.len() ==> old(buf)@[j] != 10,
        },
{
    let n = buf.len();
    let mut i: usize = 0;
    while i < n
        invariant
            n == buf@.len(),
            buf@ == old(buf)@,
            i <= n,
            forall|j: int| 0 <= j < i ==> buf@[j] != 10,
        decreases n - i,
    {
        if buf[i] == 10 {
            let ghost b0 = buf@;
            let mut line = split_off_front(buf, i + 1);
            line.pop();
            proof {
                assert(first_newline_at(b0, i as int));
                assert(line@ =~= b0.take(i as int));
                assert(first_newline_at(old(buf)@, i as int) && line@ == old(buf)@.take(i as int)
                    && buf@ == old(buf)@.skip(i as int + 1));
            }
            return Some(line);
        }
        i = i + 1;
    }
    None
}

/// Cuts the first complete server-sent event off `buf`: everything up to
/// and including the first blank line. Without one nothing changes.
pub fn take_sse_event(buf: &mut Vec<u8>) -> (r: Option<Vec<u8>>)
    ensures
        match r {
            Some(ev) => exists|i: int|
                double_newline_at(old(buf)@, i) && (forall|j: int|
                    0 <= j < i ==> !double_newline_at(old(buf)@, j)) && ev@ == old(buf)@.take(i + 2)
                    && final(buf)@ == old(buf)@.skip(i + 2),
            None => final(buf)@ == old(buf)@ && forall|j: int| !double_newline_at(old(buf)@, j),
        },
{
    let len = buf.len();
    let slice = buf.as_slice();
    let found = find_double_newline(slice);
    match found {
        Some(end) => {
            let ghost b0 = buf@;
            assert(end + 2 <= len);
            assert(double_newline_at(b0, end as int));
            let ev = split_off_front(buf, end + 2);
            proof {
                assert(double_newline_at(old(buf)@, end as int) && (forall|j: int|
                    0 <= j < end ==> !double_newline_at(old(buf)@, j)) && ev@ == old(buf)@.take(
                    end + 2,
                ) && buf@ == old(buf)@.skip(end + 2));
            }
            Some(ev)
        },
        None => None,
    }
}

/// Cutting a frame off the receive buffer loses no bytes: a line, its line
/// feed and what remains make up the old buffer again, and so do an event
/// (with its blank line) and what remains.
pub proof fn lemma_framing_loses_nothing(b: Seq<u8>, i: int)
    ensures
        first_newline_at(b, i) ==> b.take(i).push(10u8) + b.skip(i + 1) == b,
        double_newline_at(b, i) ==> b.take(i + 2) + b.skip(i + 2) == b,
{
    if first_newline_at(b, i) {
        assert(b.take(i).push(10u8) + b.skip(i + 1) =~= b);
    }
    if double_newline_at(b, i) {
        assert(b.take(i + 2) + b.skip(i + 2) =~= b);
    }
}

/// What one server-sent event carries: the JSON payloads of its `data: `
/// lines in order, and whether a `data: [DONE]` line ended the stream (no
/// payload after it is taken).
pub open spec fn sse_scan(ls: Seq<Seq<char>>) -> (Seq<Seq<char>>, bool)
    decreases ls.len(),
{
    if ls.len() == 0 {
        (Seq::empty(), false)
    } else {
        let (ps, done) = sse_scan(ls.drop_last());
        let l = ls.last();
        if done || !starts_with_seq(l, "data: "@) {
            (ps, done)
        } else if trim(l.skip(6)) == "[DONE]"@ {
            (ps, true)
        } else {
            (ps.push(l.skip(6)), false)
        }
    }
}

/// The payloads of one event and whether the stream ended.
#[derive(Clone, Debug)]
pub struct SseEvent {
    pub payloads: Vec<String>,
    pub done: bool,
}

/// Reads the `data: ` lines of one server-sent event.
pub fn sse_data_lines(event: &str) -> (r: SseEvent)
    ensures
        (string_views(r.payloads@), r.done) == sse_scan(lines(event@)),
{
    let ls = split_lines(&chars_of(event));
    let prefix = chars_of("data: ");
    let done_word = chars_of("[DONE]");
    let mut payloads: Vec<String> = Vec::new();
    let mut done = false;
    let mut i: usize = 0;
    while i < ls.len()
        invariant
            i <= ls@.len(),
            views(ls@) == lines(event@),
            prefix@ == "data: "@,
            done_word@ == "[DONE]"@,
            (string_views(payloads@), done) == sse_scan(views(ls@).subrange(0, i as int)),
        decreases ls@.len() - i,
    {
        proof {
            assert(views(ls@).subrange(0, i as int + 1).drop_last() =~= views(ls@).subrange(
                0,
                i as int,
            ));
            assert(views(ls@).subrange(0, i as int + 1).last() == ls@[i as int]@);
        }
        let l = &ls[i];
        if !done && starts_with_chars(l, &prefix) {
            proof {
                reveal_strlit("data: ");
            }
            let data = slice_to_vec(l, 6, l.len());
            let t = trim_chars(&data);
            proof {
                assert(data@ =~= l@.skip(6));
            }
            if eq_chars(&t, &done_word) {
                done = true;
            } else {
                let ghost before = string_views(payloads@);
                let p = string_from_chars(&data);
                payloads.push(p);
                proof {
                    assert(string_views(payloads@) =~= before.push(p@));
                    assert(!(t@ == "[DONE]"@)) by {
                        if t@ == "[DONE]"@ {
                            assert(t@ =~= done_word@);
                        }
                    }
                }
            }
        }
        i = i + 1;
    }
    proof {
        assert(views(ls@).subrange(0, ls@.len() as int) =~= views(ls@));
    }
    SseEvent { payloads, done }
}

/// What a parsed Ollama chunk leads to: the message text to forward (only
/// when not empty), and whether the stream is finished.
pub fn ollama_chunk_action(content: Option<String>, done: bool) -> (r: (Option<String>, bool))
    ensures
        r.1 == done,
        match content {
            Some(c) => if c@.len() > 0 {
                r.0 == Some(c)
            } else {
                r.0 is None
            },
            None => r.0 is None,
        },
{
    match content {
        Some(c) => {
            if !c.as_str().is_empty() {
                (Some(c), done)
            } else {
                (None, done)
            }
        },
        None => (None, done),
    }
}

/// The non-empty delta texts of a parsed OpenAI-style chunk, in order.
pub open spec fn nonempty_deltas_spec(ds: Seq<Option<String>>) -> Seq<Seq<char>>
    decreases ds.len(),
{
    if ds.len() == 0 {
        Seq::empty()
    } else {
        let prev = nonempty_deltas_spec(ds.drop_last());
        match ds.last() {
            Some(d) => if d@.len() > 0 {
                prev.push(d@)
            } else {
                prev
            },
            None => prev,
        }
    }
}

/// The delta texts to forward from the choices of one chunk.
pub fn nonempty_deltas(deltas: Vec<Option<String>>) -> (r: Vec<String>)
    ensures
        string_views(r@) == nonempty_deltas_spec(deltas@),
{
    let mut out: Vec<String> = Vec::new();
    let mut i: usize = 0;
    while i < deltas.len()
        invariant
            i <= deltas@.len(),
            string_views(out@) == nonempty_deltas_spec(deltas@.subrange(0, i as int)),
        decreases deltas@.len() - i,
    {
        proof {
            assert(deltas@.subrange(0, i as int + 1).drop_last() =~= deltas@.subrange(0, i as int));
        }
        match &deltas[i] {
            Some(d) => {
                if !d.as_str().is_empty() {
                    let ghost before = string_views(out@);
                    let c = d.clone();
                    out.push(c);
                    proof {
                        assert(string_views(out@) =~= before.push(c@));
                    }
                }
            },
            None => {},
        }
        i = i + 1;
    }
    proof {
        assert(deltas@.subrange(0, deltas@.len() as int) =~= deltas@);
    }
    out
}

/// Which chat server a configuration uses.
#[derive(Clone, Debug)]
pub enum ChatRoute {
    /// Ollama's `/api/chat` (newline-delimited JSON).
    Ollama { base_url: String, model: String },
    /// An OpenAI-compatible `/chat/completions` (server-sent events).
    OpenAi { base_url: String, api_key: String, model: String },
}

/// The chat server for a configuration (the choice made when a chat
/// client is built).
pub fn chat_route(cfg: &AppConfig) -> (r: ChatRoute)
    ensures
        match r {
            ChatRoute::Ollama { base_url, model } => cfg.llm_backend == LlmBackend::Ollama
                && base_url@ == cfg.ollama_url@ && model@ == cfg.chat_model@,
            ChatRoute::OpenAi { base_url, api_key, model } => cfg.llm_backend == LlmBackend::Openai
                && base_url@ == cfg.openai_base_url@ && api_key@ == cfg.openai_api_key@ && model@
                == cfg.chat_model@,
        },
{
    match cfg.llm_backend {
        LlmBackend::Ollama => ChatRoute::Ollama {
            base_url: cfg.ollama_url.clone(),
            model: cfg.chat_model.clone(),
        },
        LlmBackend::Openai => ChatRoute::OpenAi {
            base_url: cfg.openai_base_url.clone(),
            api_key: cfg.openai_api_key.clone(),
            model: cfg.chat_model.clone(),
        },
    }
}

/// Ollama's chat endpoint under `base`.
pub fn ollama_chat_url(base: &str) -> (r: String)
    ensures
        r@ == endpoint_spec(base@, "/api/chat"@),
{
    endpoint_url(base, "/api/chat")
}

/// The OpenAI-compatible chat endpoint under `base`.
pub fn openai_chat_url(base: &str) -> (r: String)
    ensures
        r@ == endpoint_spec(base@, "/chat/completions"@),
{
    endpoint_url(base, "/chat/completions")
}

} // verus!
