//! Decisions of the text embedding pipeline: which server answers, when an
//! OpenAI-compatible failure falls back to Ollama, when the fallback is
//! logged, and how an input that is too large is shortened for a retry.

use crate::config::{AppConfig, LlmBackend};
use crate::text::{
    ascii_lower_seq, ascii_lowercase, chars_of, contains_chars, contains_seq, eq_chars,
    push_str, string_from_chars, trim, trim_chars, trim_end_char, trim_end_matches_char,
};
use vstd::prelude::*;

verus! {

/// The fallback log's memory: the server URLs and model of the last logged
/// fallback (empty when nothing is remembered).
pub struct FallbackLog {
    signature: String,
}

/// The signature of a fallback: `openai_base|ollama_url|embed_model`.
pub open spec fn fallback_signature(
    openai_base: Seq<char>,
    ollama_url: Seq<char>,
    embed_model: Seq<char>,
) -> Seq<char> {
    openai_base + "|"@ + ollama_url + "|"@ + embed_model
}

/// A fallback is logged when the log does not remember that same fallback.
pub open spec fn fallback_is_logged(
    remembered: Seq<char>,
    openai_base: Seq<char>,
    ollama_url: Seq<char>,
    embed_model: Seq<char>,
) -> bool {
    remembered != fallback_signature(openai_base, ollama_url, embed_model)
}

impl View for FallbackLog {
    type V = Seq<char>;

    closed spec fn view(&self) -> Seq<char> {
        self.signature@
    }
}

impl FallbackLog {
    /// A log that remembers nothing.
    pub fn new() -> (l: Self)
        ensures
            l@ == Seq::<char>::empty(),
    {
        FallbackLog { signature: String::new() }
    }
}

/// Forgets the last logged fallback, so that the next one is logged again
/// (called when embedding settings may have changed).
pub fn reset_ollama_fallback_log_signature(log: &mut FallbackLog)
    ensures
        final(log)@ == Seq::<char>::empty(),
{
    log.signature = String::new();
}

/// Whether a fallback from `openai_base` to Ollama at `ollama_url` with
/// `embed_model` is to be logged: only when it differs from the last one
/// logged. The log then remembers this fallback.
pub fn log_ollama_fallback_once(
    log: &mut FallbackLog,
    openai_base: &str,
    ollama_url: &str,
    embed_model: &str,
) -> (logged: bool)
    ensures
        logged == fallback_is_logged(old(log)@, openai_base@, ollama_url@, embed_model@),
        final(log)@ == fallback_signature(openai_base@, ollama_url@, embed_model@),
{
    let mut sig: Vec<char> = Vec::new();
    push_str(&mut sig, openai_base);
    push_str(&mut sig, "|");
    push_str(&mut sig, ollama_url);
    push_str(&mut sig, "|");
    push_str(&mut sig, embed_model);
    proof {
        assert(sig@ =~= fallback_signature(openai_base@, ollama_url@, embed_model@));
    }
    let current = chars_of(log.signature.as_str());
    if eq_chars(&current, &sig) {
        proof {
            assert(current@ =~= sig@);
        }
        return false;
    }
    log.signature = string_from_chars(&sig);
    true
}

/// A fallback is logged once per distinct servers and model: right after it
/// was logged the same fallback is not logged again, and after a reset it is.
pub proof fn lemma_fallback_logged_once(
    openai_base: Seq<char>,
    ollama_url: Seq<char>,
    embed_model: Seq<char>,
)
    ensures
        !fallback_is_logged(
            fallback_signature(openai_base, ollama_url, embed_model),
            openai_base,
            ollama_url,
            embed_model,
        ),
        fallback_is_logged(Seq::<char>::empty(), openai_base, ollama_url, embed_model),
{
    reveal_strlit("|");
    assert(fallback_signature(openai_base, ollama_url, embed_model).len() >= 2);
}

/// The base URL of the OpenAI-compatible embeddings endpoint, if one is
/// used: the dedicated embeddings URL when set (trimmed, not blank), else,
/// with the OpenAI-compatible backend, always the chat base URL (trimmed);
/// `None` (Ollama's native endpoint) only with the Ollama backend and no
/// dedicated embeddings URL.
pub open spec fn embed_base_spec(
    embedding_base: Option<Seq<char>>,
    backend: LlmBackend,
    openai_base: Seq<char>,
) -> Option<Seq<char>> {
    if embedding_base is Some && trim(embedding_base->0).len() > 0 {
        Some(trim(embedding_base->0))
    } else if backend == LlmBackend::Openai {
        Some(trim(openai_base))
    } else {
        None
    }
}

/// The OpenAI-style embeddings base URL for a configuration.
pub fn openai_style_embed_base(cfg: &AppConfig) -> (r: Option<String>)
    ensures
        match r {
            Some(s) => embed_base_spec(
                match cfg.openai_embedding_base_url {
                    Some(e) => Some(e@),
                    None => None,
                },
                cfg.llm_backend,
                cfg.openai_base_url@,
            ) == Some(s@),
            None => embed_base_spec(
                match cfg.openai_embedding_base_url {
                    Some(e) => Some(e@),
                    None => None,
                },
                cfg.llm_backend,
                cfg.openai_base_url@,
            ) is None,
        },
{
    match &cfg.openai_embedding_base_url {
        Some(s) => {
            let t = trim_chars(&chars_of(s.as_str()));
            if t.len() > 0 {
                return Some(string_from_chars(&t));
            }
        },
        None => {},
    }
    match cfg.llm_backend {
        LlmBackend::Openai => {
            let t = trim_chars(&chars_of(cfg.openai_base_url.as_str()));
            Some(string_from_chars(&t))
        },
        LlmBackend::Ollama => None,
    }
}

/// Which embedding server a configuration uses.
#[derive(Clone, Debug)]
pub enum EmbedRoute {
    /// `POST {base}/embeddings`, falling back to Ollama at `ollama_url`
    /// when the server lacks the route.
    OpenAiWithOllamaFallback {
        base_url: String,
        api_key: String,
        model: String,
        ollama_url: String,
    },
    /// Ollama's native `/api/embeddings` at `base_url`.
    Ollama { base_url: String, model: String },
}

/// The embedding server for a configuration (the choice made when an
/// embedder is built).
pub fn embed_route(cfg: &AppConfig) -> (r: EmbedRoute)
    ensures
        match r {
            EmbedRoute::OpenAiWithOllamaFallback { base_url, api_key, model, ollama_url } => {
                &&& openai_style_embed_base_is(cfg, Some(base_url@))
                &&& api_key@ == cfg.openai_api_key@
                &&& model@ == cfg.embed_model@
                &&& ollama_url@ == cfg.ollama_url@
            },
            EmbedRoute::Ollama { base_url, model } => {
                &&& openai_style_embed_base_is(cfg, None)
                &&& base_url@ == cfg.ollama_url@
                &&& model@ == cfg.embed_model@
            },
        },
{
    match openai_style_embed_base(cfg) {
        Some(base) => EmbedRoute::OpenAiWithOllamaFallback {
            base_url: base,
            api_key: cfg.openai_api_key.clone(),
            model: cfg.embed_model.clone(),
            ollama_url: cfg.ollama_url.clone(),
        },
        None => EmbedRoute::Ollama { base_url: cfg.ollama_url.clone(), model: cfg.embed_model.clone() },
    }
}

/// The OpenAI-style embeddings base of `cfg` is `b`.
pub open spec fn openai_style_embed_base_is(cfg: &AppConfig, b: Option<Seq<char>>) -> bool {
    embed_base_spec(
        match cfg.openai_embedding_base_url {
            Some(e) => Some(e@),
            None => None,
        },
        cfg.llm_backend,
        cfg.openai_base_url@,
    ) == b
}

/// `base` without trailing slashes, followed by `path`.
pub open spec fn endpoint_spec(base: Seq<char>, path: Seq<char>) -> Seq<char> {
    trim_end_char(base, '/') + path
}

/// `base` without trailing slashes, followed by `path`.
pub fn endpoint_url(base: &str, path: &str) -> (r: String)
    ensures
        r@ == endpoint_spec(base@, path@),
{
    let mut v = trim_end_matches_char(&chars_of(base), '/');
    push_str(&mut v, path);
    string_from_chars(&v)
}

/// Ollama's embeddings endpoint under `base`.
pub fn ollama_embeddings_url(base: &str) -> (r: String)
    ensures
        r@ == endpoint_spec(base@, "/api/embeddings"@),
{
    endpoint_url(base, "/api/embeddings")
}

/// The OpenAI-compatible embeddings endpoint under `base`.
pub fn openai_embeddings_url(base: &str) -> (r: String)
    ensures
        r@ == endpoint_spec(base@, "/embeddings"@),
{
    endpoint_url(base, "/embeddings")
}

/// An error of the OpenAI-compatible server that means it has no
/// embeddings route (HTTP 501, 404 or 405): the request goes to Ollama.
pub open spec fn missing_route_spec(msg: Seq<char>) -> bool {
    contains_seq(msg, "501"@) || contains_seq(msg, "404"@) || contains_seq(msg, "405"@)
        || contains_seq(msg, "Not Implemented"@)
}

/// Whether an embedding error message calls for the Ollama fallback.
pub fn is_missing_embeddings_route(msg: &str) -> (b: bool)
    ensures
        b == missing_route_spec(msg@),
{
    let m = chars_of(msg);
    contains_chars(&m, &chars_of("501")) || contains_chars(&m, &chars_of("404")) || contains_chars(
        &m,
        &chars_of("405"),
    ) || contains_chars(&m, &chars_of("Not Implemented"))
}

/// An error message saying the input is larger than the model's context
/// (compared without ASCII case).
pub open spec fn too_large_spec(msg: Seq<char>) -> bool {
    let m = ascii_lower_seq(msg);
    contains_seq(m, "too large to process"@) || contains_seq(m, "input is too large"@)
        || contains_seq(m, "context length"@) || contains_seq(m, "maximum context length"@)
        || contains_seq(m, "increase the physical batch size"@) || contains_seq(m, "n_ctx"@)
}

/// Whether an embedding error says the input was too large.
pub fn looks_like_input_too_large_error(msg: &str) -> (b: bool)
    ensures
        b == too_large_spec(msg@),
{
    let m = ascii_lowercase(&chars_of(msg));
    contains_chars(&m, &chars_of("too large to process")) || contains_chars(
        &m,
        &chars_of("input is too large"),
    ) || contains_chars(&m, &chars_of("context length")) || contains_chars(
        &m,
        &chars_of("maximum context length"),
    ) || contains_chars(&m, &chars_of("increase the physical batch size")) || contains_chars(
        &m,
        &chars_of("n_ctx"),
    )
}

/// Shortest input worth shrinking further, in characters.
pub const EMBED_TEXT_MIN_CHARS: usize = 120;

/// Retries allowed with a shortened input.
pub const EMBED_TEXT_RETRY_ATTEMPTS: usize = 4;

/// Three quarters of `len`, where `3 * len` saturates at `usize::MAX`.
pub open spec fn three_quarters(len: int) -> int {
    if 3 * len > usize::MAX {
        usize::MAX as int / 4
    } else {
        3 * len / 4
    }
}

/// The input of a retry: texts of at most 120 characters are not shortened;
/// longer ones keep their first three quarters, but at least 120 characters.
pub open spec fn shrink_spec(s: Seq<char>) -> Option<Seq<char>> {
    if s.len() <= EMBED_TEXT_MIN_CHARS {
        None
    } else {
        let q = three_quarters(s.len() as int);
        Some(s.take(if q < EMBED_TEXT_MIN_CHARS {
            EMBED_TEXT_MIN_CHARS as int
        } else {
            q
        }))
    }
}

/// A retry input is a strict prefix of the failed input and keeps at least
/// the minimum number of characters, so repeated shortening ends.
pub proof fn lemma_shrink_is_shorter_prefix(s: Seq<char>)
    ensures
        match shrink_spec(s) {
            Some(t) => t.len() < s.len() && t.len() >= EMBED_TEXT_MIN_CHARS && t =~= s.take(
                t.len() as int,
            ),
            None => s.len() <= EMBED_TEXT_MIN_CHARS,
        },
{
}

/// A shorter input for a retry after a too-large error.
pub fn shrink_text_for_retry(text: &str) -> (r: Option<String>)
    ensures
        match r {
            Some(s) => shrink_spec(text@) == Some(s@),
            None => shrink_spec(text@) is None,
        },
{
    let chars = chars_of(text);
    let len = chars.len();
    if len <= EMBED_TEXT_MIN_CHARS {
        return None;
    }
    let scaled: usize = if len > usize::MAX / 3 {
        usize::MAX / 4
    } else {
        len * 3 / 4
    };
    let mut new_len = scaled;
    if new_len >= len {
        new_len = len - 1;
    }
    if new_len < EMBED_TEXT_MIN_CHARS {
        new_len = if EMBED_TEXT_MIN_CHARS < len - 1 {
            EMBED_TEXT_MIN_CHARS
        } else {
            len - 1
        };
    }
    if new_len == 0 || new_len >= len {
        return None;
    }
    let mut out: Vec<char> = Vec::new();
    let mut i: usize = 0;
    while i < new_len
        invariant
            i <= new_len < len == chars@.len(),
            out@ == chars@.take(i as int),
        decreases new_len - i,
    {
        out.push(chars[i]);
        i = i + 1;
        proof {
            assert(out@ =~= chars@.take(i as int));
        }
    }
    Some(string_from_chars(&out))
}

/// The input for the next attempt after an embedding error, if any: only a
/// too-large error, with retries left, leads to a retry with shorter text.
pub open spec fn next_embed_text_spec(err: Seq<char>, shrinks: int, text: Seq<char>) -> Option<
    Seq<char>,
> {
    if too_large_spec(err) && shrinks < EMBED_TEXT_RETRY_ATTEMPTS {
        shrink_spec(text)
    } else {
        None
    }
}

/// What to send next after the embedding call for `text` failed with
/// `err`, after `shrinks` earlier shortenings: `None` ends the attempts.
pub fn next_embed_text(err: &str, shrinks: usize, text: &str) -> (r: Option<String>)
    ensures
        match r {
            Some(s) => next_embed_text_spec(err@, shrinks as int, text@) == Some(s@),
            None => next_embed_text_spec(err@, shrinks as int, text@) is None,
        },
{
    if looks_like_input_too_large_error(err) && shrinks < EMBED_TEXT_RETRY_ATTEMPTS {
        shrink_text_for_retry(text)
    } else {
        None
    }
}

/// Whether OCR text holds nothing to embed (only white space).
pub fn embed_text_is_blank(text: &str) -> (b: bool)
    ensures
        b == (trim(text@).len() == 0),
{
    trim_chars(&chars_of(text)).len() == 0
}

} // verus!
