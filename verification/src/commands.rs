//! The decisions behind the UI commands: argument normalisation, the
//! dependency report and its setup gate, connection-test messages,
//! managed-server status and error texts, log tails and the launch-on-startup
//! registry commands.

use crate::state::ManagedLlamaLast;
use crate::text::{
    ascii_lower_seq, ascii_lowercase, chars_of, contains_chars, contains_seq, eq_chars, lines,
    push_all, push_decimal, push_signed, push_str, signed_decimal, decimal, split_lines,
    string_from_chars, string_views, trim, trim_chars, trim_end_char, trim_end_matches_char,
    views,
};
use vstd::prelude::*;

verus! {

/// An error as the text sent to the UI (its `Display` rendering).
pub fn err<E: std::fmt::Display>(e: E) -> (r: String)
    ensures
        vstd::string::to_string_from_display_ensures::<E>(&e, r),
{
    e.to_string()
}

/// Whether recording is on.
#[derive(Clone, Copy, Debug)]
pub struct Status {
    pub recording: bool,
}

/// Result of a connection test of an LLM endpoint.
#[derive(Clone, Debug)]
pub struct LlmConnectionTest {
    pub ok: bool,
    pub detail: String,
}

/// One row of the dependency check.
#[derive(Clone, Debug)]
pub struct DependencyStatus {
    pub key: String,
    pub label: String,
    pub status: String,
    pub detail: String,
}

/// The dependency check: its rows, and whether setup may complete.
#[derive(Clone, Debug)]
pub struct DependencyReport {
    pub ok: bool,
    pub items: Vec<DependencyStatus>,
}

/// Status of a managed LLM server.
#[derive(Clone, Debug)]
pub struct ManagedLlamaStatus {
    pub kind: String,
    pub running: bool,
    pub pid: Option<u32>,
    pub command: Option<String>,
    pub cwd: Option<String>,
    pub started_ms_ago: Option<u64>,
    pub stdout_path: Option<String>,
    pub stderr_path: Option<String>,
    pub last_exit_code: Option<i32>,
    pub last_stderr_tail: Option<String>,
}

/// Which managed servers a "start both" request starts and which it skips.
#[derive(Clone, Debug)]
pub struct ManagedLlamaStartBothResult {
    pub started: Vec<String>,
    pub skipped: Vec<String>,
}

/// Whether the app is registered to launch at login.
#[derive(Clone, Debug)]
pub struct LaunchOnStartupStatus {
    pub enabled: bool,
    pub detail: String,
}

/// The canonical managed-server kind named by user input.
pub open spec fn managed_kind_spec(kind: Seq<char>) -> Option<Seq<char>> {
    let k = ascii_lower_seq(trim(kind));
    if k == "chat"@ {
        Some("chat"@)
    } else if k == "embed"@ || k == "embeddings"@ {
        Some("embed"@)
    } else {
        None
    }
}

/// `"chat"` or `"embed"` for user input naming a managed server kind
/// (trimmed, ASCII case ignored, `embeddings` accepted).
pub fn normalize_managed_kind(kind: &str) -> (r: Result<&'static str, String>)
    ensures
        match r {
            Ok(k) => managed_kind_spec(kind@) == Some(k@),
            Err(e) => managed_kind_spec(kind@) is None && e@
                == "kind must be 'chat' or 'embed'"@,
        },
{
    let k = ascii_lowercase(&trim_chars(&chars_of(kind)));
    if eq_chars(&k, &chars_of("chat")) {
        Ok("chat")
    } else if eq_chars(&k, &chars_of("embed")) || eq_chars(&k, &chars_of("embeddings")) {
        Ok("embed")
    } else {
        Err("kind must be 'chat' or 'embed'".to_owned())
    }
}

/// A base URL as entered: trimmed, without trailing slashes.
pub open spec fn base_url_spec(s: Seq<char>) -> Seq<char> {
    trim_end_char(trim(s), '/')
}

/// Normalises a base URL typed in Settings.
pub fn trim_base_url(s: &str) -> (r: String)
    ensures
        r@ == base_url_spec(s@),
{
    string_from_chars(&trim_end_matches_char(&trim_chars(&chars_of(s)), '/'))
}

/// The last `n` characters of `s` (all of it when shorter).
pub open spec fn tail_chars_spec(s: Seq<char>, n: nat) -> Seq<char> {
    if s.len() > n {
        s.skip(s.len() - n)
    } else {
        s
    }
}

/// The last `n` characters of `s`.
pub fn tail_chars(s: &str, n: usize) -> (r: String)
    ensures
        r@ == tail_chars_spec(s@, n as nat),
{
    let v = chars_of(s);
    if v.len() > n {
        let mut out: Vec<char> = Vec::new();
        let start = v.len() - n;
        let mut i = start;
        while i < v.len()
            invariant
                start <= i <= v@.len(),
                start == v@.len() - n,
                out@ == v@.subrange(start as int, i as int),
            decreases v@.len() - i,
        {
            out.push(v[i]);
            i = i + 1;
            proof {
                assert(out@ =~= v@.subrange(start as int, i as int));
            }
        }
        proof {
            assert(out@ =~= v@.skip(start as int));
        }
        string_from_chars(&out)
    } else {
        string_from_chars(&v)
    }
}

/// Characters of a stopped server's stderr kept as its last error.
pub const STDERR_TAIL_CHARS: usize = 1200;

/// The log stream a tail request names: `stdout` when it says so (trimmed,
/// ASCII case ignored), `stderr` otherwise and by default.
pub open spec fn log_stream_spec(stream: Option<Seq<char>>) -> Seq<char> {
    match stream {
        Some(s) => if ascii_lower_seq(trim(s)) == "stdout"@ {
            "stdout"@
        } else {
            "stderr"@
        },
        None => "stderr"@,
    }
}

/// The log stream of a tail request.
pub fn log_stream_suffix(stream: Option<&str>) -> (r: &'static str)
    ensures
        r@ == log_stream_spec(
            match stream {
                Some(s) => Some(s@),
                None => None,
            },
        ),
{
    match stream {
        Some(s) => {
            let l = ascii_lowercase(&trim_chars(&chars_of(s)));
            if eq_chars(&l, &chars_of("stdout")) {
                "stdout"
            } else {
                "stderr"
            }
        },
        None => "stderr",
    }
}

/// Number of log lines a tail request returns: 200 by default, kept
/// within 1..=2000.
pub open spec fn tail_limit_spec(limit: Option<usize>) -> int {
    let l = match limit {
        Some(l) => l as int,
        None => 200,
    };
    if l < 1 {
        1
    } else if l > 2000 {
        2000
    } else {
        l
    }
}

/// Number of lines for a tail request.
pub fn tail_limit(limit: Option<usize>) -> (r: usize)
    ensures
        r == tail_limit_spec(limit),
{
    let l = match limit {
        Some(l) => l,
        None => 200,
    };
    if l < 1 {
        1
    } else if l > 2000 {
        2000
    } else {
        l
    }
}

/// Number of lines for a tail of one of the app's own logs: `default`
/// when unset, kept within 1..=5000.
pub fn log_tail_limit(limit: Option<usize>, default: usize) -> (r: usize)
    ensures
        r == ({
            let l = match limit {
                Some(l) => l,
                None => default,
            };
            if l < 1 {
                1
            } else if l > 5000 {
                5000
            } else {
                l
            }
        }),
{
    let l = match limit {
        Some(l) => l,
        None => default,
    };
    if l < 1 {
        1
    } else if l > 5000 {
        5000
    } else {
        l
    }
}

/// File name of a managed server log: `{kind}.{stream}.log`.
pub fn managed_log_file_name(kind: &str, stream: &str) -> (r: String)
    ensures
        r@ == kind@ + "."@ + stream@ + ".log"@,
{
    let mut v: Vec<char> = Vec::new();
    push_str(&mut v, kind);
    push_str(&mut v, ".");
    push_str(&mut v, stream);
    push_str(&mut v, ".log");
    proof {
        assert(v@ =~= kind@ + "."@ + stream@ + ".log"@);
    }
    string_from_chars(&v)
}

/// Offset from which the tail of a file of `len` bytes is read: the last
/// `max_bytes` bytes (at least one), or the whole file.
pub fn tail_read_start(len: u64, max_bytes: u64) -> (r: u64)
    ensures
        r == (if len > (if max_bytes < 1 {
            1
        } else {
            max_bytes
        }) {
            len - (if max_bytes < 1 {
                1
            } else {
                max_bytes
            })
        } else {
            0
        }),
{
    let m = if max_bytes < 1 {
        1
    } else {
        max_bytes
    };
    if len > m {
        len - m
    } else {
        0
    }
}

/// The last `max_lines` lines of `text`; when the read began inside the
/// file, its first (likely partial) line is dropped first.
pub open spec fn tail_lines_spec(text: Seq<char>, started_mid: bool, max_lines: nat) -> Seq<
    Seq<char>,
> {
    let ls = lines(text);
    let ls2 = if started_mid && ls.len() > 0 {
        ls.drop_first()
    } else {
        ls
    };
    if ls2.len() > max_lines {
        ls2.skip(ls2.len() - max_lines)
    } else {
        ls2
    }
}

/// The lines returned for the tail of a log, from the text read.
pub fn tail_lines(text: &str, started_mid: bool, max_lines: usize) -> (r: Vec<String>)
    ensures
        string_views(r@) == tail_lines_spec(text@, started_mid, max_lines as nat),
{
    let ls = split_lines(&chars_of(text));
    let n = ls.len();
    let first: usize = if started_mid && n > 0 {
        1
    } else {
        0
    };
    let kept = n - first;
    let from: usize = if kept > max_lines {
        first + (kept - max_lines)
    } else {
        first
    };
    let mut out: Vec<String> = Vec::new();
    let mut i = from;
    while i < n
        invariant
            from <= i <= n == ls@.len(),
            string_views(out@) == views(ls@).subrange(from as int, i as int),
        decreases n - i,
    {
        let ghost before = string_views(out@);
        let s = string_from_chars(&ls[i]);
        out.push(s);
        proof {
            assert(s@ == views(ls@)[i as int]);
            assert(string_views(out@) =~= before.push(s@));
            assert(string_views(out@) =~= views(ls@).subrange(from as int, i as int + 1));
        }
        i = i + 1;
    }
    proof {
        let l0 = lines(text@);
        assert(views(ls@) == l0);
        let l2 = if started_mid && l0.len() > 0 {
            l0.drop_first()
        } else {
            l0
        };
        if l2.len() > max_lines {
            assert(l2.skip(l2.len() - max_lines) =~= l0.subrange(from as int, n as int));
        } else {
            assert(l2 =~= l0.subrange(from as int, n as int));
        }
    }
    out
}

/// Rows that hold up first-run setup: any row not `ok`, except the advisory
/// model rows.
pub open spec fn blocks_setup_spec(key: Seq<char>, status: Seq<char>) -> bool {
    if key == "chat_model"@ || key == "embed_model"@ {
        false
    } else {
        status != "ok"@
    }
}

/// Whether a dependency row holds up setup completion.
pub fn blocks_setup(item: &DependencyStatus) -> (b: bool)
    ensures
        b == blocks_setup_spec(item.key@, item.status@),
{
    let key = chars_of(item.key.as_str());
    if eq_chars(&key, &chars_of("chat_model")) || eq_chars(&key, &chars_of("embed_model")) {
        false
    } else {
        !eq_chars(&chars_of(item.status.as_str()), &chars_of("ok"))
    }
}

/// The dependency report of some rows: setup may complete when no row
/// holds it up.
pub fn dependency_report(items: Vec<DependencyStatus>) -> (r: DependencyReport)
    ensures
        r.items@ == items@,
        r.ok == forall|i: int|
            0 <= i < items@.len() ==> !blocks_setup_spec(
                #[trigger] items@[i].key@,
                items@[i].status@,
            ),
{
    let mut ok = true;
    let mut i: usize = 0;
    while i < items.len()
        invariant
            i <= items@.len(),
            ok == forall|j: int|
                0 <= j < i ==> !blocks_setup_spec(#[trigger] items@[j].key@, items@[j].status@),
        decreases items@.len() - i,
    {
        if blocks_setup(&items[i]) {
            ok = false;
        }
        i = i + 1;
    }
    DependencyReport { ok, items }
}

/// `model` up to its first `:` (the tag-less model name).
pub open spec fn model_base_spec(model: Seq<char>) -> Seq<char>
    decreases model.len(),
{
    if model.len() == 0 {
        model
    } else if model.drop_last().contains(':') {
        model_base_spec(model.drop_last())
    } else if model.last() == ':' {
        model.drop_last()
    } else {
        model
    }
}

/// `model` up to its first `:`.
pub fn model_base_name(model: &str) -> (r: String)
    ensures
        r@ == model_base_spec(model@),
        !r@.contains(':'),
{
    let v = chars_of(model);
    let mut i: usize = 0;
    while i < v.len() && v[i] != ':'
        invariant
            i <= v@.len(),
            forall|j: int| 0 <= j < i ==> v@[j] != ':',
        decreases v@.len() - i,
    {
        i = i + 1;
    }
    let mut out: Vec<char> = Vec::new();
    let mut k: usize = 0;
    while k < i
        invariant
            k <= i <= v@.len(),
            out@ == v@.take(k as int),
        decreases i - k,
    {
        out.push(v[k]);
        k = k + 1;
        proof {
            assert(out@ =~= v@.take(k as int));
        }
    }
    proof {
        lemma_model_base_prefix(v@, i as int);
    }
    string_from_chars(&out)
}

proof fn lemma_model_base_prefix(m: Seq<char>, i: int)
    requires
        0 <= i <= m.len(),
        forall|j: int| 0 <= j < i ==> m[j] != ':',
        i < m.len() ==> m[i] == ':',
    ensures
        model_base_spec(m) == m.take(i),
        !m.take(i).contains(':'),
    decreases m.len(),
{
    if m.len() > 0 {
        if i < m.len() {
            if m.drop_last().contains(':') {
                if i == m.len() - 1 {
                    let w = choose|j: int| 0 <= j < m.drop_last().len() && m.drop_last()[j] == ':';
                    assert(m[w] == ':');
                    assert(false);
                }
                lemma_model_base_prefix(m.drop_last(), i);
                assert(m.drop_last().take(i) =~= m.take(i));
            } else {
                assert(m[i] == ':');
                if i < m.len() - 1 {
                    assert(m.drop_last()[i] == ':');
                    assert(false);
                }
                assert(m.drop_last() =~= m.take(i));
            }
        } else {
            assert(!m.drop_last().contains(':')) by {
                if m.drop_last().contains(':') {
                    let w = choose|j: int| 0 <= j < m.drop_last().len() && m.drop_last()[j] == ':';
                    assert(m[w] == ':');
                }
            }
            assert(m.take(i) =~= m);
        }
    }
    assert(!m.take(i).contains(':')) by {
        if m.take(i).contains(':') {
            let w = choose|j: int| 0 <= j < m.take(i).len() && m.take(i)[j] == ':';
            assert(m[w] == ':');
        }
    }
}

/// A model counts as pulled when the installed tags, without their
/// `:tag` suffix, hold the model name as written or without its tag.
pub open spec fn model_pulled_spec(names: Seq<Seq<char>>, model: Seq<char>) -> bool {
    exists|i: int|
        0 <= i < names.len() && (model_base_spec(#[trigger] names[i]) == model || model_base_spec(
            names[i],
        ) == model_base_spec(model))
}

/// Whether `model` is among the installed Ollama models `names`.
pub fn model_is_pulled(names: &Vec<String>, model: &str) -> (b: bool)
    ensures
        b == model_pulled_spec(string_views(names@), model@),
{
    let m = chars_of(model);
    let mb = chars_of(model_base_name(model).as_str());
    let mut i: usize = 0;
    while i < names.len()
        invariant
            i <= names@.len(),
            m@ == model@,
            mb@ == model_base_spec(model@),
            forall|j: int|
                0 <= j < i ==> !(model_base_spec(#[trigger] string_views(names@)[j]) == model@
                    || model_base_spec(string_views(names@)[j]) == model_base_spec(model@)),
        decreases names@.len() - i,
    {
        let b = chars_of(model_base_name(names[i].as_str()).as_str());
        proof {
            assert(string_views(names@)[i as int] == names@[i as int]@);
        }
        if eq_chars(&b, &m) || eq_chars(&b, &mb) {
            return true;
        }
        i = i + 1;
    }
    false
}

/// The dependency row of a chat or embedding model: `ok` when pulled,
/// `optional` otherwise, with a hint.
pub open spec fn model_row_detail(model: Seq<char>, pulled: bool) -> Seq<char> {
    if pulled {
        model + " is pulled in Ollama"@
    } else {
        "Not found as \""@ + model
            + "\" \u{2014} pull it or change model name in Settings (e.g. llama3.3)"@
    }
}

/// The dependency row for a model among the installed Ollama models.
pub fn model_dependency(key: &str, label: &str, model: &str, names: &Vec<String>) -> (r:
    DependencyStatus)
    ensures
        r.key@ == key@,
        r.label@ == label@,
        r.status@ == (if model_pulled_spec(string_views(names@), model@) {
            "ok"@
        } else {
            "optional"@
        }),
        r.detail@ == model_row_detail(model@, model_pulled_spec(string_views(names@), model@)),
{
    let present = model_is_pulled(names, model);
    let mut d: Vec<char> = Vec::new();
    if present {
        push_str(&mut d, model);
        push_str(&mut d, " is pulled in Ollama");
    } else {
        push_str(&mut d, "Not found as \"");
        push_str(&mut d, model);
        push_str(&mut d, "\" \u{2014} pull it or change model name in Settings (e.g. llama3.3)");
    }
    proof {
        assert(d@ =~= model_row_detail(model@, present));
    }
    DependencyStatus {
        key: key.to_owned(),
        label: label.to_owned(),
        status: if present {
            "ok".to_owned()
        } else {
            "optional".to_owned()
        },
        detail: string_from_chars(&d),
    }
}

/// The Tesseract row: found (with the first line of `--version` output
/// and the binary) or missing.
pub open spec fn tesseract_row_detail(bin: Seq<char>, version_stdout: Seq<char>) -> Seq<char> {
    if lines(version_stdout).len() > 0 {
        lines(version_stdout)[0] + " ("@ + bin + ")"@
    } else {
        "tesseract found at "@ + bin
    }
}

/// The Tesseract dependency row; `found` holds the binary and its
/// `--version` output.
pub fn tesseract_dependency(found: Option<(&str, &str)>) -> (r: DependencyStatus)
    ensures
        r.key@ == "tesseract"@,
        r.label@ == "Tesseract"@,
        match found {
            Some((bin, out)) => r.status@ == "ok"@ && r.detail@ == tesseract_row_detail(
                bin@,
                out@,
            ),
            None => r.status@ == "missing"@ && r.detail@ == "program not found"@,
        },
{
    match found {
        Some((bin, out)) => {
            let ls = split_lines(&chars_of(out));
            let mut d: Vec<char> = Vec::new();
            if ls.len() > 0 {
                push_all(&mut d, &ls[0]);
                push_str(&mut d, " (");
                push_str(&mut d, bin);
                push_str(&mut d, ")");
                proof {
                    assert(views(ls@)[0] == ls@[0]@);
                }
            } else {
                push_str(&mut d, "tesseract found at ");
                push_str(&mut d, bin);
            }
            proof {
                assert(d@ =~= tesseract_row_detail(bin@, out@));
            }
            DependencyStatus {
                key: "tesseract".to_owned(),
                label: "Tesseract".to_owned(),
                status: "ok".to_owned(),
                detail: string_from_chars(&d),
            }
        },
        None => DependencyStatus {
            key: "tesseract".to_owned(),
            label: "Tesseract".to_owned(),
            status: "missing".to_owned(),
            detail: "program not found".to_owned(),
        },
    }
}

/// The Ollama endpoint row: reachable, or missing with the reason.
pub fn ollama_endpoint_dependency(ollama_url: &str, failure: Option<&str>) -> (r: DependencyStatus)
    ensures
        r.key@ == "ollama"@,
        r.label@ == "Ollama endpoint"@,
        match failure {
            None => r.status@ == "ok"@ && r.detail@ == "reachable at "@ + ollama_url@,
            Some(f) => r.status@ == "missing"@ && r.detail@ == f@,
        },
{
    match failure {
        None => {
            let mut d: Vec<char> = Vec::new();
            push_str(&mut d, "reachable at ");
            push_str(&mut d, ollama_url);
            DependencyStatus {
                key: "ollama".to_owned(),
                label: "Ollama endpoint".to_owned(),
                status: "ok".to_owned(),
                detail: string_from_chars(&d),
            }
        },
        Some(f) => DependencyStatus {
            key: "ollama".to_owned(),
            label: "Ollama endpoint".to_owned(),
            status: "missing".to_owned(),
            detail: f.to_owned(),
        },
    }
}

/// The text of the LLM backend row for an OpenAI-compatible backend.
pub open spec fn openai_backend_detail(chat_base: Seq<char>, embedding_base: Option<Seq<char>>) -> Seq<
    char,
> {
    let chat = trim_end_char(chat_base, '/');
    if embedding_base is Some && trim(embedding_base->0).len() > 0 {
        "OpenAI-compatible \u{2014} chat "@ + chat + ", embeddings "@ + trim_end_char(
            trim(embedding_base->0),
            '/',
        ) + " (Ollama not required for chat)"@
    } else {
        "OpenAI-compatible \u{2014} chat/embed use "@ + chat
            + " (separate embed URL in Settings, or Ollama fallback for embeds)"@
    }
}

/// The LLM backend row for an OpenAI-compatible backend (always `ok`).
pub fn openai_backend_dependency(chat_base: &str, embedding_base: &Option<String>) -> (r:
    DependencyStatus)
    ensures
        r.key@ == "llm_backend"@,
        r.label@ == "LLM backend"@,
        r.status@ == "ok"@,
        r.detail@ == openai_backend_detail(
            chat_base@,
            match embedding_base {
                Some(e) => Some(e@),
                None => None,
            },
        ),
{
    let chat = trim_end_matches_char(&chars_of(chat_base), '/');
    let mut d: Vec<char> = Vec::new();
    let emb: Option<Vec<char>> = match embedding_base {
        Some(e) => {
            let t = trim_chars(&chars_of(e.as_str()));
            if t.len() > 0 {
                Some(t)
            } else {
                None
            }
        },
        None => None,
    };
    match emb {
        Some(t) => {
            push_str(&mut d, "OpenAI-compatible \u{2014} chat ");
            push_all(&mut d, &chat);
            push_str(&mut d, ", embeddings ");
            let te = trim_end_matches_char(&t, '/');
            push_all(&mut d, &te);
            push_str(&mut d, " (Ollama not required for chat)");
        },
        None => {
            push_str(&mut d, "OpenAI-compatible \u{2014} chat/embed use ");
            push_all(&mut d, &chat);
            push_str(&mut d, " (separate embed URL in Settings, or Ollama fallback for embeds)");
        },
    }
    proof {
        assert(d@ =~= openai_backend_detail(
            chat_base@,
            match embedding_base {
                Some(e) => Some(e@),
                None => None,
            },
        ));
    }
    DependencyStatus {
        key: "llm_backend".to_owned(),
        label: "LLM backend".to_owned(),
        status: "ok".to_owned(),
        detail: string_from_chars(&d),
    }
}

/// The URL a connection test requests: `path` under the normalised base
/// URL, or the failed test reported when the base URL is blank.
pub fn connection_test_url(base_url: &str, path: &str, empty_detail: &str) -> (r: Result<
    String,
    LlmConnectionTest,
>)
    ensures
        match r {
            Ok(u) => base_url_spec(base_url@).len() > 0 && u@ == base_url_spec(base_url@) + path@,
            Err(t) => base_url_spec(base_url@).len() == 0 && !t.ok && t.detail@ == empty_detail@,
        },
{
    let base = trim_end_matches_char(&trim_chars(&chars_of(base_url)), '/');
    if base.len() == 0 {
        return Err(LlmConnectionTest { ok: false, detail: empty_detail.to_owned() });
    }
    let mut u = base;
    push_str(&mut u, path);
    Ok(string_from_chars(&u))
}

/// Characters of a response body quoted in a failed test.
pub const SNIPPET_CHARS: usize = 200;

/// The report of a finished connection test: `METHOD url → status`, with
/// the start of the body when the status is not a success.
pub open spec fn connection_detail(
    method: Seq<char>,
    url: Seq<char>,
    status: Seq<char>,
    success: bool,
    body: Seq<char>,
) -> Seq<char> {
    let head = method + " "@ + url + " \u{2192} "@ + status;
    if success {
        head
    } else {
        head + ": "@ + body.take(if body.len() < 200 {
            body.len() as int
        } else {
            200
        })
    }
}

/// The test result for a response with `status` text.
pub fn connection_result(method: &str, url: &str, status: &str, success: bool, body: &str) -> (r:
    LlmConnectionTest)
    ensures
        r.ok == success,
        r.detail@ == connection_detail(method@, url@, status@, success, body@),
{
    let mut d: Vec<char> = Vec::new();
    push_str(&mut d, method);
    push_str(&mut d, " ");
    push_str(&mut d, url);
    push_str(&mut d, " \u{2192} ");
    push_str(&mut d, status);
    if !success {
        push_str(&mut d, ": ");
        let b = chars_of(body);
        let n = if b.len() < SNIPPET_CHARS {
            b.len()
        } else {
            SNIPPET_CHARS
        };
        let mut i: usize = 0;
        let ghost before = d@;
        while i < n
            invariant
                i <= n <= b@.len(),
                d@ == before + b@.take(i as int),
            decreases n - i,
        {
            d.push(b[i]);
            i = i + 1;
            proof {
                assert(d@ =~= before + b@.take(i as int));
            }
        }
    }
    proof {
        assert(d@ =~= connection_detail(method@, url@, status@, success, body@));
    }
    LlmConnectionTest { ok: success, detail: string_from_chars(&d) }
}

/// The report of a successful embeddings test: the embedding width when the
/// body looked like OpenAI embeddings JSON.
pub open spec fn embed_test_detail(url: Seq<char>, dim: Option<usize>) -> Seq<char> {
    if dim is Some && dim->0 > 0 {
        "POST "@ + url + " \u{2192} 200, embedding dim "@ + decimal(dim->0 as nat)
    } else {
        "POST "@ + url + " \u{2192} 200 (body did not look like OpenAI embeddings JSON)"@
    }
}

/// The result of an embeddings test that got a success status.
pub fn embed_test_success(url: &str, dim: Option<usize>) -> (r: LlmConnectionTest)
    ensures
        r.ok,
        r.detail@ == embed_test_detail(url@, dim),
{
    let mut d: Vec<char> = Vec::new();
    push_str(&mut d, "POST ");
    push_str(&mut d, url);
    match dim {
        Some(n) => {
            if n > 0 {
                push_str(&mut d, " \u{2192} 200, embedding dim ");
                push_decimal(&mut d, n as u64);
            } else {
                push_str(&mut d, " \u{2192} 200 (body did not look like OpenAI embeddings JSON)");
            }
        },
        None => {
            push_str(&mut d, " \u{2192} 200 (body did not look like OpenAI embeddings JSON)");
        },
    }
    proof {
        assert(d@ =~= embed_test_detail(url@, dim));
    }
    LlmConnectionTest { ok: true, detail: string_from_chars(&d) }
}

/// The status reported for a kind of managed server that is not running.
pub open spec fn idle_status_spec(
    s: ManagedLlamaStatus,
    kind: Seq<char>,
    exit_code: Option<i32>,
    stderr_tail: Option<Seq<char>>,
) -> bool {
    &&& s.kind@ == kind
    &&& !s.running
    &&& s.pid is None
    &&& s.command is None
    &&& s.cwd is None
    &&& s.started_ms_ago is None
    &&& s.stdout_path is None
    &&& s.stderr_path is None
    &&& s.last_exit_code == exit_code
    &&& match s.last_stderr_tail {
        Some(t) => stderr_tail == Some(t@),
        None => stderr_tail is None,
    }
}

/// The status of a managed server that is not running, with its last
/// known exit (if any).
pub fn idle_managed_status(kind: &str, last: &ManagedLlamaLast) -> (r: ManagedLlamaStatus)
    ensures
        idle_status_spec(
            r,
            kind@,
            last.exit_code,
            match last.stderr_tail {
                Some(t) => Some(t@),
                None => None,
            },
        ),
{
    ManagedLlamaStatus {
        kind: kind.to_owned(),
        running: false,
        pid: None,
        command: None,
        cwd: None,
        started_ms_ago: None,
        stdout_path: None,
        stderr_path: None,
        last_exit_code: last.exit_code,
        last_stderr_tail: match &last.stderr_tail {
            Some(t) => Some(t.clone()),
            None => None,
        },
    }
}

/// The status returned after stopping a managed server.
pub fn stopped_managed_status(kind: &str) -> (r: ManagedLlamaStatus)
    ensures
        idle_status_spec(r, kind@, None, None),
{
    idle_managed_status(kind, &ManagedLlamaLast { exit_code: None, stderr_tail: None })
}

/// A configured server command: set and not blank.
pub open spec fn command_set(cmd: Option<Seq<char>>) -> bool {
    cmd is Some && trim(cmd->0).len() > 0
}

/// Which managed servers "start both" starts (chat first) and which it
/// skips: a server is started when its command is set and not blank.
pub fn start_both_plan(chat_command: &Option<String>, embed_command: &Option<String>) -> (r:
    ManagedLlamaStartBothResult)
    ensures
        ({
            let c = command_set(
                match chat_command {
                    Some(s) => Some(s@),
                    None => None,
                },
            );
            let e = command_set(
                match embed_command {
                    Some(s) => Some(s@),
                    None => None,
                },
            );
            &&& string_views(r.started@) == (if c {
                seq!["chat"@]
            } else {
                Seq::empty()
            }) + (if e {
                seq!["embed"@]
            } else {
                Seq::empty()
            })
            &&& string_views(r.skipped@) == (if c {
                Seq::empty()
            } else {
                seq!["chat"@]
            }) + (if e {
                Seq::empty()
            } else {
                seq!["embed"@]
            })
        }),
{
    let c = match chat_command {
        Some(s) => trim_chars(&chars_of(s.as_str())).len() > 0,
        None => false,
    };
    let e = match embed_command {
        Some(s) => trim_chars(&chars_of(s.as_str())).len() > 0,
        None => false,
    };
    let mut started: Vec<String> = Vec::new();
    let mut skipped: Vec<String> = Vec::new();
    if c {
        started.push("chat".to_owned());
    } else {
        skipped.push("chat".to_owned());
    }
    if e {
        started.push("embed".to_owned());
    } else {
        skipped.push("embed".to_owned());
    }
    proof {
        let cs = if c {
            seq!["chat"@]
        } else {
            Seq::<Seq<char>>::empty()
        };
        let es = if e {
            seq!["embed"@]
        } else {
            Seq::<Seq<char>>::empty()
        };
        assert(string_views(started@) =~= cs + es);
        let cs2 = if c {
            Seq::<Seq<char>>::empty()
        } else {
            seq!["chat"@]
        };
        let es2 = if e {
            Seq::<Seq<char>>::empty()
        } else {
            seq!["embed"@]
        };
        assert(string_views(skipped@) =~= cs2 + es2);
    }
    ManagedLlamaStartBothResult { started, skipped }
}

/// The command line of a start request, trimmed; a blank one is refused.
pub fn managed_command(command: &str) -> (r: Result<String, String>)
    ensures
        match r {
            Ok(c) => trim(command@).len() > 0 && c@ == trim(command@),
            Err(e) => trim(command@).len() == 0 && e@ == "Command is empty"@,
        },
{
    let t = trim_chars(&chars_of(command));
    if t.len() == 0 {
        Err("Command is empty".to_owned())
    } else {
        Ok(string_from_chars(&t))
    }
}

/// `{:?}` of an optional integer: `Some(n)` or `None`.
pub open spec fn debug_option(n: Option<int>) -> Seq<char> {
    match n {
        Some(v) => "Some("@ + signed_decimal(v) + ")"@,
        None => "None"@,
    }
}

fn push_debug_option(out: &mut Vec<char>, n: Option<i64>)
    ensures
        final(out)@ == old(out)@ + debug_option(
            match n {
                Some(v) => Some(v as int),
                None => None,
            },
        ),
{
    match n {
        Some(v) => {
            push_str(out, "Some(");
            push_signed(out, v);
            push_str(out, ")");
        },
        None => push_str(out, "None"),
    }
    proof {
        assert(final(out)@ =~= old(out)@ + debug_option(
            match n {
                Some(v) => Some(v as int),
                None => None,
            },
        ));
    }
}

/// The refusal of a start request while the server runs.
pub fn already_running_error(kind: &str, pid: Option<u32>) -> (r: String)
    ensures
        r@ == "Managed "@ + kind@ + " server is already running (pid "@ + debug_option(
            match pid {
                Some(p) => Some(p as int),
                None => None,
            },
        ) + ")"@,
{
    let mut d: Vec<char> = Vec::new();
    push_str(&mut d, "Managed ");
    push_str(&mut d, kind);
    push_str(&mut d, " server is already running (pid ");
    push_debug_option(
        &mut d,
        match pid {
            Some(p) => Some(p as i64),
            None => None,
        },
    );
    push_str(&mut d, ")");
    proof {
        assert(d@ =~= "Managed "@ + kind@ + " server is already running (pid "@ + debug_option(
            match pid {
                Some(p) => Some(p as int),
                None => None,
            },
        ) + ")"@);
    }
    string_from_chars(&d)
}

/// The failure of a start whose server exited right away: its exit code
/// and the tail of its stderr (or a note that none was captured).
pub open spec fn exited_immediately_spec(
    kind: Seq<char>,
    code: Option<i32>,
    stderr_tail: Option<Seq<char>>,
) -> Seq<char> {
    "Managed "@ + kind + " server exited immediately (code "@ + debug_option(
        match code {
            Some(c) => Some(c as int),
            None => None,
        },
    ) + "). "@ + match stderr_tail {
        Some(t) => t,
        None => "process exited immediately (no stderr captured)"@,
    }
}

/// The error of a start whose server exited right away.
pub fn exited_immediately_error(kind: &str, code: Option<i32>, stderr_tail: &Option<String>) -> (r:
    String)
    ensures
        r@ == exited_immediately_spec(
            kind@,
            code,
            match stderr_tail {
                Some(t) => Some(t@),
                None => None,
            },
        ),
{
    let mut d: Vec<char> = Vec::new();
    push_str(&mut d, "Managed ");
    push_str(&mut d, kind);
    push_str(&mut d, " server exited immediately (code ");
    push_debug_option(
        &mut d,
        match code {
            Some(c) => Some(c as i64),
            None => None,
        },
    );
    push_str(&mut d, "). ");
    match stderr_tail {
        Some(t) => push_str(&mut d, t.as_str()),
        None => push_str(&mut d, "process exited immediately (no stderr captured)"),
    }
    proof {
        assert(d@ =~= exited_immediately_spec(
            kind@,
            code,
            match stderr_tail {
                Some(t) => Some(t@),
                None => None,
            },
        ));
    }
    string_from_chars(&d)
}

/// The registry key under which login items are registered.
pub const RUN_KEY_PATH: &'static str = "HKCU\\Software\\Microsoft\\Windows\\CurrentVersion\\Run";

/// The value name of the app's login item.
pub const RUN_KEY: &'static str = "ScreenRecall";

/// The `reg` arguments that register (`exe` quoted) or remove the login item.
pub open spec fn startup_reg_args_spec(enabled: bool, exe: Seq<char>) -> Seq<Seq<char>> {
    if enabled {
        seq![
            "add"@,
            RUN_KEY_PATH@,
            "/v"@,
            RUN_KEY@,
            "/t"@,
            "REG_SZ"@,
            "/d"@,
            "\""@ + exe + "\""@,
            "/f"@,
        ]
    } else {
        seq!["delete"@, RUN_KEY_PATH@, "/v"@, RUN_KEY@, "/f"@]
    }
}

/// The `reg` arguments for turning launch at login on or off.
pub fn startup_reg_args(enabled: bool, exe: &str) -> (r: Vec<String>)
    ensures
        string_views(r@) == startup_reg_args_spec(enabled, exe@),
{
    let mut v: Vec<String> = Vec::new();
    if enabled {
        v.push("add".to_owned());
        v.push(RUN_KEY_PATH.to_owned());
        v.push("/v".to_owned());
        v.push(RUN_KEY.to_owned());
        v.push("/t".to_owned());
        v.push("REG_SZ".to_owned());
        v.push("/d".to_owned());
        let mut q: Vec<char> = Vec::new();
        push_str(&mut q, "\"");
        push_str(&mut q, exe);
        push_str(&mut q, "\"");
        v.push(string_from_chars(&q));
        v.push("/f".to_owned());
    } else {
        v.push("delete".to_owned());
        v.push(RUN_KEY_PATH.to_owned());
        v.push("/v".to_owned());
        v.push(RUN_KEY.to_owned());
        v.push("/f".to_owned());
    }
    proof {
        assert(string_views(v@) =~= startup_reg_args_spec(enabled, exe@));
    }
    v
}

/// The outcome of registering the login item: enabled, or the error
/// output of `reg`.
pub fn startup_enable_outcome(exe: &str, success: bool, stderr: &str) -> (r: Result<
    LaunchOnStartupStatus,
    String,
>)
    ensures
        match r {
            Ok(s) => success && s.enabled && s.detail@ == "Enabled from "@ + exe@,
            Err(e) => !success && e@ == stderr@,
        },
{
    if !success {
        return Err(stderr.to_owned());
    }
    let mut d: Vec<char> = Vec::new();
    push_str(&mut d, "Enabled from ");
    push_str(&mut d, exe);
    Ok(LaunchOnStartupStatus { enabled: true, detail: string_from_chars(&d) })
}

/// Removing the login item fails unless `reg` succeeded or reported that
/// the value did not exist ("unable to find", ASCII case ignored, in either
/// output); the error is stderr, or stdout when stderr is blank.
pub open spec fn startup_disable_fails(success: bool, stdout: Seq<char>, stderr: Seq<char>) -> bool {
    !success && !contains_seq(ascii_lower_seq(stderr), "unable to find"@) && !contains_seq(
        ascii_lower_seq(stdout),
        "unable to find"@,
    )
}

/// The outcome of removing the login item.
pub fn startup_disable_outcome(success: bool, stdout: &str, stderr: &str) -> (r: Result<
    LaunchOnStartupStatus,
    String,
>)
    ensures
        match r {
            Ok(s) => !startup_disable_fails(success, stdout@, stderr@) && !s.enabled && s.detail@
                == "Disabled"@,
            Err(e) => startup_disable_fails(success, stdout@, stderr@) && e@ == (if trim(
                stderr@,
            ).len() == 0 {
                stdout@
            } else {
                stderr@
            }),
        },
{
    if !success {
        let needle = chars_of("unable to find");
        let e = ascii_lowercase(&chars_of(stderr));
        let o = ascii_lowercase(&chars_of(stdout));
        if !contains_chars(&e, &needle) && !contains_chars(&o, &needle) {
            if trim_chars(&chars_of(stderr)).len() == 0 {
                return Err(stdout.to_owned());
            } else {
                return Err(stderr.to_owned());
            }
        }
    }
    Ok(LaunchOnStartupStatus { enabled: false, detail: "Disabled".to_owned() })
}

/// The status reported where launch at login is not supported.
pub fn startup_unsupported_status() -> (r: LaunchOnStartupStatus)
    ensures
        !r.enabled,
        r.detail@ == "Launch on startup toggle is currently implemented for Windows only"@,
{
    LaunchOnStartupStatus {
        enabled: false,
        detail: "Launch on startup toggle is currently implemented for Windows only".to_owned(),
    }
}

} // verus!
