//! Turning the command line of a managed local LLM server (as typed in
//! Settings) into an executable and its arguments.

use crate::text::{
    chars_of, eq_chars, is_whitespace, is_ws, lemma_trim_len, slice_to_vec, starts_with_chars,
    starts_with_seq, string_from_chars, string_views, trim, trim_chars, word_scan, words,
};
use vstd::prelude::*;

verus! {

/// Tokenizer state after a prefix of the command line: finished arguments,
/// the argument being read, inside single quotes, inside double quotes,
/// and whether the previous character was an escaping backslash.
pub type SplitState = (Seq<Seq<char>>, Seq<char>, bool, bool, bool);

/// One character of the command-line tokenizer. Quotes group white space
/// into an argument and are dropped; outside single quotes a backslash
/// escapes the next character, except on Windows, where it is a path
/// separator and kept.
pub open spec fn split_step(st: SplitState, ch: char, windows: bool) -> SplitState {
    let (out, cur, sq, dq, esc) = st;
    if esc {
        (out, cur.push(ch), sq, dq, false)
    } else if !windows && ch == '\\' && !sq {
        (out, cur, sq, dq, true)
    } else if ch == '\'' && !dq {
        (out, cur, !sq, dq, esc)
    } else if ch == '"' && !sq {
        (out, cur, sq, !dq, esc)
    } else if is_ws(ch) && !sq && !dq {
        if cur.len() > 0 {
            (out.push(cur), Seq::empty(), sq, dq, esc)
        } else {
            st
        }
    } else {
        (out, cur.push(ch), sq, dq, esc)
    }
}

/// Tokenizer state after reading all of `s`.
pub open spec fn split_scan(s: Seq<char>, windows: bool) -> SplitState
    decreases s.len(),
{
    if s.len() == 0 {
        (Seq::empty(), Seq::empty(), false, false, false)
    } else {
        split_step(split_scan(s.drop_last(), windows), s.last(), windows)
    }
}

/// The arguments of a command line.
pub open spec fn split_command_spec(s: Seq<char>, windows: bool) -> Seq<Seq<char>> {
    let st = split_scan(s, windows);
    if st.1.len() > 0 {
        st.0.push(st.1)
    } else {
        st.0
    }
}

/// Splits a command line into arguments, honouring single quotes, double
/// quotes and (off Windows) backslash escapes. Unterminated quotes run to
/// the end of the line.
pub fn split_command_line(s: &str, windows: bool) -> (r: Vec<String>)
    ensures
        string_views(r@) == split_command_spec(s@, windows),
{
    let cs = chars_of(s);
    let mut out: Vec<String> = Vec::new();
    let mut cur: Vec<char> = Vec::new();
    let mut in_single = false;
    let mut in_double = false;
    let mut escaped = false;
    let mut i: usize = 0;
    while i < cs.len()
        invariant
            i <= cs@.len(),
            cs@ == s@,
            (string_views(out@), cur@, in_single, in_double, escaped) == split_scan(
                cs@.subrange(0, i as int),
                windows,
            ),
        decreases cs@.len() - i,
    {
        let ch = cs[i];
        proof {
            assert(cs@.subrange(0, i as int + 1).drop_last() =~= cs@.subrange(0, i as int));
        }
        if escaped {
            cur.push(ch);
            escaped = false;
        } else if !windows && ch == '\\' && !in_single {
            escaped = true;
        } else if ch == '\'' && !in_double {
            in_single = !in_single;
        } else if ch == '"' && !in_single {
            in_double = !in_double;
        } else if is_whitespace(ch) && !in_single && !in_double {
            if cur.len() > 0 {
                let ghost before = string_views(out@);
                let word = string_from_chars(&cur);
                out.push(word);
                cur = Vec::new();
                proof {
                    assert(string_views(out@) =~= before.push(word@));
                }
            }
        } else {
            cur.push(ch);
        }
        i = i + 1;
    }
    proof {
        assert(cs@.subrange(0, cs@.len() as int) =~= cs@);
    }
    if cur.len() > 0 {
        let ghost before = string_views(out@);
        let word = string_from_chars(&cur);
        out.push(word);
        proof {
            assert(string_views(out@) =~= before.push(word@));
        }
    }
    out
}

/// `s` holds no quote and, off Windows, no backslash.
pub open spec fn is_plain_command(s: Seq<char>, windows: bool) -> bool {
    forall|i: int|
        0 <= i < s.len() ==> #[trigger] s[i] != '\'' && s[i] != '"' && (windows || s[i] != '\\')
}

proof fn lemma_scan_parts_nonempty(s: Seq<char>, windows: bool)
    ensures
        forall|i: int|
            0 <= i < split_scan(s, windows).0.len() ==> (#[trigger] split_scan(s, windows).0[i]).len()
                > 0,
    decreases s.len(),
{
    if s.len() > 0 {
        lemma_scan_parts_nonempty(s.drop_last(), windows);
        let st = split_scan(s.drop_last(), windows);
        let st2 = split_scan(s, windows);
        assert(st2 == split_step(st, s.last(), windows));
        assert forall|i: int| 0 <= i < st2.0.len() implies (#[trigger] st2.0[i]).len() > 0 by {
            if i < st.0.len() {
                assert(st2.0[i] == st.0[i]);
            }
        }
    }
}

/// No argument produced by the tokenizer is empty.
pub proof fn lemma_split_parts_nonempty(s: Seq<char>, windows: bool)
    ensures
        forall|i: int|
            0 <= i < split_command_spec(s, windows).len() ==> (#[trigger] split_command_spec(
                s,
                windows,
            )[i]).len() > 0,
{
    lemma_scan_parts_nonempty(s, windows);
}

proof fn lemma_plain_scan(s: Seq<char>, windows: bool)
    requires
        is_plain_command(s, windows),
    ensures
        split_scan(s, windows) == (word_scan(s).0, word_scan(s).1, false, false, false),
    decreases s.len(),
{
    if s.len() > 0 {
        let p = s.drop_last();
        assert(is_plain_command(p, windows)) by {
            assert forall|i: int| 0 <= i < p.len() implies #[trigger] p[i] != '\'' && p[i] != '"'
                && (windows || p[i] != '\\') by {
                assert(p[i] == s[i]);
            }
        }
        lemma_plain_scan(p, windows);
        assert(s[s.len() - 1] == s.last());
    }
}

/// A command line without quotes or escapes splits exactly at white space.
pub proof fn lemma_plain_command_splits_at_whitespace(s: Seq<char>, windows: bool)
    requires
        is_plain_command(s, windows),
    ensures
        split_command_spec(s, windows) == words(s),
{
    lemma_plain_scan(s, windows);
}

/// `t` starts and ends with the same quote character.
pub open spec fn is_quote_wrapped(t: Seq<char>) -> bool {
    t.len() >= 2 && ((t[0] == '"' && t.last() == '"') || (t[0] == '\'' && t.last() == '\''))
}

/// `s` trimmed, with matching outer quotes removed (repeatedly, trimming
/// again after each removal).
pub open spec fn unwrap_quotes(s: Seq<char>) -> Seq<char>
    decreases s.len(),
{
    let t = trim(s);
    if is_quote_wrapped(t) {
        proof {
            lemma_trim_len(s);
        }
        unwrap_quotes(t.subrange(1, t.len() - 1))
    } else {
        t
    }
}

/// Removes stray wrapping quotes (and white space) around a model path,
/// such as `"'C:\models\x.gguf'"`.
pub fn strip_weird_wrap_quotes(s: String) -> (r: String)
    ensures
        r@ == unwrap_quotes(s@),
{
    let mut cur: Vec<char> = chars_of(s.as_str());
    loop
        invariant
            unwrap_quotes(cur@) == unwrap_quotes(s@),
        decreases cur@.len(),
    {
        let t = trim_chars(&cur);
        proof {
            lemma_trim_len(cur@);
        }
        let n = t.len();
        if n >= 2 && ((t[0] == '"' && t[n - 1] == '"') || (t[0] == '\'' && t[n - 1] == '\'')) {
            cur = slice_to_vec(&t, 1, n - 1);
        } else {
            return string_from_chars(&t);
        }
    }
}

/// The model-argument clean-up applied at argument `i`: the value after
/// `-m`/`--model`, or the value inside `--model=...`, loses its stray
/// wrapping quotes.
pub open spec fn normalize_step(p: Seq<Seq<char>>, i: int) -> Seq<Seq<char>> {
    if p[i] == "-m"@ || p[i] == "--model"@ {
        if i + 1 < p.len() {
            p.update(i + 1, unwrap_quotes(p[i + 1]))
        } else {
            p
        }
    } else if starts_with_seq(p[i], "--model="@) {
        p.update(i, "--model="@ + unwrap_quotes(p[i].skip(8)))
    } else {
        p
    }
}

/// The clean-up applied to the first `n` arguments, left to right.
pub open spec fn normalize_upto(p: Seq<Seq<char>>, n: nat) -> Seq<Seq<char>>
    decreases n,
{
    if n == 0 {
        p
    } else {
        normalize_step(normalize_upto(p, (n - 1) as nat), n - 1)
    }
}

proof fn lemma_normalize_len(p: Seq<Seq<char>>, n: nat)
    requires
        n <= p.len(),
    ensures
        normalize_upto(p, n).len() == p.len(),
    decreases n,
{
    if n > 0 {
        lemma_normalize_len(p, (n - 1) as nat);
        let q = normalize_upto(p, (n - 1) as nat);
        assert(normalize_step(q, n - 1).len() == q.len());
    }
}

/// All arguments with model paths cleaned up.
pub open spec fn normalize_model_args_spec(p: Seq<Seq<char>>) -> Seq<Seq<char>> {
    normalize_upto(p, p.len())
}

/// Removes stray quotes around the model path arguments of a server
/// command (`-m`, `--model`, `--model=`).
pub fn normalize_model_args(parts: Vec<String>) -> (r: Vec<String>)
    ensures
        string_views(r@) == normalize_model_args_spec(string_views(parts@)),
{
    let ghost orig = string_views(parts@);
    let mut parts = parts;
    let n = parts.len();
    let dash_m = chars_of("-m");
    let long = chars_of("--model");
    let prefix = chars_of("--model=");
    let mut i: usize = 0;
    proof {
        lemma_normalize_len(orig, 0);
    }
    while i < n
        invariant
            n == parts@.len() == orig.len(),
            i <= n,
            dash_m@ == "-m"@,
            long@ == "--model"@,
            prefix@ == "--model="@,
            string_views(parts@) == normalize_upto(orig, i as nat),
        decreases n - i,
    {
        let ghost before = string_views(parts@);
        let arg = chars_of(parts[i].as_str());
        proof {
            assert(before[i as int] == parts@[i as int]@);
        }
        if eq_chars(&arg, &dash_m) || eq_chars(&arg, &long) {
            if i + 1 < n {
                let next = parts[i + 1].clone();
                proof {
                    assert(before[i + 1] == parts@[i + 1]@);
                }
                let cleaned = strip_weird_wrap_quotes(next);
                parts.set(i + 1, cleaned);
                proof {
                    assert(string_views(parts@) =~= before.update(i + 1, cleaned@));
                }
            }
        } else if starts_with_chars(&arg, &prefix) {
            proof {
                reveal_strlit("--model=");
            }
            let rest = slice_to_vec(&arg, 8, arg.len());
            let cleaned = strip_weird_wrap_quotes(string_from_chars(&rest));
            let mut joined: Vec<char> = chars_of("--model=");
            let cleaned_chars = chars_of(cleaned.as_str());
            let mut k: usize = 0;
            while k < cleaned_chars.len()
                invariant
                    k <= cleaned_chars@.len(),
                    joined@ == "--model="@ + cleaned_chars@.subrange(0, k as int),
                decreases cleaned_chars@.len() - k,
            {
                joined.push(cleaned_chars[k]);
                k = k + 1;
                proof {
                    assert(joined@ =~= "--model="@ + cleaned_chars@.subrange(0, k as int));
                }
            }
            proof {
                assert(cleaned_chars@.subrange(0, cleaned_chars@.len() as int) =~= cleaned_chars@);
                assert(rest@ =~= before[i as int].skip(8));
            }
            parts.set(i, string_from_chars(&joined));
            proof {
                assert(string_views(parts@) =~= before.update(
                    i as int,
                    "--model="@ + unwrap_quotes(before[i as int].skip(8)),
                ));
            }
        }
        proof {
            lemma_normalize_len(orig, i as nat);
            assert(string_views(parts@) == normalize_step(before, i as int));
            lemma_normalize_len(orig, (i + 1) as nat);
        }
        i = i + 1;
    }
    parts
}

/// What a managed server launch runs: the executable, its arguments, and
/// the working directory if one was given.
#[derive(Clone, Debug)]
pub struct ShellCommand {
    pub exe: String,
    pub args: Vec<String>,
    pub cwd: Option<String>,
}

/// Why a command line could not be launched.
#[derive(Clone, Copy, Debug, PartialEq, Eq)]
pub enum ShellCommandError {
    /// The command line holds no argument.
    EmptyCommand,
}

/// The working directory used for a launch: the trimmed value, if not blank.
pub open spec fn working_dir_spec(cwd: Option<Seq<char>>) -> Option<Seq<char>> {
    match cwd {
        Some(d) => if trim(d).len() > 0 {
            Some(trim(d))
        } else {
            None
        },
        None => None,
    }
}

/// The launch described by a command line: the first (cleaned-up)
/// argument is the executable, the rest are its arguments; a line without
/// arguments is refused.
pub fn plan_shell_command(command: &str, cwd: Option<&str>, windows: bool) -> (r: Result<
    ShellCommand,
    ShellCommandError,
>)
    ensures
        ({
            let parts = normalize_model_args_spec(split_command_spec(command@, windows));
            match r {
                Ok(c) => parts.len() > 0 && c.exe@ == parts[0] && string_views(c.args@)
                    == parts.skip(1) && working_dir_spec(
                    match cwd {
                        Some(d) => Some(d@),
                        None => None,
                    },
                ) == match c.cwd {
                    Some(d) => Some(d@),
                    None => None,
                },
                Err(e) => e == ShellCommandError::EmptyCommand && parts.len() == 0,
            }
        }),
{
    let split = split_command_line(command, windows);
    let parts = normalize_model_args(split);
    proof {
        lemma_normalize_len(string_views(split@), string_views(split@).len());
        assert(string_views(parts@).len() == parts@.len());
    }
    if parts.len() == 0 {
        return Err(ShellCommandError::EmptyCommand);
    }
    let exe = parts[0].clone();
    let mut args: Vec<String> = Vec::new();
    let mut i: usize = 1;
    while i < parts.len()
        invariant
            1 <= i <= parts@.len(),
            string_views(args@) == string_views(parts@).subrange(1, i as int),
        decreases parts@.len() - i,
    {
        let a = parts[i].clone();
        let ghost before = string_views(args@);
        args.push(a);
        proof {
            assert(a@ == string_views(parts@)[i as int]);
            assert(string_views(args@) =~= before.push(a@));
            assert(string_views(args@) =~= string_views(parts@).subrange(1, i as int + 1));
        }
        i = i + 1;
    }
    proof {
        assert(string_views(parts@).skip(1) =~= string_views(parts@).subrange(
            1,
            parts@.len() as int,
        ));
    }
    let dir = match cwd {
        Some(d) => {
            let t = trim_chars(&chars_of(d));
            if t.len() > 0 {
                Some(string_from_chars(&t))
            } else {
                None
            }
        },
        None => None,
    };
    Ok(ShellCommand { exe, args, cwd: dir })
}

/// Size above which a managed server log is cut down, bytes.
pub const MANAGED_LOG_MAX_BYTES: u64 = 10485760;

/// Where to cut a log file of `len` bytes so that its last `max_bytes`
/// bytes remain: `None` when it is within the limit.
pub fn log_keep_from(len: u64, max_bytes: u64) -> (r: Option<u64>)
    ensures
        len <= max_bytes ==> r is None,
        len > max_bytes ==> r == Some((len - max_bytes) as u64),
{
    if len <= max_bytes {
        None
    } else {
        Some(len - max_bytes)
    }
}

} // verus!
