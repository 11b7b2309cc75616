//! Full-text query building: user input becomes an FTS5 query that cannot
//! trip over FTS5 operator syntax.

use crate::text::{chars_of, push_all, split_whitespace, string_from_chars, views, words};
use vstd::prelude::*;

verus! {

/// Unicode alphanumeric (alphabetic or numeric), as std's
/// `char::is_alphanumeric` decides it.
pub uninterp spec fn alphanumeric(c: char) -> bool;

/// std's `char::is_alphanumeric`. The contract names its result and states
/// the documented ASCII case: among ASCII characters exactly the letters and
/// the digits are alphanumeric. Which non-ASCII characters are is left to
/// the Unicode tables and not stated.
#[verifier::external_body]
fn char_is_alphanumeric(c: char) -> (b: bool)
    ensures
        b == alphanumeric(c),
        (c as u32) < 128 ==> (b <==> (('a' <= c && c <= 'z') || ('A' <= c && c <= 'Z') || ('0'
            <= c && c <= '9'))),
{
    c.is_alphanumeric()
}

/// Whether `c` is alphanumeric: among ASCII characters exactly the letters
/// and the digits, elsewhere as the Unicode tables decide.
pub open spec fn alphanumeric_char(c: char) -> bool {
    if (c as u32) < 128 {
        ('a' <= c && c <= 'z') || ('A' <= c && c <= 'Z') || ('0' <= c && c <= '9')
    } else {
        alphanumeric(c)
    }
}

/// Characters kept in a search term: alphanumerics, `-` and `_`.
pub open spec fn keep_char(c: char) -> bool {
    alphanumeric_char(c) || c == '-' || c == '_'
}

/// `w` with every character that is not kept removed.
pub open spec fn clean_word(w: Seq<char>) -> Seq<char>
    decreases w.len(),
{
    if w.len() == 0 {
        Seq::empty()
    } else {
        clean_word(w.drop_last()) + if keep_char(w.last()) {
            seq![w.last()]
        } else {
            Seq::empty()
        }
    }
}

/// The quoted terms of a list of words; words with nothing kept are dropped.
pub open spec fn quoted_terms(ws: Seq<Seq<char>>) -> Seq<Seq<char>>
    decreases ws.len(),
{
    if ws.len() == 0 {
        Seq::empty()
    } else {
        let c = clean_word(ws.last());
        if c.len() > 0 {
            quoted_terms(ws.drop_last()).push("\""@ + c + "\""@)
        } else {
            quoted_terms(ws.drop_last())
        }
    }
}

/// `ts` joined with single spaces.
pub open spec fn join_spaced(ts: Seq<Seq<char>>) -> Seq<char>
    decreases ts.len(),
{
    if ts.len() == 0 {
        Seq::empty()
    } else if ts.len() == 1 {
        ts[0]
    } else {
        join_spaced(ts.drop_last()) + " "@ + ts.last()
    }
}

/// The FTS5 query for user input `q`: each white-space separated word,
/// cleaned and double-quoted, joined by spaces; `""` when no word remains.
pub open spec fn fts_query_spec(q: Seq<char>) -> Seq<char> {
    let ts = quoted_terms(words(q));
    if ts.len() == 0 {
        "\"\""@
    } else {
        join_spaced(ts)
    }
}

/// A character that may appear in a built query: a kept character, the
/// quote around a term, or the space between terms.
pub open spec fn fts_safe_char(c: char) -> bool {
    keep_char(c) || c == '"' || c == ' '
}

/// Every character of `s` may appear in a built query.
pub open spec fn all_fts_safe(s: Seq<char>) -> bool {
    forall|i: int| 0 <= i < s.len() ==> fts_safe_char(#[trigger] s[i])
}

proof fn lemma_clean_word_kept(w: Seq<char>)
    ensures
        forall|i: int| 0 <= i < clean_word(w).len() ==> keep_char(#[trigger] clean_word(w)[i]),
    decreases w.len(),
{
    if w.len() > 0 {
        lemma_clean_word_kept(w.drop_last());
        let a = clean_word(w.drop_last());
        assert forall|i: int| 0 <= i < clean_word(w).len() implies keep_char(
            #[trigger] clean_word(w)[i],
        ) by {
            if i >= a.len() {
                assert(clean_word(w)[i] == w.last());
            } else {
                assert(clean_word(w)[i] == a[i]);
            }
        }
    }
}

proof fn lemma_quoted_terms_safe(ws: Seq<Seq<char>>)
    ensures
        forall|k: int| 0 <= k < quoted_terms(ws).len() ==> all_fts_safe(#[trigger] quoted_terms(ws)[k]),
    decreases ws.len(),
{
    if ws.len() > 0 {
        lemma_quoted_terms_safe(ws.drop_last());
        let c = clean_word(ws.last());
        lemma_clean_word_kept(ws.last());
        reveal_strlit("\"");
        let t = "\""@ + c + "\""@;
        assert forall|i: int| 0 <= i < t.len() implies fts_safe_char(#[trigger] t[i]) by {
            if 1 <= i < t.len() - 1 {
                assert(t[i] == c[i - 1]);
            }
        }
        let prev = quoted_terms(ws.drop_last());
        assert forall|k: int| 0 <= k < quoted_terms(ws).len() implies all_fts_safe(
            #[trigger] quoted_terms(ws)[k],
        ) by {
            if k < prev.len() {
                assert(quoted_terms(ws)[k] == prev[k]);
            }
        }
    }
}

proof fn lemma_join_safe(ts: Seq<Seq<char>>)
    requires
        forall|k: int| 0 <= k < ts.len() ==> all_fts_safe(#[trigger] ts[k]),
    ensures
        all_fts_safe(join_spaced(ts)),
    decreases ts.len(),
{
    if ts.len() > 1 {
        let p = ts.drop_last();
        assert forall|k: int| 0 <= k < p.len() implies all_fts_safe(#[trigger] p[k]) by {
            assert(p[k] == ts[k]);
        }
        lemma_join_safe(p);
        let a = join_spaced(p);
        let l = ts.last();
        assert(all_fts_safe(l)) by {
            assert(l == ts[ts.len() - 1]);
        }
        reveal_strlit(" ");
        let j = a + " "@ + l;
        assert forall|i: int| 0 <= i < j.len() implies fts_safe_char(#[trigger] j[i]) by {
            if i < a.len() {
                assert(j[i] == a[i]);
            } else if i > a.len() {
                assert(j[i] == l[i - a.len() - 1]);
            }
        }
    } else if ts.len() == 1 {
        assert(all_fts_safe(ts[0]));
    }
}

/// A built query holds nothing but kept characters, the double quotes
/// around terms and the spaces between them: user punctuation cannot reach
/// FTS5 as an operator.
pub proof fn lemma_fts_query_is_quoted_terms(q: Seq<char>)
    ensures
        all_fts_safe(fts_query_spec(q)),
{
    lemma_quoted_terms_safe(words(q));
    let ts = quoted_terms(words(q));
    if ts.len() == 0 {
        reveal_strlit("\"\"");
    } else {
        lemma_join_safe(ts);
    }
}

/// The characters of `w` that are kept.
fn clean(w: &Vec<char>) -> (r: Vec<char>)
    ensures
        r@ == clean_word(w@),
{
    let mut out: Vec<char> = Vec::new();
    let mut i: usize = 0;
    while i < w.len()
        invariant
            i <= w@.len(),
            out@ == clean_word(w@.subrange(0, i as int)),
        decreases w@.len() - i,
    {
        let c = w[i];
        proof {
            assert(w@.subrange(0, i as int + 1).drop_last() =~= w@.subrange(0, i as int));
        }
        if char_is_alphanumeric(c) || c == '-' || c == '_' {
            out.push(c);
        }
        i = i + 1;
        proof {
            assert(out@ =~= clean_word(w@.subrange(0, i as int)));
        }
    }
    proof {
        assert(w@.subrange(0, w@.len() as int) =~= w@);
    }
    out
}

/// Builds the FTS5 query for a search box input.
pub fn fts_query(q: &str) -> (r: String)
    ensures
        r@ == fts_query_spec(q@),
{
    let ws = split_whitespace(&chars_of(q));
    let mut out: Vec<char> = Vec::new();
    let mut count: usize = 0;
    let mut i: usize = 0;
    while i < ws.len()
        invariant
            i <= ws@.len(),
            views(ws@) == words(q@),
            count == quoted_terms(views(ws@).subrange(0, i as int)).len(),
            count <= i,
            out@ == join_spaced(quoted_terms(views(ws@).subrange(0, i as int))),
        decreases ws@.len() - i,
    {
        let ghost prev = views(ws@).subrange(0, i as int);
        proof {
            assert(views(ws@).subrange(0, i as int + 1).drop_last() =~= prev);
            assert(views(ws@).subrange(0, i as int + 1).last() == ws@[i as int]@);
        }
        let c = clean(&ws[i]);
        if c.len() > 0 {
            let ghost before = out@;
            if count > 0 {
                out.push(' ');
            }
            out.push('"');
            push_all(&mut out, &c);
            out.push('"');
            count = count + 1;
            proof {
                let ts = quoted_terms(views(ws@).subrange(0, i as int + 1));
                assert(ts == quoted_terms(prev).push("\""@ + c@ + "\""@));
                assert(ts.drop_last() =~= quoted_terms(prev));
                reveal_strlit("\"");
                reveal_strlit(" ");
                if count > 1 {
                    assert(out@ =~= join_spaced(ts.drop_last()) + " "@ + ts.last());
                } else {
                    assert(out@ =~= ts[0]);
                }
            }
        }
        i = i + 1;
    }
    proof {
        assert(views(ws@).subrange(0, ws@.len() as int) =~= views(ws@));
    }
    if count == 0 {
        let e = chars_of("\"\"");
        return string_from_chars(&e);
    }
    string_from_chars(&out)
}

} // verus!
