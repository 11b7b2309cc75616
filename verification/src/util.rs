//! Platform helpers that decide on plain values: friendly monitor names
//! from what the display APIs report, and the first usable path among
//! known install locations.

use crate::text::{
    ascii_lower_seq, chars_of, eq_ignore_ascii_case, string_from_chars, string_views, trim,
    trim_chars,
};
use vstd::prelude::*;

verus! {

/// The foreground window: its title and the file name of its executable.
#[derive(Clone, Debug)]
pub struct WindowInfo {
    pub title: String,
    pub process: String,
}

/// A display name worth showing: trimmed, not blank, and not the generic
/// "Generic PnP Monitor" (ASCII case ignored).
pub open spec fn friendly_name_spec(raw: Seq<char>) -> Option<Seq<char>> {
    let t = trim(raw);
    if t.len() == 0 || ascii_lower_seq(t) == ascii_lower_seq("generic pnp monitor"@) {
        None
    } else {
        Some(t)
    }
}

/// The friendly form of a name reported by the display API, if any.
pub fn accept_friendly_name(raw: &str) -> (r: Option<String>)
    ensures
        match r {
            Some(s) => friendly_name_spec(raw@) == Some(s@),
            None => friendly_name_spec(raw@) is None,
        },
{
    let t = trim_chars(&chars_of(raw));
    if t.len() == 0 || eq_ignore_ascii_case(&t, &chars_of("generic pnp monitor")) {
        None
    } else {
        Some(string_from_chars(&t))
    }
}

/// The entries of the display-configuration map built from the
/// (GDI device name, monitor name) pairs the API reports, in order: pairs
/// with a blank device name or no friendly name are left out; names are
/// trimmed.
pub open spec fn display_entries_spec(pairs: Seq<(Seq<char>, Seq<char>)>) -> Seq<
    (Seq<char>, Seq<char>),
>
    decreases pairs.len(),
{
    if pairs.len() == 0 {
        Seq::empty()
    } else {
        let prev = display_entries_spec(pairs.drop_last());
        let (gdi, name) = pairs.last();
        if trim(gdi).len() > 0 && friendly_name_spec(name) is Some {
            prev.push((trim(gdi), friendly_name_spec(name)->0))
        } else {
            prev
        }
    }
}

/// Views of (String, String) pairs.
pub open spec fn pair_views(v: Seq<(String, String)>) -> Seq<(Seq<char>, Seq<char>)> {
    v.map_values(|p: (String, String)| (p.0@, p.1@))
}

/// The display-configuration entries of the reported pairs.
pub fn display_config_entries(pairs: &Vec<(String, String)>) -> (r: Vec<(String, String)>)
    ensures
        pair_views(r@) == display_entries_spec(pair_views(pairs@)),
{
    let mut out: Vec<(String, String)> = Vec::new();
    let mut i: usize = 0;
    while i < pairs.len()
        invariant
            i <= pairs@.len(),
            pair_views(out@) == display_entries_spec(pair_views(pairs@).subrange(0, i as int)),
        decreases pairs@.len() - i,
    {
        proof {
            assert(pair_views(pairs@).subrange(0, i as int + 1).drop_last() =~= pair_views(
                pairs@,
            ).subrange(0, i as int));
            assert(pair_views(pairs@).subrange(0, i as int + 1).last() == (
                pairs@[i as int].0@,
                pairs@[i as int].1@,
            ));
        }
        let g = trim_chars(&chars_of(pairs[i].0.as_str()));
        if g.len() > 0 {
            match accept_friendly_name(pairs[i].1.as_str()) {
                Some(name) => {
                    let ghost before = pair_views(out@);
                    let gs = string_from_chars(&g);
                    out.push((gs, name));
                    proof {
                        assert(pair_views(out@) =~= before.push((gs@, name@)));
                    }
                },
                None => {},
            }
        }
        i = i + 1;
    }
    proof {
        assert(pair_views(pairs@).subrange(0, pairs@.len() as int) =~= pair_views(pairs@));
    }
    out
}

/// The value of the last entry for `key` (a later insertion replaces an
/// earlier one).
pub open spec fn last_entry_for(entries: Seq<(Seq<char>, Seq<char>)>, key: Seq<char>) -> Option<
    Seq<char>,
>
    decreases entries.len(),
{
    if entries.len() == 0 {
        None
    } else if entries.last().0 == key {
        Some(entries.last().1)
    } else {
        last_entry_for(entries.drop_last(), key)
    }
}

/// The friendly name of monitor `gdi_name`: its display-configuration
/// entry, else the accepted device string of the older enumeration API.
pub open spec fn friendly_monitor_name_spec(
    gdi_name: Seq<char>,
    entries: Seq<(Seq<char>, Seq<char>)>,
    device_string: Option<Seq<char>>,
) -> Option<Seq<char>> {
    match last_entry_for(entries, gdi_name) {
        Some(n) => Some(n),
        None => match device_string {
            Some(d) => friendly_name_spec(d),
            None => None,
        },
    }
}

/// Maps a GDI device name (e.g. `\\.\DISPLAY1`) to a model name such as
/// "AW3225QF", from the display-configuration entries and the device
/// string the enumeration API reported (if it answered).
pub fn friendly_monitor_name(
    gdi_name: &str,
    entries: &Vec<(String, String)>,
    device_string: Option<&str>,
) -> (r: Option<String>)
    ensures
        match r {
            Some(s) => friendly_monitor_name_spec(
                gdi_name@,
                pair_views(entries@),
                match device_string {
                    Some(d) => Some(d@),
                    None => None,
                },
            ) == Some(s@),
            None => friendly_monitor_name_spec(
                gdi_name@,
                pair_views(entries@),
                match device_string {
                    Some(d) => Some(d@),
                    None => None,
                },
            ) is None,
        },
{
    let mut i = entries.len();
    proof {
        assert(pair_views(entries@).subrange(0, i as int) =~= pair_views(entries@));
    }
    while i > 0
        invariant
            i <= entries@.len(),
            last_entry_for(pair_views(entries@), gdi_name@) == last_entry_for(
                pair_views(entries@).subrange(0, i as int),
                gdi_name@,
            ),
        decreases i,
    {
        let ghost p = pair_views(entries@).subrange(0, i as int);
        proof {
            assert(p.drop_last() =~= pair_views(entries@).subrange(0, i as int - 1));
            assert(p.last() == (entries@[i - 1].0@, entries@[i - 1].1@));
        }
        if entries[i - 1].0 == gdi_name.to_owned() {
            return Some(entries[i - 1].1.clone());
        }
        i = i - 1;
    }
    match device_string {
        Some(d) => accept_friendly_name(d),
        None => None,
    }
}

/// The prefix of `units` before the first zero (a NUL-terminated buffer).
pub open spec fn until_nul(units: Seq<u16>) -> Seq<u16>
    decreases units.len(),
{
    if units.len() == 0 {
        units
    } else if units.drop_last().contains(0u16) {
        until_nul(units.drop_last())
    } else if units.last() == 0 {
        units.drop_last()
    } else {
        units
    }
}

/// UTF-16 decoding with replacement: a unit outside the surrogate range is
/// its own character, a high surrogate followed by a low one is the
/// supplementary character they encode, and every unpaired surrogate
/// becomes U+FFFD.
pub open spec fn utf16_lossy(u: Seq<u16>) -> Seq<char>
    decreases u.len(),
{
    if u.len() == 0 {
        Seq::empty()
    } else if u[0] < 0xD800 || u[0] > 0xDFFF {
        seq![u[0] as char] + utf16_lossy(u.skip(1))
    } else if u[0] <= 0xDBFF && u.len() >= 2 && 0xDC00 <= u[1] && u[1] <= 0xDFFF {
        seq![(0x10000 + (u[0] - 0xD800) * 0x400 + (u[1] - 0xDC00)) as char] + utf16_lossy(
            u.skip(2),
        )
    } else {
        seq!['\u{FFFD}'] + utf16_lossy(u.skip(1))
    }
}

/// std's `String::from_utf16_lossy`: decodes UTF-16 (as `char::decode_utf16`
/// does), replacing each unpaired surrogate with U+FFFD.
#[verifier::external_body]
fn from_utf16_lossy(units: &[u16]) -> (s: String)
    ensures
        s@ == utf16_lossy(units@),
{
    String::from_utf16_lossy(units)
}

/// Decodes a NUL-terminated UTF-16 buffer of the display APIs.
pub fn utf16_to_string(arr: &[u16]) -> (r: String)
    ensures
        r@ == utf16_lossy(until_nul(arr@)),
{
    let n = arr.len();
    let mut len: usize = 0;
    while len < n && arr[len] != 0
        invariant
            len <= n == arr@.len(),
            forall|j: int| 0 <= j < len ==> arr@[j] != 0,
        decreases n - len,
    {
        len = len + 1;
    }
    let mut prefix: Vec<u16> = Vec::new();
    let mut k: usize = 0;
    while k < len
        invariant
            k <= len <= arr@.len(),
            prefix@ == arr@.take(k as int),
        decreases len - k,
    {
        prefix.push(arr[k]);
        k = k + 1;
        proof {
            assert(prefix@ =~= arr@.take(k as int));
        }
    }
    proof {
        lemma_until_nul(arr@, len as int);
    }
    from_utf16_lossy(prefix.as_slice())
}

proof fn lemma_until_nul(u: Seq<u16>, i: int)
    requires
        0 <= i <= u.len(),
        forall|j: int| 0 <= j < i ==> u[j] != 0,
        i < u.len() ==> u[i] == 0,
    ensures
        until_nul(u) == u.take(i),
    decreases u.len(),
{
    if u.len() > 0 {
        if i < u.len() {
            if u.drop_last().contains(0u16) {
                if i == u.len() - 1 {
                    let w = choose|j: int| 0 <= j < u.drop_last().len() && u.drop_last()[j] == 0u16;
                    assert(u[w] == 0);
                    assert(false);
                }
                lemma_until_nul(u.drop_last(), i);
                assert(u.drop_last().take(i) =~= u.take(i));
            } else {
                if i < u.len() - 1 {
                    assert(u.drop_last()[i] == 0);
                    assert(false);
                }
                assert(u.drop_last() =~= u.take(i));
            }
        } else {
            assert(!u.drop_last().contains(0u16)) by {
                if u.drop_last().contains(0u16) {
                    let w = choose|j: int| 0 <= j < u.drop_last().len() && u.drop_last()[j] == 0u16;
                    assert(u[w] == 0);
                }
            }
            assert(u.take(i) =~= u);
        }
    }
}

/// The first candidate whose check succeeded (`present[i]` tells whether
/// `candidates[i]` exists or runs).
pub open spec fn first_present_spec(candidates: Seq<Seq<char>>, present: Seq<bool>) -> Option<
    Seq<char>,
>
    decreases candidates.len(),
{
    if candidates.len() == 0 || present.len() == 0 {
        None
    } else if present[0] {
        Some(candidates[0])
    } else {
        first_present_spec(candidates.drop_first(), present.drop_first())
    }
}

/// The first of the known paths that was found (file-existence or
/// `--version` checks made by the caller, one per candidate).
pub fn probe_known_path(candidates: &Vec<String>, present: &Vec<bool>) -> (r: Option<String>)
    ensures
        match r {
            Some(s) => first_present_spec(string_views(candidates@), present@) == Some(s@),
            None => first_present_spec(string_views(candidates@), present@) is None,
        },
{
    let mut i: usize = 0;
    proof {
        assert(string_views(candidates@).skip(0) =~= string_views(candidates@));
        assert(present@.skip(0) =~= present@);
    }
    while i < candidates.len() && i < present.len()
        invariant
            i <= candidates@.len(),
            i <= present@.len(),
            first_present_spec(string_views(candidates@), present@) == first_present_spec(
                string_views(candidates@).skip(i as int),
                present@.skip(i as int),
            ),
        decreases candidates@.len() - i,
    {
        let ghost c = string_views(candidates@).skip(i as int);
        let ghost p = present@.skip(i as int);
        proof {
            assert(c.drop_first() =~= string_views(candidates@).skip(i as int + 1));
            assert(p.drop_first() =~= present@.skip(i as int + 1));
            assert(c[0] == candidates@[i as int]@);
        }
        if present[i] {
            return Some(candidates[i].clone());
        }
        i = i + 1;
    }
    None
}

/// Where Tesseract is looked for without running it.
pub open spec fn tesseract_known_paths_spec(windows: bool) -> Seq<Seq<char>> {
    if windows {
        seq![
            "C:\\Program Files\\Tesseract-OCR\\tesseract.exe"@,
            "C:\\Program Files (x86)\\Tesseract-OCR\\tesseract.exe"@,
        ]
    } else {
        seq!["/usr/bin/tesseract"@, "/usr/local/bin/tesseract"@, "/opt/homebrew/bin/tesseract"@]
    }
}

/// The known Tesseract install locations of the platform.
pub fn tesseract_known_paths(windows: bool) -> (r: Vec<String>)
    ensures
        string_views(r@) == tesseract_known_paths_spec(windows),
{
    let mut v: Vec<String> = Vec::new();
    if windows {
        v.push("C:\\Program Files\\Tesseract-OCR\\tesseract.exe".to_owned());
        v.push("C:\\Program Files (x86)\\Tesseract-OCR\\tesseract.exe".to_owned());
    } else {
        v.push("/usr/bin/tesseract".to_owned());
        v.push("/usr/local/bin/tesseract".to_owned());
        v.push("/opt/homebrew/bin/tesseract".to_owned());
    }
    proof {
        assert(string_views(v@) =~= tesseract_known_paths_spec(windows));
    }
    v
}

/// The Tesseract commands tried with `--version`, in order.
pub open spec fn tesseract_candidates_spec() -> Seq<Seq<char>> {
    seq![
        "tesseract.exe"@,
        "tesseract"@,
        "C:\\Program Files\\Tesseract-OCR\\tesseract.exe"@,
        "C:\\Program Files (x86)\\Tesseract-OCR\\tesseract.exe"@,
    ]
}

/// The Tesseract commands tried with `--version`.
pub fn tesseract_candidates() -> (r: Vec<String>)
    ensures
        string_views(r@) == tesseract_candidates_spec(),
{
    let mut v: Vec<String> = Vec::new();
    v.push("tesseract.exe".to_owned());
    v.push("tesseract".to_owned());
    v.push("C:\\Program Files\\Tesseract-OCR\\tesseract.exe".to_owned());
    v.push("C:\\Program Files (x86)\\Tesseract-OCR\\tesseract.exe".to_owned());
    proof {
        assert(string_views(v@) =~= tesseract_candidates_spec());
    }
    v
}

} // verus!
