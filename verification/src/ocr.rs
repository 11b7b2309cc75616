//! OCR with Tesseract: which images it reads directly, the command line it
//! runs with, and what is stored from its output.

use crate::config::OcrEngineKind;
use crate::text::{
    ascii_lower_seq, ascii_lowercase, chars_of, eq_chars, push_str, string_from_chars,
    string_views, trim, trim_chars,
};
use vstd::prelude::*;

verus! {

/// The Tesseract OCR engine.
#[derive(Clone, Copy, Debug, PartialEq, Eq)]
pub struct TesseractEngine;

/// The engine for a configured engine kind.
pub fn build_engine(kind: OcrEngineKind) -> (e: TesseractEngine)
    ensures
        e == TesseractEngine,
{
    match kind {
        OcrEngineKind::Tesseract => TesseractEngine,
    }
}

/// Image extensions Tesseract reads itself (ASCII case ignored); other
/// images (such as WebP) are first converted to a grayscale PNG.
pub open spec fn reads_directly_spec(ext: Option<Seq<char>>) -> bool {
    match ext {
        Some(e) => {
            let l = ascii_lower_seq(e);
            l == "png"@ || l == "jpg"@ || l == "jpeg"@ || l == "tif"@ || l == "tiff"@ || l
                == "bmp"@
        },
        None => false,
    }
}

/// The arguments of a Tesseract run on `input`, printing to stdout: English,
/// 220 dpi, a single text block, default engine.
pub open spec fn tesseract_args_spec(input: Seq<char>) -> Seq<Seq<char>> {
    seq![
        input,
        "stdout"@,
        "-l"@,
        "eng"@,
        "--dpi"@,
        "220"@,
        "--psm"@,
        "6"@,
        "--oem"@,
        "3"@,
    ]
}

impl TesseractEngine {
    /// Whether an image with extension `ext` is handed to Tesseract as is.
    pub fn reads_directly(&self, ext: Option<&str>) -> (b: bool)
        ensures
            b == reads_directly_spec(
                match ext {
                    Some(e) => Some(e@),
                    None => None,
                },
            ),
    {
        match ext {
            Some(e) => {
                let l = ascii_lowercase(&chars_of(e));
                eq_chars(&l, &chars_of("png")) || eq_chars(&l, &chars_of("jpg")) || eq_chars(
                    &l,
                    &chars_of("jpeg"),
                ) || eq_chars(&l, &chars_of("tif")) || eq_chars(&l, &chars_of("tiff"))
                    || eq_chars(&l, &chars_of("bmp"))
            },
            None => false,
        }
    }

    /// The command-line arguments for reading `input`.
    pub fn args(&self, input: &str) -> (r: Vec<String>)
        ensures
            string_views(r@) == tesseract_args_spec(input@),
    {
        let mut v: Vec<String> = Vec::new();
        v.push(input.to_owned());
        v.push("stdout".to_owned());
        v.push("-l".to_owned());
        v.push("eng".to_owned());
        v.push("--dpi".to_owned());
        v.push("220".to_owned());
        v.push("--psm".to_owned());
        v.push("6".to_owned());
        v.push("--oem".to_owned());
        v.push("3".to_owned());
        proof {
            assert(string_views(v@) =~= tesseract_args_spec(input@));
        }
        v
    }

    /// The result of a Tesseract run: its trimmed stdout on success, else an
    /// error with its trimmed stderr.
    pub fn run_outcome(&self, success: bool, stdout: &str, stderr: &str) -> (r: Result<
        String,
        String,
    >)
        ensures
            match r {
                Ok(t) => success && t@ == trim(stdout@),
                Err(e) => !success && e@ == "tesseract run failed: "@ + trim(stderr@),
            },
    {
        if !success {
            let mut d: Vec<char> = Vec::new();
            push_str(&mut d, "tesseract run failed: ");
            let t = trim_chars(&chars_of(stderr));
            let mut i: usize = 0;
            let ghost start = d@;
            while i < t.len()
                invariant
                    i <= t@.len(),
                    d@ == start + t@.take(i as int),
                decreases t@.len() - i,
            {
                d.push(t[i]);
                i = i + 1;
                proof {
                    assert(d@ =~= start + t@.take(i as int));
                }
            }
            proof {
                assert(t@.take(t@.len() as int) =~= t@);
            }
            return Err(string_from_chars(&d));
        }
        Ok(string_from_chars(&trim_chars(&chars_of(stdout))))
    }
}

/// What is stored for a frame after OCR: the text found, or the empty text
/// when OCR failed (so the frame is not retried forever).
pub fn ocr_stored_text(result: Result<String, String>) -> (r: String)
    ensures
        match result {
            Ok(t) => r@ == t@,
            Err(_) => r@ == Seq::<char>::empty(),
        },
{
    match result {
        Ok(t) => t,
        Err(_) => String::new(),
    }
}

} // verus!
