//! Output formats, and the format that a file name asks for.

use vstd::prelude::*;
use image::DynamicImage;
use crate::picture::encoded_of;

verus! {

/// The default JPEG quality used where none is given.
pub const DEFAULT_JPEG_QUALITY: u8 = 85;

/// The highest JPEG quality; higher requests are lowered to it.
pub const MAX_JPEG_QUALITY: u8 = 100;

/// An encoding that the tool writes.
#[derive(Clone, Copy, Debug, PartialEq, Eq)]
pub enum OutputFormat {
    /// JPEG at the given quality.
    Jpeg(u8),
    Png,
    WebP,
}

impl OutputFormat {
    /// JPEG qualities stay within 0..=100.
    pub open spec fn wf(self) -> bool {
        self matches OutputFormat::Jpeg(q) ==> q <= MAX_JPEG_QUALITY
    }
}

/// The extension of a path as `std::path::Path::extension` reports it.
pub uninterp spec fn extension_of(path: Seq<char>) -> Option<Seq<char>>;

/// The lower-case form of a text as `str::to_lowercase` gives it.
pub uninterp spec fn lower_of(s: Seq<char>) -> Seq<char>;

/// Relies on `std::path::Path::extension`: the text after the final `.` of
/// the path's file name, if any (a name read from a `&str` is always UTF-8);
/// none where the path holds no `.` at all.
#[verifier::external_body]
fn path_extension(path: &str) -> (r: Option<String>)
    ensures
        match r {
            Some(e) => extension_of(path@) == Some(e@),
            None => extension_of(path@) is None,
        },
        !path@.contains('.') ==> r is None,
{
    std::path::Path::new(path).extension().and_then(|e| e.to_str()).map(|e| e.to_string())
}

/// Relies on `str::to_lowercase`: the lower-case form of every character.
#[verifier::external_body]
fn lowercase(s: &str) -> (r: String)
    ensures
        r@ == lower_of(s@),
{
    s.to_lowercase()
}

/// Whether two texts hold the same characters.
pub fn same_text(a: &str, b: &str) -> (r: bool)
    ensures
        r == (a@ == b@),
{
    let n = a.unicode_len();
    if n != b.unicode_len() {
        return false;
    }
    let mut i: usize = 0;
    while i < n
        invariant
            n == a@.len() == b@.len(),
            i <= n,
            a@.subrange(0, i as int) == b@.subrange(0, i as int),
        decreases n - i,
    {
        if a.get_char(i) != b.get_char(i) {
            assert(a@[i as int] != b@[i as int]);
            return false;
        }
        assert(a@.subrange(0, i as int + 1) =~= a@.subrange(0, i as int).push(a@[i as int]));
        assert(b@.subrange(0, i as int + 1) =~= b@.subrange(0, i as int).push(b@[i as int]));
        i = i + 1;
    }
    assert(a@ =~= a@.subrange(0, n as int));
    assert(b@ =~= b@.subrange(0, n as int));
    true
}

/// The format that an extension names, matched case-sensitively; anything
/// else, and no extension, means PNG.
pub open spec fn format_for_extension(ext: Option<Seq<char>>) -> OutputFormat {
    match ext {
        Some(e) => if e == "jpg"@ || e == "jpeg"@ {
            OutputFormat::Jpeg(DEFAULT_JPEG_QUALITY)
        } else if e == "webp"@ {
            OutputFormat::WebP
        } else {
            OutputFormat::Png
        },
        None => OutputFormat::Png,
    }
}

/// The format that an explicitly named target stands for, once lower-cased.
pub open spec fn format_named_spec(name: Seq<char>) -> Option<OutputFormat> {
    if name == "jpg"@ || name == "jpeg"@ {
        Some(OutputFormat::Jpeg(DEFAULT_JPEG_QUALITY))
    } else if name == "png"@ {
        Some(OutputFormat::Png)
    } else if name == "webp"@ {
        Some(OutputFormat::WebP)
    } else {
        None
    }
}

/// The format named by an already lower-cased format word.
pub fn format_named(name: &str) -> (r: Option<OutputFormat>)
    ensures
        r == format_named_spec(name@),
        r matches Some(f) ==> f.wf(),
{
    if same_text(name, "jpg") || same_text(name, "jpeg") {
        Some(OutputFormat::Jpeg(DEFAULT_JPEG_QUALITY))
    } else if same_text(name, "png") {
        Some(OutputFormat::Png)
    } else if same_text(name, "webp") {
        Some(OutputFormat::WebP)
    } else {
        None
    }
}

/// The format that a target word names, whatever its case
/// (`jpg`/`jpeg`, `png`, `webp`), with the lower-cased word.
pub fn parse_format(word: &str) -> (r: (String, Option<OutputFormat>))
    ensures
        r.0@ == lower_of(word@),
        r.1 == format_named_spec(lower_of(word@)),
{
    let lower = lowercase(word);
    let f = format_named(lower.as_str());
    (lower, f)
}

/// The format that an extension (as a path reports it) asks for.
pub fn extension_format(ext: Option<String>) -> (r: OutputFormat)
    ensures
        r == format_for_extension(
            match ext {
                Some(e) => Some(e@),
                None => None,
            },
        ),
        r.wf(),
{
    match ext {
        Some(e) => {
            let e = e.as_str();
            if same_text(e, "jpg") || same_text(e, "jpeg") {
                OutputFormat::Jpeg(DEFAULT_JPEG_QUALITY)
            } else if same_text(e, "webp") {
                OutputFormat::WebP
            } else {
                OutputFormat::Png
            }
        },
        None => OutputFormat::Png,
    }
}

/// The format in which a file is written, judged by its extension alone.
pub fn get_format(path: &str) -> (r: OutputFormat)
    ensures
        r == format_for_extension(extension_of(path@)),
        r.wf(),
{
    extension_format(path_extension(path))
}

/// The quality that JPEG compression uses for a requested one: at most 100.
pub open spec fn clamp_quality(q: u8) -> u8 {
    if q > MAX_JPEG_QUALITY {
        MAX_JPEG_QUALITY
    } else {
        q
    }
}

/// The format in which compression writes `output`: JPEG at the requested
/// quality (at most 100) where the extension asks for JPEG, else the
/// extension's format unchanged.
pub open spec fn compress_format_spec(ext: Option<Seq<char>>, quality: u8) -> OutputFormat {
    match format_for_extension(ext) {
        OutputFormat::Jpeg(_) => OutputFormat::Jpeg(clamp_quality(quality)),
        f => f,
    }
}

/// Compression into a file whose extension does not ask for JPEG writes the
/// extension's format, whatever quality was requested, and so the same bytes.
pub proof fn lemma_compress_ignores_quality_off_jpeg(
    img: DynamicImage,
    ext: Option<Seq<char>>,
    q1: u8,
    q2: u8,
)
    requires
        !(format_for_extension(ext) is Jpeg),
    ensures
        compress_format_spec(ext, q1) == format_for_extension(ext),
        compress_format_spec(ext, q1) == compress_format_spec(ext, q2),
        encoded_of(img, compress_format_spec(ext, q1)) == encoded_of(
            img,
            compress_format_spec(ext, q2),
        ),
{
}

/// The format in which compression writes `output`.
pub fn compress_format(output: &str, quality: u8) -> (r: OutputFormat)
    ensures
        r == compress_format_spec(extension_of(output@), quality),
        r.wf(),
{
    match get_format(output) {
        OutputFormat::Jpeg(_) => OutputFormat::Jpeg(
            if quality > MAX_JPEG_QUALITY {
                MAX_JPEG_QUALITY
            } else {
                quality
            },
        ),
        f => f,
    }
}

} // verus!
