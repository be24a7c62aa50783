//! Format classification: magic bytes first, the file name's extension as a
//! fallback, and plain text as the last resort.

use vstd::prelude::*;
use vstd::string::StrSliceExecFns;
use crate::magic::DetectedFormat;
use crate::magic::DocumentFormat;
use crate::magic::detect_by_magic;
use crate::magic::spec_detect_by_magic;

verus! {

/// A document format that is converted and viewed through the pager.
#[derive(Debug, Clone, Copy, PartialEq, Eq, Structural)]
pub enum DocumentKind {
    Markdown,
    Pdf,
}

/// How a file is presented: converted into a paged document, drawn directly
/// as an image, or printed directly as plain text.
#[derive(Debug, Clone, Copy, PartialEq, Eq, Structural)]
pub enum FormatKind {
    Document(DocumentKind),
    Image,
    Text,
}

/// What can go wrong while producing a document: the backing content could
/// not be read, or it could not be converted into semantic events.
#[derive(Debug)]
pub enum FormatError {
    Io(String),
    Parse(String),
}

/// The characters of `s` after lowercasing.
pub uninterp spec fn lower_of(s: Seq<char>) -> Seq<char>;

/// Relies on str::to_lowercase: the result depends on the characters alone.
#[verifier::external_body]
fn lowercase(s: &str) -> (r: String)
    ensures
        r@ == lower_of(s@),
{
    s.to_lowercase()
}

/// Character-for-character string equality.
pub fn str_eq(a: &str, b: &str) -> (r: bool)
    ensures
        r == (a@ == b@),
{
    let n = a.unicode_len();
    let m = b.unicode_len();
    if n != m {
        return false;
    }
    let mut i: usize = 0;
    while i < n
        invariant
            i <= n,
            n == a@.len(),
            n == b@.len(),
            forall|j: int| 0 <= j < i ==> a@[j] == b@[j],
        decreases n - i,
    {
        if a.get_char(i) != b.get_char(i) {
            return false;
        }
        i = i + 1;
    }
    proof {
        assert(a@ =~= b@);
    }
    true
}

/// The lowercased extension names an image format.
pub open spec fn is_image_ext(l: Seq<char>) -> bool {
    ||| l == "png"@
    ||| l == "jpg"@
    ||| l == "jpeg"@
    ||| l == "gif"@
    ||| l == "bmp"@
    ||| l == "webp"@
    ||| l == "tiff"@
    ||| l == "tif"@
    ||| l == "ico"@
}

/// The lowercased extension names a plain-text format.
pub open spec fn is_text_ext(l: Seq<char>) -> bool {
    ||| l == "txt"@
    ||| l == "text"@
    ||| l == "log"@
    ||| l == "csv"@
    ||| l == "json"@
    ||| l == "xml"@
    ||| l == "yaml"@
    ||| l == "yml"@
    ||| l == "toml"@
    ||| l == "ini"@
    ||| l == "cfg"@
    ||| l == "conf"@
    ||| l == "sh"@
    ||| l == "bash"@
    ||| l == "zsh"@
    ||| l == "fish"@
    ||| l == "py"@
    ||| l == "rb"@
    ||| l == "js"@
    ||| l == "ts"@
    ||| l == "go"@
    ||| l == "rs"@
    ||| l == "c"@
    ||| l == "cpp"@
    ||| l == "h"@
    ||| l == "hpp"@
    ||| l == "java"@
    ||| l == "kt"@
    ||| l == "swift"@
    ||| l == "lua"@
    ||| l == "perl"@
    ||| l == "php"@
    ||| l == "sql"@
    ||| l == "html"@
    ||| l == "css"@
    ||| l == "scss"@
    ||| l == "sass"@
    ||| l == "less"@
    ||| l == "vue"@
    ||| l == "svelte"@
}

/// The lowercased extension names the markup document format.
pub open spec fn is_markdown_ext(l: Seq<char>) -> bool {
    ||| l == "md"@
    ||| l == "markdown"@
    ||| l == "mdown"@
    ||| l == "mkd"@
}

/// The format an extension names, tried image first, plain text second, the
/// document formats last; `None` when it names none of them.
pub open spec fn spec_detect_by_extension(ext: Seq<char>) -> Option<FormatKind> {
    let l = lower_of(ext);
    if is_image_ext(l) {
        Some(FormatKind::Image)
    } else if is_text_ext(l) {
        Some(FormatKind::Text)
    } else if is_markdown_ext(l) {
        Some(FormatKind::Document(DocumentKind::Markdown))
    } else if l == "pdf"@ {
        Some(FormatKind::Document(DocumentKind::Pdf))
    } else {
        None
    }
}

fn is_image_ext_exec(l: &str) -> (r: bool)
    ensures
        r == is_image_ext(l@),
{
    str_eq(l, "png") || str_eq(l, "jpg") || str_eq(l, "jpeg") || str_eq(l, "gif") || str_eq(
        l,
        "bmp",
    ) || str_eq(l, "webp") || str_eq(l, "tiff") || str_eq(l, "tif") || str_eq(l, "ico")
}

fn is_text_ext_exec(l: &str) -> (r: bool)
    ensures
        r == is_text_ext(l@),
{
    str_eq(l, "txt") || str_eq(l, "text") || str_eq(l, "log") || str_eq(l, "csv") || str_eq(
        l,
        "json",
    ) || str_eq(l, "xml") || str_eq(l, "yaml") || str_eq(l, "yml") || str_eq(l, "toml") || str_eq(
        l,
        "ini",
    ) || str_eq(l, "cfg") || str_eq(l, "conf") || str_eq(l, "sh") || str_eq(l, "bash") || str_eq(
        l,
        "zsh",
    ) || str_eq(l, "fish") || str_eq(l, "py") || str_eq(l, "rb") || str_eq(l, "js") || str_eq(
        l,
        "ts",
    ) || str_eq(l, "go") || str_eq(l, "rs") || str_eq(l, "c") || str_eq(l, "cpp") || str_eq(
        l,
        "h",
    ) || str_eq(l, "hpp") || str_eq(l, "java") || str_eq(l, "kt") || str_eq(l, "swift") || str_eq(
        l,
        "lua",
    ) || str_eq(l, "perl") || str_eq(l, "php") || str_eq(l, "sql") || str_eq(l, "html") || str_eq(
        l,
        "css",
    ) || str_eq(l, "scss") || str_eq(l, "sass") || str_eq(l, "less") || str_eq(l, "vue") || str_eq(
        l,
        "svelte",
    )
}

fn is_markdown_ext_exec(l: &str) -> (r: bool)
    ensures
        r == is_markdown_ext(l@),
{
    str_eq(l, "md") || str_eq(l, "markdown") || str_eq(l, "mdown") || str_eq(l, "mkd")
}

/// Classifies a file by its name's extension alone, used as a fallback when
/// no magic bytes matched.
pub fn detect_format_by_extension(ext: &str) -> (r: Option<FormatKind>)
    ensures
        r == spec_detect_by_extension(ext@),
{
    let low = lowercase(ext);
    let l = low.as_str();
    if is_image_ext_exec(l) {
        Some(FormatKind::Image)
    } else if is_text_ext_exec(l) {
        Some(FormatKind::Text)
    } else if is_markdown_ext_exec(l) {
        Some(FormatKind::Document(DocumentKind::Markdown))
    } else if str_eq(l, "pdf") {
        Some(FormatKind::Document(DocumentKind::Pdf))
    } else {
        None
    }
}

/// The presentation chosen for a file: magic bytes from the head of its
/// content win; otherwise its extension decides; a file with no recognised
/// extension (or none at all) is shown as plain text.
pub open spec fn spec_detect_format(header: Seq<u8>, ext: Option<Seq<char>>) -> FormatKind {
    match spec_detect_by_magic(header) {
        Some(DetectedFormat::Image(_)) => FormatKind::Image,
        Some(DetectedFormat::Document(DocumentFormat::Pdf)) => FormatKind::Document(
            DocumentKind::Pdf,
        ),
        None => match ext {
            Some(e) => match spec_detect_by_extension(e) {
                Some(k) => k,
                None => FormatKind::Text,
            },
            None => FormatKind::Text,
        },
    }
}

/// Classifies a file from the bytes at its head and its name's extension.
/// Magic-byte detection is tried first as the more reliable signal; the
/// extension is the fallback, and plain text the last resort.
pub fn detect_format(header: &[u8], ext: Option<&str>) -> (r: Option<FormatKind>)
    ensures
        r == Some(spec_detect_format(header@, match ext {
            Some(e) => Some(e@),
            None => None,
        })),
{
    match detect_by_magic(header) {
        Some(DetectedFormat::Image(_)) => Some(FormatKind::Image),
        Some(DetectedFormat::Document(DocumentFormat::Pdf)) => Some(
            FormatKind::Document(DocumentKind::Pdf),
        ),
        None => match ext {
            Some(e) => match detect_format_by_extension(e) {
                Some(k) => Some(k),
                None => Some(FormatKind::Text),
            },
            None => Some(FormatKind::Text),
        },
    }
}

} // verus!
