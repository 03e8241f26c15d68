//! File-to-content conversion: classifying files by extension, packaging
//! bytes as data URLs for the model, and naming conversion-cache entries by
//! content digest. Reading files stays in the surrounding runtime.

use base64::Engine;
use sha2::Digest;
use vstd::prelude::*;
use vstd::string::{StrSliceExecFns, StringExecFns};

use crate::interaction::{Content, ContentV, FileData, ImageUrl};
use crate::textfmt::{hex_digit_char, hex_digit_of, push_char, str_eq};

verus! {

/// What base64 (standard alphabet, padded) encodes the given bytes to.
pub uninterp spec fn base64_of(bytes: Seq<u8>) -> Seq<char>;

/// Relies on base64's `STANDARD` engine: the encoding of the bytes, which
/// depends on the bytes alone.
#[verifier::external_body]
pub(crate) fn b64_encode(bytes: &[u8]) -> (r: String)
    ensures
        r@ == base64_of(bytes@),
{
    base64::engine::general_purpose::STANDARD.encode(bytes)
}

/// What SHA-256 digests the given bytes to: always 32 bytes.
pub uninterp spec fn sha256_of(bytes: Seq<u8>) -> Seq<u8>;

/// Relies on sha2::Sha256: the digest of the bytes, which depends on the
/// bytes alone; its documented output size is 32 bytes.
#[verifier::external_body]
fn sha256(bytes: &[u8]) -> (r: Vec<u8>)
    ensures
        r@ == sha256_of(bytes@),
        r@.len() == 32,
{
    let digest = sha2::Sha256::digest(bytes);
    digest.to_vec()
}

/// The lowercase hexadecimal rendering of a byte string, two digits per
/// byte.
pub open spec fn hex_chars(bytes: Seq<u8>) -> Seq<char>
    decreases bytes.len(),
{
    if bytes.len() == 0 {
        Seq::empty()
    } else {
        hex_chars(bytes.drop_last()) + seq![
            hex_digit_char((bytes.last() / 16) as nat),
            hex_digit_char((bytes.last() % 16) as nat),
        ]
    }
}

/// Renders bytes as lowercase hexadecimal.
pub fn hex_string(bytes: &Vec<u8>) -> (r: String)
    ensures
        r@ == hex_chars(bytes@),
        r@.len() == 2 * bytes@.len(),
{
    let mut out = String::new();
    let mut i: usize = 0;
    proof {
        assert(out@ =~= hex_chars(bytes@.take(0)));
    }
    while i < bytes.len()
        invariant
            0 <= i <= bytes@.len(),
            out@ == hex_chars(bytes@.take(i as int)),
            out@.len() == 2 * i,
        decreases bytes@.len() - i,
    {
        let b = bytes[i];
        push_char(&mut out, hex_digit_of((b / 16) as usize));
        push_char(&mut out, hex_digit_of((b % 16) as usize));
        proof {
            let t1 = bytes@.take(i as int + 1);
            assert(t1.drop_last() =~= bytes@.take(i as int));
            assert(t1.last() == bytes@[i as int]);
            assert(out@ =~= hex_chars(t1));
        }
        i = i + 1;
    }
    proof {
        assert(bytes@.take(bytes@.len() as int) =~= bytes@);
    }
    out
}

/// The cache entry for a file: the first two digest digits name the
/// subdirectory, the rest with the target extension name the file.
pub open spec fn cache_entry_chars(bytes: Seq<u8>, ext: Seq<char>) -> (Seq<char>, Seq<char>) {
    let hash = hex_chars(sha256_of(bytes));
    (hash.take(2), hash.skip(2) + "."@ + ext)
}

/// The relative cache location for converting the given file: a
/// subdirectory named by the digest's first two digits, and a file named by
/// the remainder plus the target extension.
pub fn cache_entry(file_buffer: &[u8], target_extension: &str) -> (r: (String, String))
    ensures
        (r.0@, r.1@) == cache_entry_chars(file_buffer@, target_extension@),
{
    let digest = sha256(file_buffer);
    let hash = hex_string(&digest);
    let sub_dir = hash.as_str().substring_char(0, 2);
    let rest = hash.as_str().substring_char(2, hash.as_str().unicode_len());
    let mut name = rest.to_string();
    name.append(".");
    name.append(target_extension);
    let r = (sub_dir.to_string(), name);
    proof {
        assert(r.0@ =~= hex_chars(sha256_of(file_buffer@)).take(2));
        assert(r.1@ =~= hex_chars(sha256_of(file_buffer@)).skip(2) + "."@ + target_extension@);
    }
    r
}

/// What a file holds, judged by its name's extension.
#[derive(Debug, PartialEq, Eq, Structural)]
pub enum FileType {
    /// An image, with its MIME type.
    Image(ImageMime),
    Pdf,
    Docx,
    Pptx,
    Xlsx,
    Text,
    Unsupported,
}

/// The image formats the conversion knows.
#[derive(Debug, PartialEq, Eq, Structural)]
pub enum ImageMime {
    Jpeg,
    Png,
}

/// The extension of a file name: the characters after the last dot of its
/// last component — unless that dot opens the component, as it does in a
/// hidden file's name, which then has no extension.
pub open spec fn ext_rec(p: Seq<char>) -> Option<Seq<char>>
    decreases p.len(),
{
    if p.len() == 0 {
        None
    } else if p.last() == '.' {
        if p.len() == 1 || p[p.len() - 2] == '/' || p[p.len() - 2] == '\\' {
            None
        } else {
            Some(Seq::empty())
        }
    } else if p.last() == '/' || p.last() == '\\' {
        None
    } else {
        match ext_rec(p.drop_last()) {
            Some(e) => Some(e.push(p.last())),
            None => None,
        }
    }
}

/// The extension of a file name, or the empty string when it has none.
pub open spec fn ext_of(p: Seq<char>) -> Seq<char> {
    match ext_rec(p) {
        Some(e) => e,
        None => Seq::empty(),
    }
}

/// ASCII lowercase of one character.
pub open spec fn lower_char(c: char) -> char {
    if 'A' <= c <= 'Z' {
        (((c as int) + 32) as char)
    } else {
        c
    }
}

/// ASCII lowercase of a string.
pub open spec fn ascii_lower(s: Seq<char>) -> Seq<char> {
    s.map_values(|c: char| lower_char(c))
}

/// The extension of a file name, as executable code.
fn ext_exec(p: &str) -> (r: Option<String>)
    ensures
        match r {
            Some(e) => ext_rec(p@) == Some(e@),
            None => ext_rec(p@) is None,
        },
    decreases p@.len(),
{
    let n = p.unicode_len();
    if n == 0 {
        None
    } else {
        let c = p.get_char(n - 1);
        if c == '.' {
            if n == 1 {
                return None;
            }
            let before = p.get_char(n - 2);
            if before == '/' || before == '\\' {
                return None;
            }
            let e = String::new();
            proof {
                assert(e@ =~= Seq::<char>::empty());
            }
            Some(e)
        } else if c == '/' || c == '\\' {
            None
        } else {
            let head = p.substring_char(0, n - 1);
            proof {
                assert(head@ =~= p@.drop_last());
            }
            match ext_exec(head) {
                Some(mut e) => {
                    push_char(&mut e, c);
                    Some(e)
                },
                None => None,
            }
        }
    }
}

/// The extension of a file name, or the empty string when it has none.
pub fn ext_of_exec(p: &str) -> (r: String)
    ensures
        r@ == ext_of(p@),
{
    match ext_exec(p) {
        Some(e) => e,
        None => {
            let e = String::new();
            proof {
                assert(e@ =~= Seq::<char>::empty());
            }
            e
        },
    }
}

/// ASCII-lowercases a string.
pub fn ascii_lowercase(s: &str) -> (r: String)
    ensures
        r@ == ascii_lower(s@),
{
    ascii_lower_exec(s)
}

/// ASCII-lowercases a string.
fn ascii_lower_exec(s: &str) -> (r: String)
    ensures
        r@ == ascii_lower(s@),
{
    let n = s.unicode_len();
    let mut out = String::new();
    let mut i: usize = 0;
    proof {
        assert(out@ =~= ascii_lower(s@.take(0)));
    }
    while i < n
        invariant
            0 <= i <= n,
            n == s@.len(),
            out@ == ascii_lower(s@.take(i as int)),
        decreases n - i,
    {
        let c = s.get_char(i);
        let lc = if 'A' <= c && c <= 'Z' {
            (((c as u32) + 32) as u8) as char
        } else {
            c
        };
        push_char(&mut out, lc);
        proof {
            assert(lc == lower_char(s@[i as int]));
            assert(out@ =~= ascii_lower(s@.take(i as int + 1)));
        }
        i = i + 1;
    }
    proof {
        assert(s@.take(s@.len() as int) =~= s@);
    }
    out
}

/// Whether a lowercased extension names a plain-text format.
pub open spec fn is_text_ext(e: Seq<char>) -> bool {
    ||| e == "txt"@
    ||| e == "md"@
    ||| e == "csv"@
    ||| e == "json"@
    ||| e == "xml"@
    ||| e == "html"@
    ||| e == "css"@
    ||| e == "js"@
    ||| e == "ts"@
    ||| e == "jsx"@
    ||| e == "tsx"@
    ||| e == "py"@
    ||| e == "rb"@
    ||| e == "java"@
    ||| e == "c"@
    ||| e == "cpp"@
    ||| e == "h"@
    ||| e == "hpp"@
    ||| e == "cs"@
    ||| e == "go"@
    ||| e == "php"@
    ||| e == "swift"@
    ||| e == "kt"@
    ||| e == "rs"@
    ||| e == "toml"@
    ||| e == "yaml"@
    ||| e == "yml"@
    ||| e == "ini"@
    ||| e == "cfg"@
    ||| e == "log"@
    ||| e == "sh"@
    ||| e == "bat"@
}

/// The file type a path's lowercased extension selects.
pub open spec fn spec_file_type(p: Seq<char>) -> FileType {
    let e = ascii_lower(ext_of(p));
    if e == "jpg"@ || e == "jpeg"@ {
        FileType::Image(ImageMime::Jpeg)
    } else if e == "png"@ {
        FileType::Image(ImageMime::Png)
    } else if e == "pdf"@ {
        FileType::Pdf
    } else if e == "docx"@ {
        FileType::Docx
    } else if e == "pptx"@ {
        FileType::Pptx
    } else if e == "xlsx"@ {
        FileType::Xlsx
    } else if is_text_ext(e) {
        FileType::Text
    } else {
        FileType::Unsupported
    }
}

/// Classifies a file by the extension of its name, ignoring case.
pub fn determine_file_type(path: &str) -> (r: FileType)
    ensures
        r == spec_file_type(path@),
{
    let ext = match ext_exec(path) {
        Some(e) => e,
        None => String::new(),
    };
    let e = ascii_lower_exec(ext.as_str());
    let s = e.as_str();
    if str_eq(s, "jpg") || str_eq(s, "jpeg") {
        FileType::Image(ImageMime::Jpeg)
    } else if str_eq(s, "png") {
        FileType::Image(ImageMime::Png)
    } else if str_eq(s, "pdf") {
        FileType::Pdf
    } else if str_eq(s, "docx") {
        FileType::Docx
    } else if str_eq(s, "pptx") {
        FileType::Pptx
    } else if str_eq(s, "xlsx") {
        FileType::Xlsx
    } else if str_eq(s, "txt") || str_eq(s, "md") || str_eq(s, "csv") || str_eq(s, "json")
        || str_eq(s, "xml") || str_eq(s, "html") || str_eq(s, "css") || str_eq(s, "js") || str_eq(
        s,
        "ts",
    ) || str_eq(s, "jsx") || str_eq(s, "tsx") || str_eq(s, "py") || str_eq(s, "rb") || str_eq(
        s,
        "java",
    ) || str_eq(s, "c") || str_eq(s, "cpp") || str_eq(s, "h") || str_eq(s, "hpp") || str_eq(s, "cs")
        || str_eq(s, "go") || str_eq(s, "php") || str_eq(s, "swift") || str_eq(s, "kt") || str_eq(
        s,
        "rs",
    ) || str_eq(s, "toml") || str_eq(s, "yaml") || str_eq(s, "yml") || str_eq(s, "ini") || str_eq(
        s,
        "cfg",
    ) || str_eq(s, "log") || str_eq(s, "sh") || str_eq(s, "bat") {
        FileType::Text
    } else {
        FileType::Unsupported
    }
}

/// The MIME text of an image format.
pub open spec fn mime_chars(m: ImageMime) -> Seq<char> {
    match m {
        ImageMime::Jpeg => "image/jpeg"@,
        ImageMime::Png => "image/png"@,
    }
}

/// A data URL carrying the given bytes under the given MIME type.
pub open spec fn data_url_chars(mime: Seq<char>, bytes: Seq<u8>) -> Seq<char> {
    "data:"@ + mime + ";base64,"@ + base64_of(bytes)
}

/// Packages image bytes as an image-URL content fragment.
pub fn image_content(mime: ImageMime, bytes: &[u8]) -> (r: Content)
    ensures
        r@ == (ContentV::ImageUrl { url: data_url_chars(mime_chars(mime), bytes@) }),
{
    let mut url = String::from_str("data:");
    match mime {
        ImageMime::Jpeg => url.append("image/jpeg"),
        ImageMime::Png => url.append("image/png"),
    }
    url.append(";base64,");
    let encoded = b64_encode(bytes);
    url.append(encoded.as_str());
    Content::ImageUrl { image_url: ImageUrl { url } }
}

/// Packages PDF bytes as a file content fragment named after the file.
pub fn pdf_content(filename: String, bytes: &[u8]) -> (r: Content)
    ensures
        r@ == (ContentV::File {
            filename: filename@,
            file_data: data_url_chars("application/pdf"@, bytes@),
        }),
{
    let mut url = String::from_str("data:");
    url.append("application/pdf");
    url.append(";base64,");
    let encoded = b64_encode(bytes);
    url.append(encoded.as_str());
    Content::File { file: FileData { filename, file_data: url } }
}

} // verus!
