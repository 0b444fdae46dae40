//! Content types by file extension.
use crate::text::{ascii_lower, ascii_lowercase, chars_eq_str, rfind_char, to_ascii_lower, to_chars};
use vstd::prelude::*;

verus! {

/// The part of `path` after its last `.`, or all of `path` where it holds none.
pub open spec fn extension(path: Seq<char>) -> Seq<char> {
    match path.index_of_last('.') {
        Some(i) => path.skip(i + 1),
        None => path,
    }
}

/// The content type registered for the lower-case extension `ext`, or
/// `application/octet-stream` where none is.
pub open spec fn content_type_of(ext: Seq<char>) -> Seq<char> {
    if ext == "html"@ {
        "text/html"@
    } else if ext == "htm"@ {
        "text/html"@
    } else if ext == "css"@ {
        "text/css"@
    } else if ext == "js"@ {
        "application/javascript"@
    } else if ext == "mjs"@ {
        "application/javascript"@
    } else if ext == "jpg"@ {
        "image/jpeg"@
    } else if ext == "jpeg"@ {
        "image/jpeg"@
    } else if ext == "png"@ {
        "image/png"@
    } else if ext == "gif"@ {
        "image/gif"@
    } else if ext == "bmp"@ {
        "image/bmp"@
    } else if ext == "svg"@ {
        "image/svg+xml"@
    } else if ext == "webp"@ {
        "image/webp"@
    } else if ext == "ttf"@ {
        "font/ttf"@
    } else if ext == "otf"@ {
        "font/otf"@
    } else if ext == "woff"@ {
        "font/woff"@
    } else if ext == "woff2"@ {
        "font/woff2"@
    } else if ext == "mp4"@ {
        "video/mp4"@
    } else if ext == "webm"@ {
        "video/webm"@
    } else if ext == "ogg"@ {
        "video/ogg"@
    } else if ext == "mp3"@ {
        "audio/mpeg"@
    } else if ext == "wav"@ {
        "audio/wav"@
    } else if ext == "json"@ {
        "application/json"@
    } else if ext == "xml"@ {
        "application/xml"@
    } else if ext == "pdf"@ {
        "application/pdf"@
    } else if ext == "zip"@ {
        "application/zip"@
    } else if ext == "gz"@ {
        "application/gzip"@
    } else if ext == "txt"@ {
        "text/plain"@
    } else {
        "application/octet-stream"@
    }
}

/// The content type of the file at `path`: that of its extension, letters folded to lower case.
pub open spec fn content_type(path: Seq<char>) -> Seq<char> {
    content_type_of(ascii_lowercase(extension(path)))
}

/// The content type to serve the file at `file_path` with.
pub fn get_content_type(file_path: &str) -> (r: &str)
    ensures
        r@ == content_type(file_path@),
{
    let chars = to_chars(file_path);
    let start: usize = match rfind_char(&chars, '.') {
        Some(i) => i + 1,
        None => 0,
    };
    let mut ext: Vec<char> = Vec::new();
    let mut i: usize = start;
    while i < chars.len()
        invariant
            start <= i <= chars.len(),
            ext@.len() == i - start,
            forall|j: int| 0 <= j < ext@.len() ==> ext@[j] == ascii_lower(chars@[start + j]),
        decreases chars.len() - i,
    {
        ext.push(to_ascii_lower(chars[i]));
        i = i + 1;
    }
    assert(chars@.skip(start as int) == extension(file_path@));
    assert(ext@ =~= ascii_lowercase(extension(file_path@)));
    if chars_eq_str(&ext, "html") {
        "text/html"
    } else if chars_eq_str(&ext, "htm") {
        "text/html"
    } else if chars_eq_str(&ext, "css") {
        "text/css"
    } else if chars_eq_str(&ext, "js") {
        "application/javascript"
    } else if chars_eq_str(&ext, "mjs") {
        "application/javascript"
    } else if chars_eq_str(&ext, "jpg") {
        "image/jpeg"
    } else if chars_eq_str(&ext, "jpeg") {
        "image/jpeg"
    } else if chars_eq_str(&ext, "png") {
        "image/png"
    } else if chars_eq_str(&ext, "gif") {
        "image/gif"
    } else if chars_eq_str(&ext, "bmp") {
        "image/bmp"
    } else if chars_eq_str(&ext, "svg") {
        "image/svg+xml"
    } else if chars_eq_str(&ext, "webp") {
        "image/webp"
    } else if chars_eq_str(&ext, "ttf") {
        "font/ttf"
    } else if chars_eq_str(&ext, "otf") {
        "font/otf"
    } else if chars_eq_str(&ext, "woff") {
        "font/woff"
    } else if chars_eq_str(&ext, "woff2") {
        "font/woff2"
    } else if chars_eq_str(&ext, "mp4") {
        "video/mp4"
    } else if chars_eq_str(&ext, "webm") {
        "video/webm"
    } else if chars_eq_str(&ext, "ogg") {
        "video/ogg"
    } else if chars_eq_str(&ext, "mp3") {
        "audio/mpeg"
    } else if chars_eq_str(&ext, "wav") {
        "audio/wav"
    } else if chars_eq_str(&ext, "json") {
        "application/json"
    } else if chars_eq_str(&ext, "xml") {
        "application/xml"
    } else if chars_eq_str(&ext, "pdf") {
        "application/pdf"
    } else if chars_eq_str(&ext, "zip") {
        "application/zip"
    } else if chars_eq_str(&ext, "gz") {
        "application/gzip"
    } else if chars_eq_str(&ext, "txt") {
        "text/plain"
    } else {
        "application/octet-stream"
    }
}

} // verus!
