//! File type inference by extension, and which types the front end can preview.
use vstd::prelude::*;

use crate::text::{after_last, chars_eq_str, contains_seq, lower_text, str_contains, to_chars, to_lowercase, starts_with_chars};

verus! {

/// The MIME type registered for a lower-case extension (without the dot).
pub open spec fn mime_for_ext(ext: Seq<char>) -> Seq<char> {
    if ext == "txt"@ {
        "text/plain"@
    } else if ext == "md"@ {
        "text/markdown"@
    } else if ext == "json"@ {
        "application/json"@
    } else if ext == "html"@ {
        "text/html"@
    } else if ext == "htm"@ {
        "text/html"@
    } else if ext == "css"@ {
        "text/css"@
    } else if ext == "js"@ {
        "text/javascript"@
    } else if ext == "mjs"@ {
        "text/javascript"@
    } else if ext == "cjs"@ {
        "text/javascript"@
    } else if ext == "ts"@ {
        "text/typescript"@
    } else if ext == "xml"@ {
        "application/xml"@
    } else if ext == "csv"@ {
        "text/csv"@
    } else if ext == "log"@ {
        "text/plain"@
    } else if ext == "ini"@ {
        "text/plain"@
    } else if ext == "yml"@ {
        "text/yaml"@
    } else if ext == "yaml"@ {
        "text/yaml"@
    } else if ext == "pdf"@ {
        "application/pdf"@
    } else if ext == "png"@ {
        "image/png"@
    } else if ext == "jpg"@ {
        "image/jpeg"@
    } else if ext == "jpeg"@ {
        "image/jpeg"@
    } else if ext == "gif"@ {
        "image/gif"@
    } else if ext == "webp"@ {
        "image/webp"@
    } else if ext == "svg"@ {
        "image/svg+xml"@
    } else if ext == "bmp"@ {
        "image/bmp"@
    } else if ext == "ico"@ {
        "image/x-icon"@
    } else if ext == "avif"@ {
        "image/avif"@
    } else if ext == "heic"@ {
        "image/heic"@
    } else if ext == "mp4"@ {
        "video/mp4"@
    } else if ext == "webm"@ {
        "video/webm"@
    } else if ext == "mkv"@ {
        "video/x-matroska"@
    } else if ext == "mov"@ {
        "video/quicktime"@
    } else if ext == "avi"@ {
        "video/x-msvideo"@
    } else if ext == "m4v"@ {
        "video/x-m4v"@
    } else if ext == "mp3"@ {
        "audio/mpeg"@
    } else if ext == "wav"@ {
        "audio/wav"@
    } else if ext == "flac"@ {
        "audio/flac"@
    } else if ext == "aac"@ {
        "audio/aac"@
    } else if ext == "ogg"@ {
        "audio/ogg"@
    } else if ext == "m4a"@ {
        "audio/mp4"@
    } else if ext == "opus"@ {
        "audio/opus"@
    } else if ext == "zip"@ {
        "application/zip"@
    } else if ext == "rar"@ {
        "application/vnd.rar"@
    } else if ext == "7z"@ {
        "application/x-7z-compressed"@
    } else if ext == "tar"@ {
        "application/x-tar"@
    } else if ext == "gz"@ {
        "application/gzip"@
    } else if ext == "bz2"@ {
        "application/x-bzip2"@
    } else if ext == "xz"@ {
        "application/x-xz"@
    } else if ext == "torrent"@ {
        "application/x-bittorrent"@
    } else if ext == "exe"@ {
        "application/x-msdownload"@
    } else if ext == "msi"@ {
        "application/x-msi"@
    } else if ext == "dll"@ {
        "application/x-msdownload"@
    } else if ext == "apk"@ {
        "application/vnd.android.package-archive"@
    } else if ext == "iso"@ {
        "application/x-iso9660-image"@
    } else if ext == "doc"@ {
        "application/msword"@
    } else if ext == "docx"@ {
        "application/vnd.openxmlformats-officedocument.wordprocessingml.document"@
    } else if ext == "xls"@ {
        "application/vnd.ms-excel"@
    } else if ext == "xlsx"@ {
        "application/vnd.openxmlformats-officedocument.spreadsheetml.sheet"@
    } else if ext == "ppt"@ {
        "application/vnd.ms-powerpoint"@
    } else if ext == "pptx"@ {
        "application/vnd.openxmlformats-officedocument.presentationml.presentation"@
    } else {
        "application/octet-stream"@
    }
}

/// The MIME type of a file name: from the text after its last dot, compared
/// without regard to case; `application/octet-stream` when there is none.
pub open spec fn mime_spec(name: Seq<char>) -> Seq<char> {
    let lower = lower_text(name);
    let ext = after_last(lower, '.');
    if ext.len() == 0 || !lower.contains('.') {
        "application/octet-stream"@
    } else {
        mime_for_ext(ext)
    }
}

/// Images, video, audio, plain text and Markdown can be shown inline.
pub open spec fn is_previewable_spec(mime: Seq<char>) -> bool {
    "image/"@.is_prefix_of(mime) || "video/"@.is_prefix_of(mime) || "audio/"@.is_prefix_of(mime)
        || mime == "text/plain"@ || mime == "text/markdown"@
}

fn mime_for_ext_exec(ext: &[char]) -> (m: &'static str)
    ensures
        m@ == mime_for_ext(ext@),
{
    if chars_eq_str(ext, "txt") {
        "text/plain"
    } else if chars_eq_str(ext, "md") {
        "text/markdown"
    } else if chars_eq_str(ext, "json") {
        "application/json"
    } else if chars_eq_str(ext, "html") {
        "text/html"
    } else if chars_eq_str(ext, "htm") {
        "text/html"
    } else if chars_eq_str(ext, "css") {
        "text/css"
    } else if chars_eq_str(ext, "js") {
        "text/javascript"
    } else if chars_eq_str(ext, "mjs") {
        "text/javascript"
    } else if chars_eq_str(ext, "cjs") {
        "text/javascript"
    } else if chars_eq_str(ext, "ts") {
        "text/typescript"
    } else if chars_eq_str(ext, "xml") {
        "application/xml"
    } else if chars_eq_str(ext, "csv") {
        "text/csv"
    } else if chars_eq_str(ext, "log") {
        "text/plain"
    } else if chars_eq_str(ext, "ini") {
        "text/plain"
    } else if chars_eq_str(ext, "yml") {
        "text/yaml"
    } else if chars_eq_str(ext, "yaml") {
        "text/yaml"
    } else if chars_eq_str(ext, "pdf") {
        "application/pdf"
    } else if chars_eq_str(ext, "png") {
        "image/png"
    } else if chars_eq_str(ext, "jpg") {
        "image/jpeg"
    } else if chars_eq_str(ext, "jpeg") {
        "image/jpeg"
    } else if chars_eq_str(ext, "gif") {
        "image/gif"
    } else if chars_eq_str(ext, "webp") {
        "image/webp"
    } else if chars_eq_str(ext, "svg") {
        "image/svg+xml"
    } else if chars_eq_str(ext, "bmp") {
        "image/bmp"
    } else if chars_eq_str(ext, "ico") {
        "image/x-icon"
    } else if chars_eq_str(ext, "avif") {
        "image/avif"
    } else if chars_eq_str(ext, "heic") {
        "image/heic"
    } else if chars_eq_str(ext, "mp4") {
        "video/mp4"
    } else if chars_eq_str(ext, "webm") {
        "video/webm"
    } else if chars_eq_str(ext, "mkv") {
        "video/x-matroska"
    } else if chars_eq_str(ext, "mov") {
        "video/quicktime"
    } else if chars_eq_str(ext, "avi") {
        "video/x-msvideo"
    } else if chars_eq_str(ext, "m4v") {
        "video/x-m4v"
    } else if chars_eq_str(ext, "mp3") {
        "audio/mpeg"
    } else if chars_eq_str(ext, "wav") {
        "audio/wav"
    } else if chars_eq_str(ext, "flac") {
        "audio/flac"
    } else if chars_eq_str(ext, "aac") {
        "audio/aac"
    } else if chars_eq_str(ext, "ogg") {
        "audio/ogg"
    } else if chars_eq_str(ext, "m4a") {
        "audio/mp4"
    } else if chars_eq_str(ext, "opus") {
        "audio/opus"
    } else if chars_eq_str(ext, "zip") {
        "application/zip"
    } else if chars_eq_str(ext, "rar") {
        "application/vnd.rar"
    } else if chars_eq_str(ext, "7z") {
        "application/x-7z-compressed"
    } else if chars_eq_str(ext, "tar") {
        "application/x-tar"
    } else if chars_eq_str(ext, "gz") {
        "application/gzip"
    } else if chars_eq_str(ext, "bz2") {
        "application/x-bzip2"
    } else if chars_eq_str(ext, "xz") {
        "application/x-xz"
    } else if chars_eq_str(ext, "torrent") {
        "application/x-bittorrent"
    } else if chars_eq_str(ext, "exe") {
        "application/x-msdownload"
    } else if chars_eq_str(ext, "msi") {
        "application/x-msi"
    } else if chars_eq_str(ext, "dll") {
        "application/x-msdownload"
    } else if chars_eq_str(ext, "apk") {
        "application/vnd.android.package-archive"
    } else if chars_eq_str(ext, "iso") {
        "application/x-iso9660-image"
    } else if chars_eq_str(ext, "doc") {
        "application/msword"
    } else if chars_eq_str(ext, "docx") {
        "application/vnd.openxmlformats-officedocument.wordprocessingml.document"
    } else if chars_eq_str(ext, "xls") {
        "application/vnd.ms-excel"
    } else if chars_eq_str(ext, "xlsx") {
        "application/vnd.openxmlformats-officedocument.spreadsheetml.sheet"
    } else if chars_eq_str(ext, "ppt") {
        "application/vnd.ms-powerpoint"
    } else if chars_eq_str(ext, "pptx") {
        "application/vnd.openxmlformats-officedocument.presentationml.presentation"
    } else {
        "application/octet-stream"
    }
}

/// The MIME type of a file name.
pub fn mime_of(name: &str) -> (m: &'static str)
    ensures
        m@ == mime_spec(name@),
{
    let lower = to_lowercase(name);
    let v = to_chars(lower.as_str());
    let mut i: usize = v.len();
    while i > 0 && v[i - 1] != '.'
        invariant
            i <= v.len(),
            forall|j: int| i <= j < v.len() ==> v@[j] != '.',
        decreases i,
    {
        i = i - 1;
    }
    proof {
        crate::text::lemma_after_last(v@, '.', i - 1);
        if i > 0 {
            assert(v@.contains('.')) by {
                assert(v@[i - 1] == '.');
            }
        } else {
            assert(!v@.contains('.'));
        }
    }
    if i == v.len() || i == 0 {
        return "application/octet-stream";
    }
    let ext: Vec<char> = crate::text::char_range(&v, i, v.len());
    assert(ext@ =~= v@.skip(i as int));
    mime_for_ext_exec(&ext)
}

/// The front end can show a file of this type inline.
pub fn is_previewable(mime: &str) -> (r: bool)
    ensures
        r == is_previewable_spec(mime@),
{
    let v = to_chars(mime);
    let image = to_chars("image/");
    let video = to_chars("video/");
    let audio = to_chars("audio/");
    starts_with_chars(&v, &image) || starts_with_chars(&v, &video) || starts_with_chars(&v, &audio)
        || chars_eq_str(&v, "text/plain") || chars_eq_str(&v, "text/markdown")
}

} // verus!
