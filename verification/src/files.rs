//! Browsing files under a root, reading them for preview, searching them,
//! and receiving chunked attachment uploads into a private cache.

use vstd::prelude::*;
use vstd::utf8::encode_utf8;
pub use crate::browse::{list, read, search};
pub use crate::cache_sweep::attachment_path_expired;
use crate::encoding::{b64_encode, base64_encode_impl};
use crate::paths::{extension, extension_spec};
use crate::text::{
    all_ascii, ascii_lower, chars_of, has_char, same_text, to_ascii_lower, to_lower, trim, trimmed,
    unicode_lower,
};

verus! {

pub const MAX_ENTRIES: usize = 500;
pub const MAX_SEARCH_RESULTS: usize = 200;
pub const MAX_TEXT_READ_BYTES: u64 = 1048576;
pub const MAX_IMAGE_READ_BYTES: u64 = 5242880;
pub const MAX_IMAGE_PIXELS: u64 = 12000000;
pub const MAX_SEARCH_FILE_BYTES: u64 = 1048576;
pub const MAX_WALK_FILES: usize = 20000;
pub const MAX_SEARCH_DEPTH: usize = 32;
pub const MAX_LEGACY_IMAGE_ATTACHMENT_BYTES: u64 = 5242880;
pub const MAX_ATTACHMENT_BYTES: u64 = 20971520;
pub const MAX_ATTACHMENT_CHUNK_BYTES: usize = 524288;
pub const MAX_ATTACHMENT_CHUNK_BASE64_BYTES: usize = (MAX_ATTACHMENT_CHUNK_BYTES + 2) / 3 * 4;
pub const MAX_ACTIVE_ATTACHMENT_UPLOADS: usize = 16;
/// How long an attachment stays in the cache, in seconds.
pub const ATTACHMENT_RETENTION_SECS: u64 = 172800;

pub struct FileListRequest {
    pub root_path: String,
    pub relative_path: String,
}

pub struct FileReadRequest {
    pub root_path: String,
    pub relative_path: String,
}

pub struct FileSearchRequest {
    pub root_path: String,
    pub query: String,
    pub content: bool,
}

pub struct FileAttachBeginRequest {
    pub session_id: String,
    pub file_name: String,
    pub size_bytes: u64,
    pub sha256: String,
}

pub struct FileAttachChunkRequest {
    pub upload_id: String,
    pub offset: u64,
    pub data_base64: String,
}

pub struct FileAttachFinishRequest {
    pub upload_id: String,
}

pub struct FileAttachAbortRequest {
    pub upload_id: String,
}

pub struct FileAttachBeginResult {
    pub upload_id: String,
}

pub struct FileAttachResult {
    pub path: String,
    pub size_bytes: u64,
}

pub struct RemoteFileEntry {
    pub name: String,
    pub relative_path: String,
    pub kind: String,
    pub size_bytes: u64,
    pub modified_ms: Option<i64>,
}

#[verifier::ext_equal]
pub struct RemoteFileEntryV {
    pub name: Seq<char>,
    pub relative_path: Seq<char>,
    pub kind: Seq<char>,
    pub size_bytes: u64,
    pub modified_ms: Option<i64>,
}

impl View for RemoteFileEntry {
    type V = RemoteFileEntryV;

    open spec fn view(&self) -> RemoteFileEntryV {
        RemoteFileEntryV {
            name: self.name@,
            relative_path: self.relative_path@,
            kind: self.kind@,
            size_bytes: self.size_bytes,
            modified_ms: self.modified_ms,
        }
    }
}

pub struct RemoteFileRead {
    pub relative_path: String,
    pub kind: String,
    pub content: String,
    pub size_bytes: u64,
    pub modified_ms: Option<i64>,
    pub truncated: bool,
}

/// Encodes `bytes` in padded standard base64.
pub fn base64_encode(bytes: &[u8]) -> (out: String)
    ensures
        out@ == b64_encode(bytes@),
{
    base64_encode_impl(bytes)
}

/// ASCII letter or digit, `-` or `_`.
pub open spec fn session_byte_ok(b: u8) -> bool {
    (48 <= b <= 57) || (65 <= b <= 90) || (97 <= b <= 122) || b == 45 || b == 95
}

/// A session id: 1 to 128 bytes, each an ASCII letter, digit, `-` or `_`.
pub open spec fn session_id_ok(s: Seq<char>) -> bool {
    let b = encode_utf8(s);
    s.len() > 0 && b.len() <= 128 && forall|i: int| 0 <= i < b.len() ==> session_byte_ok(#[trigger] b[i])
}

pub fn validate_attachment_session_id(value: &str) -> (r: Result<(), String>)
    ensures
        session_id_ok(value@) <==> r is Ok,
        r matches Err(e) ==> e@ == "attachment_session_invalid"@,
{
    let bytes = value.as_bytes();
    if value.is_empty() || bytes.len() > 128 {
        return Err(String::from_str("attachment_session_invalid"));
    }
    let mut i: usize = 0;
    while i < bytes.len()
        invariant
            bytes@ == encode_utf8(value@),
            i <= bytes@.len(),
            forall|k: int| 0 <= k < i ==> session_byte_ok(#[trigger] bytes@[k]),
        decreases bytes.len() - i,
    {
        let b = bytes[i];
        if !((48 <= b && b <= 57) || (65 <= b && b <= 90) || (97 <= b && b <= 122) || b == 45 || b
            == 95) {
            return Err(String::from_str("attachment_session_invalid"));
        }
        i = i + 1;
    }
    Ok(())
}

/// An attachment file name: 1 to 255 bytes, not `.` or `..`, and without
/// NUL, CR, LF, `/` or `\`.
pub open spec fn attachment_name_ok(s: Seq<char>) -> bool {
    s.len() > 0 && encode_utf8(s).len() <= 255 && s != "."@ && s != ".."@ && !s.contains('\0')
        && !s.contains('\r') && !s.contains('\n') && !s.contains('/') && !s.contains('\\')
}

pub fn validate_attachment_name(file_name: &str) -> (r: Result<(), String>)
    ensures
        attachment_name_ok(file_name@) <==> r is Ok,
        r matches Err(e) ==> e@ == "attachment_name_invalid"@,
{
    let chars = chars_of(file_name);
    if file_name.is_empty() || file_name.as_bytes().len() > 255 || same_text(file_name, ".") || same_text(
        file_name,
        "..",
    ) || has_char(&chars, '\0') || has_char(&chars, '\r') || has_char(&chars, '\n') || has_char(
        &chars,
        '/',
    ) || has_char(&chars, '\\') {
        return Err(String::from_str("attachment_name_invalid"));
    }
    Ok(())
}

/// The image extensions a legacy (image-only) attachment may carry.
pub open spec fn legacy_image_extension(x: Seq<char>) -> bool {
    x == "png"@ || x == "jpg"@ || x == "jpeg"@ || x == "gif"@ || x == "webp"@ || x == "bmp"@
}

pub(crate) fn is_legacy_extension(x: &str) -> (r: bool)
    ensures
        r == legacy_image_extension(x@),
{
    same_text(x, "png") || same_text(x, "jpg") || same_text(x, "jpeg") || same_text(x, "gif")
        || same_text(x, "webp") || same_text(x, "bmp")
}

/// The lower-cased extension of a legacy image attachment name.
pub open spec fn attachment_extension_spec(name: Seq<char>) -> Result<Seq<char>, Seq<char>> {
    if !attachment_name_ok(name) {
        Err("attachment_name_invalid"@)
    } else {
        match extension_spec(name) {
            Some(x) if legacy_image_extension(ascii_lower(x)) => Ok(ascii_lower(x)),
            _ => Err("attachment_type_unsupported"@),
        }
    }
}

pub fn attachment_extension(file_name: &str) -> (r: Result<String, String>)
    ensures
        match attachment_extension_spec(file_name@) {
            Ok(x) => r matches Ok(s) && s@ == x,
            Err(m) => r matches Err(e) && e@ == m,
        },
{
    validate_attachment_name(file_name)?;
    match extension(file_name) {
        Some(x) => {
            let lower = to_ascii_lower(x.as_str());
            if is_legacy_extension(lower.as_str()) {
                Ok(lower)
            } else {
                Err(String::from_str("attachment_type_unsupported"))
            }
        },
        None => Err(String::from_str("attachment_type_unsupported")),
    }
}

pub open spec fn is_hex_byte(b: u8) -> bool {
    (48 <= b <= 57) || (65 <= b <= 70) || (97 <= b <= 102)
}

/// A SHA-256 digest as a client may send it: after trimming, 64 bytes of hex.
pub open spec fn sha256_text_ok(s: Seq<char>) -> bool {
    let b = encode_utf8(trim(s));
    b.len() == 64 && forall|i: int| 0 <= i < b.len() ==> is_hex_byte(#[trigger] b[i])
}

pub fn normalize_sha256(value: &str) -> (r: Result<String, String>)
    ensures
        sha256_text_ok(value@) <==> r is Ok,
        r matches Ok(s) ==> s@ == ascii_lower(trim(value@)),
        r matches Err(e) ==> e@ == "attachment_sha256_invalid"@,
{
    let t = trimmed(value);
    let ts = t.as_str();
    let bytes = ts.as_bytes();
    if bytes.len() != 64 {
        return Err(String::from_str("attachment_sha256_invalid"));
    }
    let mut i: usize = 0;
    while i < bytes.len()
        invariant
            bytes@ == encode_utf8(trim(value@)),
            i <= bytes@.len(),
            forall|k: int| 0 <= k < i ==> is_hex_byte(#[trigger] bytes@[k]),
        decreases bytes.len() - i,
    {
        let b = bytes[i];
        if !((48 <= b && b <= 57) || (65 <= b && b <= 70) || (97 <= b && b <= 102)) {
            return Err(String::from_str("attachment_sha256_invalid"));
        }
        i = i + 1;
    }
    Ok(to_ascii_lower(ts))
}

pub fn validate_image_pixel_count(width: u32, height: u32) -> (r: Result<(), String>)
    ensures
        (width * height <= MAX_IMAGE_PIXELS) <==> r is Ok,
        r matches Err(e) ==> e@ == "image_dimensions_too_large"@,
{
    assert((width as int) * (height as int) <= 0xffff_ffff * 0xffff_ffff) by (nonlinear_arith)
        requires
            width <= 0xffff_ffff,
            height <= 0xffff_ffff,
    ;
    if (width as u64) * (height as u64) > MAX_IMAGE_PIXELS {
        return Err(String::from_str("image_dimensions_too_large"));
    }
    Ok(())
}

/// Extensions previewed as images.
pub open spec fn image_extension(x: Seq<char>) -> bool {
    legacy_image_extension(x) || x == "svg"@
}

/// Extensions refused for preview as video.
pub open spec fn video_extension(x: Seq<char>) -> bool {
    x == "3g2"@ || x == "3gp"@ || x == "avi"@ || x == "flv"@ || x == "m2ts"@ || x == "m4v"@ || x
        == "mkv"@ || x == "mov"@ || x == "mp4"@ || x == "mpeg"@ || x == "mpg"@ || x == "mts"@ || x
        == "ogv"@ || x == "ts"@ || x == "webm"@ || x == "wmv"@
}

/// The lower-cased extension of `path`, if it has one.
pub open spec fn lower_extension(path: Seq<char>) -> Option<Seq<char>> {
    match extension_spec(path) {
        Some(x) => Some(unicode_lower(x)),
        None => None,
    }
}

fn lower_extension_of(path: &str) -> (r: Option<String>)
    ensures
        match lower_extension(path@) {
            Some(x) => r matches Some(s) && s@ == x,
            None => r is None,
        },
        extension_spec(path@) matches Some(x) ==> (all_ascii(x) ==> lower_extension(path@) == Some(ascii_lower(x))),
{
    match extension(path) {
        Some(x) => Some(to_lower(x.as_str())),
        None => None,
    }
}

pub fn is_image(path: &str) -> (r: bool)
    ensures
        r == (lower_extension(path@) matches Some(x) && image_extension(x)),
        extension_spec(path@) matches Some(x) ==> (all_ascii(x) ==> r == image_extension(ascii_lower(x))),
{
    match lower_extension_of(path) {
        Some(x) => is_legacy_extension(x.as_str()) || same_text(x.as_str(), "svg"),
        None => false,
    }
}

pub fn is_video(path: &str) -> (r: bool)
    ensures
        r == (lower_extension(path@) matches Some(x) && video_extension(x)),
        extension_spec(path@) matches Some(x) ==> (all_ascii(x) ==> r == video_extension(ascii_lower(x))),
{
    match lower_extension_of(path) {
        Some(x) => {
            let x = x.as_str();
            same_text(x, "3g2") || same_text(x, "3gp") || same_text(x, "avi") || same_text(x, "flv")
                || same_text(x, "m2ts") || same_text(x, "m4v") || same_text(x, "mkv") || same_text(
                x,
                "mov",
            ) || same_text(x, "mp4") || same_text(x, "mpeg") || same_text(x, "mpg") || same_text(
                x,
                "mts",
            ) || same_text(x, "ogv") || same_text(x, "ts") || same_text(x, "webm") || same_text(
                x,
                "wmv",
            )
        },
        None => false,
    }
}

/// The MIME type a previewed image is labelled with.
pub open spec fn image_mime_spec(path: Seq<char>) -> Seq<char> {
    match lower_extension(path) {
        Some(x) => if x == "jpg"@ || x == "jpeg"@ {
            "image/jpeg"@
        } else if x == "gif"@ {
            "image/gif"@
        } else if x == "webp"@ {
            "image/webp"@
        } else if x == "bmp"@ {
            "image/bmp"@
        } else if x == "svg"@ {
            "image/svg+xml"@
        } else {
            "image/png"@
        },
        None => "image/png"@,
    }
}

/// The MIME type of an image preview, by lower-cased extension: JPEG for
/// `jpg` and `jpeg`, GIF for `gif`, WebP for `webp`, BMP for `bmp`, SVG for
/// `svg`, and PNG for any other extension or none.
pub proof fn lemma_image_mime_table(path: Seq<char>)
    ensures
        lower_extension(path) == Some("jpg"@) ==> image_mime_spec(path) == "image/jpeg"@,
        lower_extension(path) == Some("jpeg"@) ==> image_mime_spec(path) == "image/jpeg"@,
        lower_extension(path) == Some("gif"@) ==> image_mime_spec(path) == "image/gif"@,
        lower_extension(path) == Some("webp"@) ==> image_mime_spec(path) == "image/webp"@,
        lower_extension(path) == Some("bmp"@) ==> image_mime_spec(path) == "image/bmp"@,
        lower_extension(path) == Some("svg"@) ==> image_mime_spec(path) == "image/svg+xml"@,
        !(lower_extension(path) matches Some(x) && (x == "jpg"@ || x == "jpeg"@ || x == "gif"@ || x == "webp"@
            || x == "bmp"@ || x == "svg"@)) ==> image_mime_spec(path) == "image/png"@,
{
    reveal_strlit("jpg");
    reveal_strlit("jpeg");
    reveal_strlit("gif");
    reveal_strlit("webp");
    reveal_strlit("bmp");
    reveal_strlit("svg");
    assert("gif"@[0] != "jpg"@[0]);
    assert("webp"@[0] != "jpeg"@[0]);
    assert("webp"@ != "jpeg"@);
    assert("webp"@.len() != "jpg"@.len() && "webp"@.len() != "gif"@.len());
    assert("bmp"@[0] != "jpg"@[0] && "bmp"@[0] != "gif"@[0] && "bmp"@.len() != "jpeg"@.len()
        && "bmp"@.len() != "webp"@.len());
    assert("svg"@[0] != "jpg"@[0] && "svg"@[0] != "gif"@[0] && "svg"@[0] != "bmp"@[0]
        && "svg"@.len() != "jpeg"@.len() && "svg"@.len() != "webp"@.len());
}

pub fn image_mime(path: &str) -> (r: &'static str)
    ensures
        r@ == image_mime_spec(path@),
        extension_spec(path@) matches Some(x) ==> (all_ascii(x) ==> ((ascii_lower(x) == "jpg"@ || ascii_lower(x)
            == "jpeg"@) ==> r@ == "image/jpeg"@) && (ascii_lower(x) == "gif"@ ==> r@ == "image/gif"@) && (
        ascii_lower(x) == "webp"@ ==> r@ == "image/webp"@) && (ascii_lower(x) == "bmp"@ ==> r@ == "image/bmp"@)
            && (ascii_lower(x) == "svg"@ ==> r@ == "image/svg+xml"@)),
{
    proof {
        lemma_image_mime_table(path@);
    }
    match lower_extension_of(path) {
        Some(x) => {
            let x = x.as_str();
            if same_text(x, "jpg") || same_text(x, "jpeg") {
                "image/jpeg"
            } else if same_text(x, "gif") {
                "image/gif"
            } else if same_text(x, "webp") {
                "image/webp"
            } else if same_text(x, "bmp") {
                "image/bmp"
            } else if same_text(x, "svg") {
                "image/svg+xml"
            } else {
                "image/png"
            }
        },
        None => "image/png",
    }
}

} // verus!
