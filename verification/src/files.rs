//! The file rules: the MIME whitelist, the bucket routing by type, content
//! sniffing over magic bytes, the upload admission checks and object
//! naming, and the signed public media URL.

use vstd::prelude::*;
use crate::config::parse_i64;
use crate::token::{is_lower_hex, jwt_id_at, unix_time};
use crate::errors::{not_found, status_error, StatusError};
use crate::text::{
    chars_eq, chars_of, contains, contains_chars, dec_int, decimal_signed, is_prefix, push_chars,
    push_str, starts_with, str_eq, string_of,
};

verus! {

/// The upload size ceiling (50 MiB).
pub const MAX_UPLOAD_SIZE: usize = 52428800;

/// The storage provider code: `MINIO` is 1, anything else 0.
pub fn provider_to_proto(s: &str) -> (r: i32)
    ensures
        r == if s@ == "MINIO"@ {
            1i32
        } else {
            0i32
        },
{
    if str_eq(s, "MINIO") {
        1
    } else {
        0
    }
}

/// The MIME whitelist: any image, video or audio type, plus the listed
/// document types.
pub open spec fn mime_allowed_spec(m: Seq<char>) -> bool {
    ||| is_prefix("image/"@, m)
    ||| is_prefix("video/"@, m)
    ||| is_prefix("audio/"@, m)
    ||| m == "application/pdf"@
    ||| m == "application/msword"@
    ||| m == "application/zip"@
    ||| m == "application/x-zip-compressed"@
    ||| m == "application/vnd.ms-powerpoint"@
    ||| m == "application/vnd.ms-excel"@
    ||| m == "application/vnd.openxmlformats-officedocument.wordprocessingml.document"@
    ||| m == "application/vnd.openxmlformats-officedocument.presentationml.presentation"@
    ||| m == "application/vnd.openxmlformats-officedocument.spreadsheetml.sheet"@
    ||| m == "text/plain"@
}

/// Whether a MIME type may be uploaded.
pub fn mime_allowed(mime: &str) -> (r: bool)
    ensures
        r == mime_allowed_spec(mime@),
{
    let m = chars_of(mime);
    let s = m.as_slice();
    starts_with(s, chars_of("image/").as_slice()) || starts_with(s, chars_of("video/").as_slice())
        || starts_with(s, chars_of("audio/").as_slice()) || str_eq(mime, "application/pdf")
        || str_eq(mime, "application/msword") || str_eq(mime, "application/zip") || str_eq(
        mime,
        "application/x-zip-compressed",
    ) || str_eq(mime, "application/vnd.ms-powerpoint") || str_eq(
        mime,
        "application/vnd.ms-excel",
    ) || str_eq(
        mime,
        "application/vnd.openxmlformats-officedocument.wordprocessingml.document",
    ) || str_eq(
        mime,
        "application/vnd.openxmlformats-officedocument.presentationml.presentation",
    ) || str_eq(mime, "application/vnd.openxmlformats-officedocument.spreadsheetml.sheet")
        || str_eq(mime, "text/plain")
}

/// The content bucket of a MIME type.
pub open spec fn bucket_spec(m: Seq<char>) -> Seq<char> {
    if is_prefix("image/"@, m) {
        "images"@
    } else if is_prefix("video/"@, m) {
        "videos"@
    } else if is_prefix("audio/"@, m) {
        "audios"@
    } else if is_prefix("text/"@, m) || contains(m, "pdf"@) || contains(m, "word"@) || contains(
        m,
        "officedocument"@,
    ) || contains(m, "powerpoint"@) || contains(m, "excel"@) || contains(m, "msword"@) {
        "docs"@
    } else {
        "files"@
    }
}

/// The content bucket a MIME type routes to.
pub fn bucket_for_mime(mime: &str) -> (r: &'static str)
    ensures
        r@ == bucket_spec(mime@),
{
    let m = chars_of(mime);
    let s = m.as_slice();
    if starts_with(s, chars_of("image/").as_slice()) {
        "images"
    } else if starts_with(s, chars_of("video/").as_slice()) {
        "videos"
    } else if starts_with(s, chars_of("audio/").as_slice()) {
        "audios"
    } else if starts_with(s, chars_of("text/").as_slice()) || contains_chars(
        s,
        chars_of("pdf").as_slice(),
    ) || contains_chars(s, chars_of("word").as_slice()) || contains_chars(
        s,
        chars_of("officedocument").as_slice(),
    ) || contains_chars(s, chars_of("powerpoint").as_slice()) || contains_chars(
        s,
        chars_of("excel").as_slice(),
    ) || contains_chars(s, chars_of("msword").as_slice()) {
        "docs"
    } else {
        "files"
    }
}

/// `p` is a prefix of the bytes `s`.
pub open spec fn bytes_prefix(p: Seq<u8>, s: Seq<u8>) -> bool {
    p.len() <= s.len() && s.subrange(0, p.len() as int) =~= p
}

fn has_bytes_at(s: &[u8], p: &[u8], at: usize) -> (r: bool)
    ensures
        r == (at + p@.len() <= s@.len() && s@.subrange(at as int, at + p@.len()) =~= p@),
{
    if at > s.len() || p.len() > s.len() - at {
        return false;
    }
    let mut i: usize = 0;
    while i < p.len()
        invariant
            at + p.len() <= s.len(),
            i <= p.len(),
            forall|j: int| 0 <= j < i ==> s@[at + j] == p@[j],
        decreases p.len() - i,
    {
        if s[at + i] != p[i] {
            assert(s@.subrange(at as int, at + p@.len())[i as int] != p@[i as int]);
            return false;
        }
        i += 1;
    }
    assert(s@.subrange(at as int, at + p@.len()) =~= p@);
    true
}

/// The type the leading bytes reveal, if they are a known magic number.
pub open spec fn sniff_spec(b: Seq<u8>) -> Option<Seq<char>> {
    if bytes_prefix(seq![0x89u8, 0x50, 0x4e, 0x47, 0x0d, 0x0a, 0x1a, 0x0a], b) {
        Some("image/png"@)
    } else if bytes_prefix(seq![0xffu8, 0xd8, 0xff], b) {
        Some("image/jpeg"@)
    } else if bytes_prefix(seq![0x47u8, 0x49, 0x46, 0x38, 0x37, 0x61], b) || bytes_prefix(
        seq![0x47u8, 0x49, 0x46, 0x38, 0x39, 0x61],
        b,
    ) {
        Some("image/gif"@)
    } else if b.len() > 12 && bytes_prefix(seq![0x52u8, 0x49, 0x46, 0x46], b) && b.subrange(8, 12)
        =~= seq![0x57u8, 0x45, 0x42, 0x50] {
        Some("image/webp"@)
    } else if bytes_prefix(seq![0x25u8, 0x50, 0x44, 0x46], b) {
        Some("application/pdf"@)
    } else if bytes_prefix(seq![0x50u8, 0x4b, 0x03, 0x04], b) {
        Some("application/zip"@)
    } else if b.len() > 12 && b.subrange(4, 8) =~= seq![0x66u8, 0x74, 0x79, 0x70] {
        Some("video/mp4"@)
    } else if bytes_prefix(seq![0x49u8, 0x44, 0x33], b) || (b.len() > 1 && b[0] == 0xff && b[1]
        & 0xe0 == 0xe0) {
        Some("audio/mpeg"@)
    } else {
        None
    }
}

/// Content sniffing over the leading magic bytes: the bytes decide the
/// type, not the client declaration. `None` defers to the declaration.
pub fn sniff_mime(bytes: &[u8]) -> (r: Option<&'static str>)
    ensures
        match r {
            Some(m) => sniff_spec(bytes@) == Some(m@),
            None => sniff_spec(bytes@) is None,
        },
{
    let png: [u8; 8] = [0x89, 0x50, 0x4e, 0x47, 0x0d, 0x0a, 0x1a, 0x0a];
    let jpg: [u8; 3] = [0xff, 0xd8, 0xff];
    let gif7: [u8; 6] = [0x47, 0x49, 0x46, 0x38, 0x37, 0x61];
    let gif9: [u8; 6] = [0x47, 0x49, 0x46, 0x38, 0x39, 0x61];
    let riff: [u8; 4] = [0x52, 0x49, 0x46, 0x46];
    let webp: [u8; 4] = [0x57, 0x45, 0x42, 0x50];
    let pdf: [u8; 4] = [0x25, 0x50, 0x44, 0x46];
    let zip: [u8; 4] = [0x50, 0x4b, 0x03, 0x04];
    let ftyp: [u8; 4] = [0x66, 0x74, 0x79, 0x70];
    let id3: [u8; 3] = [0x49, 0x44, 0x33];
    assert(png@ =~= seq![0x89u8, 0x50, 0x4e, 0x47, 0x0d, 0x0a, 0x1a, 0x0a]);
    assert(jpg@ =~= seq![0xffu8, 0xd8, 0xff]);
    assert(gif7@ =~= seq![0x47u8, 0x49, 0x46, 0x38, 0x37, 0x61]);
    assert(gif9@ =~= seq![0x47u8, 0x49, 0x46, 0x38, 0x39, 0x61]);
    assert(riff@ =~= seq![0x52u8, 0x49, 0x46, 0x46]);
    assert(webp@ =~= seq![0x57u8, 0x45, 0x42, 0x50]);
    assert(pdf@ =~= seq![0x25u8, 0x50, 0x44, 0x46]);
    assert(zip@ =~= seq![0x50u8, 0x4b, 0x03, 0x04]);
    assert(ftyp@ =~= seq![0x66u8, 0x74, 0x79, 0x70]);
    assert(id3@ =~= seq![0x49u8, 0x44, 0x33]);
    if has_bytes_at(bytes, png.as_slice(), 0) {
        return Some("image/png");
    }
    if has_bytes_at(bytes, jpg.as_slice(), 0) {
        return Some("image/jpeg");
    }
    if has_bytes_at(bytes, gif7.as_slice(), 0) || has_bytes_at(bytes, gif9.as_slice(), 0) {
        return Some("image/gif");
    }
    if bytes.len() > 12 && has_bytes_at(bytes, riff.as_slice(), 0) && has_bytes_at(
        bytes,
        webp.as_slice(),
        8,
    ) {
        return Some("image/webp");
    }
    if has_bytes_at(bytes, pdf.as_slice(), 0) {
        return Some("application/pdf");
    }
    if has_bytes_at(bytes, zip.as_slice(), 0) {
        return Some("application/zip");
    }
    if bytes.len() > 12 && has_bytes_at(bytes, ftyp.as_slice(), 4) {
        return Some("video/mp4");
    }
    if has_bytes_at(bytes, id3.as_slice(), 0) || (bytes.len() > 1 && bytes[0] == 0xff && bytes[1]
        & 0xe0 == 0xe0) {
        return Some("audio/mpeg");
    }
    None
}

/// Why an upload is refused.
pub enum UploadError {
    StorageObjectRequired,
    ContentRequired,
    TooLarge,
    UnknownMime,
    UnknownSourceName,
    /// The declared type, outside the whitelist.
    MimeNotAllowed(String),
}

/// The refusal's message text.
pub open spec fn upload_error_text(e: UploadError) -> Seq<char> {
    match e {
        UploadError::StorageObjectRequired => "storage object required"@,
        UploadError::ContentRequired => "file content required (presigned flow disabled)"@,
        UploadError::TooLarge => "file exceeds the 50MiB upload limit"@,
        UploadError::UnknownMime => "unknown mime type"@,
        UploadError::UnknownSourceName => "unknown source file name"@,
        UploadError::MimeNotAllowed(m) => "mime type ["@ + m@ + "] is not allowed"@,
    }
}

impl UploadError {
    /// The refusal's message text.
    pub fn message(&self) -> (r: String)
        ensures
            r@ == upload_error_text(*self),
    {
        match self {
            UploadError::StorageObjectRequired => string_of(chars_of("storage object required").as_slice()),
            UploadError::ContentRequired => string_of(
                chars_of("file content required (presigned flow disabled)").as_slice(),
            ),
            UploadError::TooLarge => string_of(chars_of("file exceeds the 50MiB upload limit").as_slice()),
            UploadError::UnknownMime => string_of(chars_of("unknown mime type").as_slice()),
            UploadError::UnknownSourceName => string_of(chars_of("unknown source file name").as_slice()),
            UploadError::MimeNotAllowed(m) => {
                let mut v = chars_of("mime type [");
                push_str(&mut v, m.as_str());
                push_str(&mut v, "] is not allowed");
                string_of(v.as_slice())
            },
        }
    }
}

/// An admitted upload: the effective type, the directory, the file
/// extension, and the bucket.
pub struct UploadPlan {
    pub mime: String,
    pub directory: String,
    pub extension: String,
    pub bucket: &'static str,
}

/// A requested directory is kept when it is non-empty, relative, and free
/// of `..`; otherwise uploads land in `uploads`.
pub open spec fn upload_dir_spec(requested: Option<Seq<char>>) -> Seq<char> {
    match requested {
        Some(d) => if d.len() > 0 && !is_prefix("/"@, d) && !contains(d, ".."@) {
            d
        } else {
            "uploads"@
        },
        None => "uploads"@,
    }
}

/// The text after the last `.` of a file name (the whole name when it has
/// no `.`).
pub open spec fn extension_spec(name: Seq<char>) -> Seq<char>
    decreases name.len(),
{
    if name.len() == 0 {
        seq![]
    } else if name.last() == '.' {
        seq![]
    } else {
        extension_spec(name.drop_last()).push(name.last())
    }
}

/// The message of the first check an upload fails, in the order the
/// checks run; `None` when it is admitted.
pub open spec fn upload_refusal(
    has_storage_object: bool,
    content: Option<Seq<u8>>,
    mime: Option<Seq<char>>,
    source_file_name: Option<Seq<char>>,
) -> Option<Seq<char>> {
    let m = match mime {
        Some(m) => m,
        None => seq![],
    };
    if !has_storage_object {
        Some("storage object required"@)
    } else if content is None {
        Some("file content required (presigned flow disabled)"@)
    } else if content.unwrap().len() > MAX_UPLOAD_SIZE {
        Some("file exceeds the 50MiB upload limit"@)
    } else if m.len() == 0 {
        Some("unknown mime type"@)
    } else if match source_file_name {
        Some(n) => n.len() == 0,
        None => true,
    } {
        Some("unknown source file name"@)
    } else if !mime_allowed_spec(m) {
        Some("mime type ["@ + m + "] is not allowed"@)
    } else {
        None
    }
}

/// The type an admitted upload is stored as: the sniffed type when the
/// bytes reveal one, else the declared type.
pub open spec fn effective_mime(content: Seq<u8>, declared: Seq<char>) -> Seq<char> {
    match sniff_spec(content) {
        Some(s) => s,
        None => declared,
    }
}

/// The upload directory rule.
pub fn upload_dir(requested: Option<&str>) -> (r: String)
    ensures
        r@ == upload_dir_spec(match requested {
            Some(d) => Some(d@),
            None => None,
        }),
{
    match requested {
        Some(d) => {
            let c = chars_of(d);
            if c.len() > 0 && !starts_with(c.as_slice(), chars_of("/").as_slice())
                && !contains_chars(c.as_slice(), chars_of("..").as_slice()) {
                return d.to_owned();
            }
            string_of(chars_of("uploads").as_slice())
        },
        None => string_of(chars_of("uploads").as_slice()),
    }
}

/// The text after the last `.` of a file name.
pub fn file_extension(name: &str) -> (r: String)
    ensures
        r@ == extension_spec(name@),
{
    let c = chars_of(name);
    let mut start: usize = c.len();
    assert(c@.subrange(0, c.len() as int) =~= c@);
    assert(c@.subrange(c.len() as int, c.len() as int) =~= Seq::<char>::empty());
    while start > 0 && c[start - 1] != '.'
        invariant
            start <= c.len(),
            extension_spec(c@) == extension_spec(c@.subrange(0, start as int)) + c@.subrange(
                start as int,
                c.len() as int,
            ),
        decreases start,
    {
        let ghost pre = c@.subrange(0, start as int);
        assert(pre.drop_last() =~= c@.subrange(0, start - 1));
        assert(c@.subrange(start - 1, c.len() as int) =~= seq![pre.last()] + c@.subrange(
            start as int,
            c.len() as int,
        ));
        start -= 1;
    }
    proof {
        assert(c@.subrange(0, c.len() as int) =~= c@);
        if start > 0 {
            assert(extension_spec(c@.subrange(0, start as int)) =~= Seq::<char>::empty());
        } else {
            assert(extension_spec(c@.subrange(0, 0)) =~= Seq::<char>::empty());
        }
    }
    let mut out: Vec<char> = Vec::new();
    let mut i: usize = start;
    while i < c.len()
        invariant
            start <= i <= c.len(),
            out@ =~= c@.subrange(start as int, i as int),
        decreases c.len() - i,
    {
        out.push(c[i]);
        i += 1;
    }
    string_of(out.as_slice())
}

/// The upload admission: the checks in order, then the effective type,
/// the directory, the extension and the bucket of an admitted upload.
pub fn plan_upload(
    has_storage_object: bool,
    directory: Option<&str>,
    content: Option<&[u8]>,
    mime: Option<&str>,
    source_file_name: Option<&str>,
) -> (r: Result<UploadPlan, UploadError>)
    ensures
        match r {
            Ok(p) => {
                &&& upload_refusal(
                    has_storage_object,
                    match content {
                        Some(b) => Some(b@),
                        None => None,
                    },
                    match mime {
                        Some(m) => Some(m@),
                        None => None,
                    },
                    match source_file_name {
                        Some(n) => Some(n@),
                        None => None,
                    },
                ) is None
                &&& p.mime@ == effective_mime(content.unwrap()@, mime.unwrap()@)
                &&& p.directory@ == upload_dir_spec(match directory {
                    Some(d) => Some(d@),
                    None => None,
                })
                &&& p.extension@ == extension_spec(source_file_name.unwrap()@)
                &&& p.bucket@ == bucket_spec(p.mime@)
            },
            Err(e) => upload_refusal(
                has_storage_object,
                match content {
                    Some(b) => Some(b@),
                    None => None,
                },
                match mime {
                    Some(m) => Some(m@),
                    None => None,
                },
                match source_file_name {
                    Some(n) => Some(n@),
                    None => None,
                },
            ) == Some(upload_error_text(e)),
        },
{
    if !has_storage_object {
        return Err(UploadError::StorageObjectRequired);
    }
    let bytes = match content {
        Some(b) => b,
        None => return Err(UploadError::ContentRequired),
    };
    if bytes.len() > MAX_UPLOAD_SIZE {
        return Err(UploadError::TooLarge);
    }
    let declared = match mime {
        Some(m) => m,
        None => return Err(UploadError::UnknownMime),
    };
    if declared.is_empty() {
        return Err(UploadError::UnknownMime);
    }
    let name = match source_file_name {
        Some(n) => n,
        None => return Err(UploadError::UnknownSourceName),
    };
    if name.is_empty() {
        return Err(UploadError::UnknownSourceName);
    }
    if !mime_allowed(declared) {
        return Err(UploadError::MimeNotAllowed(declared.to_owned()));
    }
    let effective: String = match sniff_mime(bytes) {
        Some(s) => string_of(chars_of(s).as_slice()),
        None => declared.to_owned(),
    };
    let bucket = bucket_for_mime(effective.as_str());
    Ok(UploadPlan {
        mime: effective,
        directory: upload_dir(directory),
        extension: file_extension(name),
        bucket,
    })
}

/// `{guid}.{ext}`, the stored file name.
pub fn save_file_name(guid: &str, ext: &str) -> (r: String)
    ensures
        r@ == guid@ + seq!['.'] + ext@,
{
    let mut v = chars_of(guid);
    v.push('.');
    push_str(&mut v, ext);
    string_of(v.as_slice())
}

/// A fresh file guid: `jwt_id_at` of the clock's reading, counted by the
/// process-wide v7 `context`, so guids made within one millisecond keep
/// their creation order.
pub fn new_file_guid(context: &std::sync::Mutex<uuid::ContextV7>) -> (r: Option<String>)
    ensures
        r matches Some(g) ==> {
            &&& g@.len() == 32
            &&& forall|i: int| 0 <= i < 32 ==> is_lower_hex(#[trigger] g@[i])
            &&& g@[12] == '7'
        },
{
    let (before, secs, nanos) = unix_time();
    jwt_id_at(context, before, secs, nanos)
}

/// `{dir}/{name}`, the object name within a bucket.
pub fn object_name(dir: &str, save_name: &str) -> (r: String)
    ensures
        r@ == dir@ + seq!['/'] + save_name@,
{
    let mut v = chars_of(dir);
    v.push('/');
    push_str(&mut v, save_name);
    string_of(v.as_slice())
}

/// The root of the local object mirror.
pub open spec fn mirror_root() -> Seq<char> {
    "./data/files/"@
}

/// The local mirror directory of an upload: `./data/files/{bucket}/{dir}`.
pub fn local_object_dir(bucket: &str, dir: &str) -> (r: String)
    ensures
        r@ == mirror_root() + bucket@ + seq!['/'] + dir@,
{
    let mut v = chars_of("./data/files/");
    push_str(&mut v, bucket);
    v.push('/');
    push_str(&mut v, dir);
    string_of(v.as_slice())
}

/// The local mirror path a delete removes: `./data/files/{dir}/{name}`.
pub fn mirror_path(dir: &str, name: &str) -> (r: String)
    ensures
        r@ == mirror_root() + dir@ + seq!['/'] + name@,
{
    let mut v = chars_of("./data/files/");
    push_str(&mut v, dir);
    v.push('/');
    push_str(&mut v, name);
    string_of(v.as_slice())
}

/// The local mirror path a download reads: the bucket (`files` when
/// unset), the directory and the stored name, empty when unset.
pub fn stored_file_path(bucket: Option<&str>, dir: Option<&str>, save: Option<&str>) -> (r: String)
    ensures
        r@ == mirror_root() + (match bucket {
            Some(b) => b@,
            None => "files"@,
        }) + seq!['/'] + (match dir {
            Some(d) => d@,
            None => Seq::empty(),
        }) + seq!['/'] + (match save {
            Some(n) => n@,
            None => Seq::empty(),
        }),
{
    let mut v = chars_of("./data/files/");
    match bucket {
        Some(b) => push_str(&mut v, b),
        None => push_str(&mut v, "files"),
    }
    v.push('/');
    match dir {
        Some(d) => push_str(&mut v, d),
        None => {},
    }
    v.push('/');
    match save {
        Some(n) => push_str(&mut v, n),
        None => {},
    }
    proof {
        assert(v@ =~= mirror_root() + (match bucket {
            Some(b) => b@,
            None => "files"@,
        }) + seq!['/'] + (match dir {
            Some(d) => d@,
            None => Seq::empty(),
        }) + seq!['/'] + (match save {
            Some(n) => n@,
            None => Seq::empty(),
        }));
    }
    string_of(v.as_slice())
}

/// The object key of a stored file record: its directory (when set and
/// non-empty, followed by `/`), then its stored name.
pub open spec fn object_key_spec(dir: Option<Seq<char>>, name: Option<Seq<char>>) -> Seq<char> {
    let d = match dir {
        Some(d) => d,
        None => seq![],
    };
    let n = match name {
        Some(n) => n,
        None => seq![],
    };
    if d.len() > 0 {
        d + seq!['/'] + n
    } else {
        n
    }
}

/// The object key of a stored file record.
pub fn object_key(file_directory: Option<&str>, save_file_name: Option<&str>) -> (r: String)
    ensures
        r@ == object_key_spec(
            match file_directory {
                Some(d) => Some(d@),
                None => None,
            },
            match save_file_name {
                Some(n) => Some(n@),
                None => None,
            },
        ),
{
    let mut v: Vec<char> = match file_directory {
        Some(d) => chars_of(d),
        None => Vec::new(),
    };
    if v.len() > 0 {
        v.push('/');
    }
    match save_file_name {
        Some(n) => push_str(&mut v, n),
        None => {},
    }
    proof {
        if file_directory is None {
            assert(v@ =~= object_key_spec(None, match save_file_name { Some(n) => Some(n@), None => None }));
        }
    }
    string_of(v.as_slice())
}

/// The download content type of a stored file's extension.
pub open spec fn download_mime_spec(ext: Option<Seq<char>>) -> Seq<char> {
    match ext {
        Some(e) => if e == "png"@ {
            "image/png"@
        } else if e == "jpg"@ || e == "jpeg"@ {
            "image/jpeg"@
        } else if e == "gif"@ {
            "image/gif"@
        } else if e == "pdf"@ {
            "application/pdf"@
        } else if e == "txt"@ {
            "text/plain"@
        } else {
            "application/octet-stream"@
        },
        None => "application/octet-stream"@,
    }
}

/// The download content type of a stored file's extension.
pub fn download_mime(ext: Option<&str>) -> (r: &'static str)
    ensures
        r@ == download_mime_spec(match ext {
            Some(e) => Some(e@),
            None => None,
        }),
{
    match ext {
        Some(e) => if str_eq(e, "png") {
            "image/png"
        } else if str_eq(e, "jpg") || str_eq(e, "jpeg") {
            "image/jpeg"
        } else if str_eq(e, "gif") {
            "image/gif"
        } else if str_eq(e, "pdf") {
            "application/pdf"
        } else if str_eq(e, "txt") {
            "text/plain"
        } else {
            "application/octet-stream"
        },
        None => "application/octet-stream",
    }
}

/// The content type the media proxy serves for an object's extension.
pub open spec fn media_mime_spec(ext: Seq<char>) -> Seq<char> {
    if ext == "png"@ {
        "image/png"@
    } else if ext == "jpg"@ || ext == "jpeg"@ {
        "image/jpeg"@
    } else if ext == "gif"@ {
        "image/gif"@
    } else if ext == "webp"@ {
        "image/webp"@
    } else {
        "application/octet-stream"@
    }
}

/// The content type the media proxy serves for an object name (by the
/// text after its last `.`).
pub fn media_mime(object: &str) -> (r: &'static str)
    ensures
        r@ == media_mime_spec(extension_spec(object@)),
{
    let ext = file_extension(object);
    let e = ext.as_str();
    if str_eq(e, "png") {
        "image/png"
    } else if str_eq(e, "jpg") || str_eq(e, "jpeg") {
        "image/jpeg"
    } else if str_eq(e, "gif") {
        "image/gif"
    } else if str_eq(e, "webp") {
        "image/webp"
    } else {
        "application/octet-stream"
    }
}

/// The lowercase hex of HMAC-SHA256 over the bytes of `data` under `key`.
pub uninterp spec fn hmac_sha256_hex(key: Seq<u8>, data: Seq<char>) -> Seq<char>;

/// `hmac::Hmac::<sha2::Sha256>` over `data`'s bytes, hex-encoded by
/// `hex::encode`: claims the text is a function of key and data, 64
/// characters long (a 32-byte digest).
#[verifier::external_body]
fn hmac_hex(key: &[u8], data: &str) -> (r: String)
    ensures
        r@ == hmac_sha256_hex(key@, data@),
        r@.len() == 64,
{
    let mut mac = <hmac::Hmac<sha2::Sha256> as hmac::Mac>::new_from_slice(key).expect("hmac accepts any key length");
    hmac::Mac::update(&mut mac, data.as_bytes());
    hex::encode(hmac::Mac::finalize(mac).into_bytes())
}

/// A media URL's signing input: `path|expires`.
pub open spec fn media_signing_input(path: Seq<char>, expires: Seq<char>) -> Seq<char> {
    path + seq!['|'] + expires
}

/// How a download names its file.
pub enum DownloadSelector {
    /// The file record's id.
    FileId(u32),
    /// The bucket and object name of the stored object.
    StorageObject(Option<String>, Option<String>),
    /// A remote URL.
    DownloadUrl(String),
}

/// How the file record of a download is looked up.
pub enum FileLookup {
    /// By record id.
    ById(u32),
    /// By bucket name and link URL (absent parts empty).
    ByObject(String, String),
}

/// The lookup a download selector asks for: by id, or by bucket and
/// object name; a remote URL is refused as `UNIMPLEMENTED`, a missing
/// selector as a missing file (`NOT_FOUND`).
pub fn download_lookup(selector: &Option<DownloadSelector>) -> (r: Result<FileLookup, StatusError>)
    ensures
        match *selector {
            None => r matches Err(e) && e.reason@ == "NOT_FOUND"@ && e.message@ == "file not found"@,
            Some(DownloadSelector::FileId(id)) => r == Ok::<FileLookup, StatusError>(FileLookup::ById(id)),
            Some(DownloadSelector::StorageObject(bucket, object)) => r matches Ok(FileLookup::ByObject(b, o))
                && b@ == text_or_empty_spec(bucket) && o@ == text_or_empty_spec(object),
            Some(DownloadSelector::DownloadUrl(_)) => r matches Err(e) && e.reason@ == "UNIMPLEMENTED"@
                && e.message@ == "remote url download not wired"@,
        },
{
    match selector {
        None => {
            let e = not_found("file");
            proof {
                lemma_file_not_found_text();
            }
            Err(e)
        },
        Some(DownloadSelector::FileId(id)) => Ok(FileLookup::ById(*id)),
        Some(DownloadSelector::StorageObject(bucket, object)) => Ok(
            FileLookup::ByObject(text_or_empty(bucket), text_or_empty(object)),
        ),
        Some(DownloadSelector::DownloadUrl(_)) => Err(
            status_error("UNIMPLEMENTED", "remote url download not wired"),
        ),
    }
}

/// The file record a download found; a lookup that found none is a
/// missing file (`NOT_FOUND`).
pub fn download_record<T>(row: Option<T>) -> (r: Result<T, StatusError>)
    ensures
        row is Some ==> r == Ok::<T, StatusError>(row->0),
        row is None ==> (r matches Err(e) && e.reason@ == "NOT_FOUND"@ && e.message@
            == "file not found"@),
{
    match row {
        Some(x) => Ok(x),
        None => {
            let e = not_found("file");
            proof {
                lemma_file_not_found_text();
            }
            Err(e)
        },
    }
}

proof fn lemma_file_not_found_text()
    ensures
        "file"@ + " not found"@ == "file not found"@,
{
    reveal_strlit("file");
    reveal_strlit(" not found");
    reveal_strlit("file not found");
    assert("file"@ + " not found"@ =~= "file not found"@);
}

/// The text of an optional text, empty when absent.
pub open spec fn text_or_empty_spec(s: Option<String>) -> Seq<char> {
    match s {
        Some(t) => t@,
        None => Seq::empty(),
    }
}

fn text_or_empty(s: &Option<String>) -> (r: String)
    ensures
        r@ == text_or_empty_spec(*s),
{
    match s {
        Some(t) => t.clone(),
        None => String::new(),
    }
}

/// The signed public media URL, valid for a year from `now`; empty when no
/// key is configured.
pub open spec fn signed_media_url_spec(key: Option<Seq<u8>>, path: Seq<char>, now: i64) -> Seq<char> {
    match key {
        None => seq![],
        Some(k) => {
            let expires = dec_int(now + 31536000);
            "/admin/v1/file/image?path="@ + path + "&expires="@ + expires + "&sig="@
                + hmac_sha256_hex(k, media_signing_input(path, expires))
        },
    }
}

/// The bytes of an optional key.
pub open spec fn key_bytes(k: Option<[u8; 32]>) -> Option<Seq<u8>> {
    match k {
        Some(k) => Some(k@),
        None => None,
    }
}

/// The signed public media URL at time `now`: empty when no key is
/// configured; `None` exactly when a key is configured and the expiry a
/// year after `now` does not fit an `i64`.
pub fn signed_media_url_at(crypto_key: Option<[u8; 32]>, storage_path: &str, now: i64) -> (r: Option<
    String,
>)
    ensures
        r is None <==> (crypto_key is Some && now > i64::MAX - 31536000),
        r matches Some(u) ==> u@ == signed_media_url_spec(
            key_bytes(crypto_key),
            storage_path@,
            now,
        ),
{
    match crypto_key {
        None => Some(string_of(Vec::<char>::new().as_slice())),
        Some(key) => {
            if now > i64::MAX - 31536000 {
                return None;
            }
            let expires = decimal_signed(now + 31536000);
            let mut data = chars_of(storage_path);
            data.push('|');
            push_chars(&mut data, expires.as_slice());
            let data_s = string_of(data.as_slice());
            let ks = key.as_slice();
            assert(ks@ == key@) by {
                broadcast use vstd::array::axiom_spec_array_as_slice;
            }
            let sig = hmac_hex(ks, data_s.as_str());
            let mut v = chars_of("/admin/v1/file/image?path=");
            push_str(&mut v, storage_path);
            push_str(&mut v, "&expires=");
            push_chars(&mut v, expires.as_slice());
            push_str(&mut v, "&sig=");
            push_str(&mut v, sig.as_str());
            assert(data@ == media_signing_input(storage_path@, expires@));
            assert(sig@ == hmac_sha256_hex(key@, media_signing_input(storage_path@, expires@)));
            assert(v@ =~= "/admin/v1/file/image?path="@ + storage_path@ + "&expires="@ + expires@ + "&sig="@ + sig@);
            Some(string_of(v.as_slice()))
        },
    }
}

/// The signed public media URL, valid for a year from now: empty when no
/// key is configured (the clock is then not read); otherwise
/// `signed_media_url_at` of the clock's `now_unix` reading, `None` when
/// that reading has no whole second in `i64`.
pub fn signed_media_url(crypto_key: Option<[u8; 32]>, storage_path: &str) -> (r: Option<String>)
    ensures
        crypto_key is None ==> (r matches Some(u) && u@ == Seq::<char>::empty()),
        r matches Some(u) ==> exists|now: i64| u@ == #[trigger] signed_media_url_spec(
            key_bytes(crypto_key),
            storage_path@,
            now,
        ),
{
    if crypto_key.is_none() {
        return signed_media_url_at(crypto_key, storage_path, 0);
    }
    match crate::token::now_unix() {
        Some(now) => signed_media_url_at(crypto_key, storage_path, now),
        None => None,
    }
}

/// `s` without all of its leading `/`.
pub open spec fn trim_leading_slashes(s: Seq<char>) -> Seq<char>
    decreases s.len(),
{
    if s.len() > 0 && s[0] == '/' {
        trim_leading_slashes(s.drop_first())
    } else {
        s
    }
}

/// The index of the first `c` in `s`, or -1.
pub open spec fn first_index(s: Seq<char>, c: char) -> int
    decreases s.len(),
{
    if s.len() == 0 {
        -1
    } else if s[0] == c {
        0
    } else {
        let r = first_index(s.drop_first(), c);
        if r < 0 {
            -1
        } else {
            r + 1
        }
    }
}

pub proof fn lemma_first_index(s: Seq<char>, c: char)
    ensures
        -1 <= first_index(s, c) < s.len(),
        first_index(s, c) >= 0 ==> s[first_index(s, c)] == c,
        forall|j: int| 0 <= j < s.len() && (first_index(s, c) < 0 || j < first_index(s, c)) ==> s[j] != c,
    decreases s.len(),
{
    if s.len() > 0 && s[0] != c {
        lemma_first_index(s.drop_first(), c);
        assert forall|j: int| 0 <= j < s.len() && (first_index(s, c) < 0 || j < first_index(s, c)) implies s[j] != c by {
            if j > 0 {
                assert(s[j] == s.drop_first()[j - 1]);
            }
        }
    }
}

/// The media proxy's admission of a request: all parameters present, an
/// unexpired integer expiry, a configured key, a matching signature, and
/// a `/bucket/object` path. A refusal carries its status and text.
pub open spec fn media_check_spec(
    path: Seq<char>,
    expires: Seq<char>,
    sig: Seq<char>,
    now: i64,
    key: Option<Seq<u8>>,
) -> Result<(Seq<char>, Seq<char>), (u16, Seq<char>)> {
    if path.len() == 0 || expires.len() == 0 || sig.len() == 0 {
        Err((400u16, "missing parameters"@))
    } else {
        match parse_i64(expires) {
            None => Err((403u16, "url expired"@)),
            Some(at) => if now > at {
                Err((403u16, "url expired"@))
            } else {
                match key {
                    None => Err((403u16, "invalid signature"@)),
                    Some(k) => if hmac_sha256_hex(k, media_signing_input(path, expires)) != sig {
                        Err((403u16, "invalid signature"@))
                    } else {
                        let media = trim_leading_slashes(path);
                        let i = first_index(media, '/');
                        if i < 0 {
                            Err((400u16, "invalid path"@))
                        } else {
                            Ok((media.subrange(0, i), media.subrange(i + 1, media.len() as int)))
                        }
                    },
                }
            },
        }
    }
}

/// Admits or refuses a media proxy request at time `now`; an admitted
/// request yields its bucket and object.
pub fn media_request_check(
    path: &str,
    expires: &str,
    sig: &str,
    now: i64,
    crypto_key: Option<[u8; 32]>,
) -> (r: Result<(String, String), (u16, &'static str)>)
    ensures
        match r {
            Ok((b, o)) => media_check_spec(path@, expires@, sig@, now, key_bytes(crypto_key)) == Ok::<(Seq<char>, Seq<char>), (u16, Seq<char>)>((b@, o@)),
            Err((code, text)) => media_check_spec(path@, expires@, sig@, now, key_bytes(crypto_key)) == Err::<(Seq<char>, Seq<char>), (u16, Seq<char>)>((code, text@)),
        },
{
    if path.is_empty() || expires.is_empty() || sig.is_empty() {
        return Err((400, "missing parameters"));
    }
    let e = chars_of(expires);
    let at = match crate::config::resolve_int_parse(e.as_slice()) {
        Some(v) => v,
        None => return Err((403, "url expired")),
    };
    if now > at {
        return Err((403, "url expired"));
    }
    let key = match crypto_key {
        Some(k) => k,
        None => return Err((403, "invalid signature")),
    };
    let mut data = chars_of(path);
    data.push('|');
    push_str(&mut data, expires);
    let data_s = string_of(data.as_slice());
    let ks = key.as_slice();
    assert(ks@ == key@) by {
        broadcast use vstd::array::axiom_spec_array_as_slice;
    }
    assert(data@ =~= media_signing_input(path@, expires@));
    let expected = hmac_hex(ks, data_s.as_str());
    if !str_eq(expected.as_str(), sig) {
        return Err((403, "invalid signature"));
    }
    let p = chars_of(path);
    let mut a: usize = 0;
    assert(p@.subrange(0, p.len() as int) =~= p@);
    while a < p.len() && p[a] == '/'
        invariant
            a <= p.len(),
            trim_leading_slashes(p@) == trim_leading_slashes(p@.subrange(a as int, p.len() as int)),
        decreases p.len() - a,
    {
        assert(p@.subrange(a as int, p.len() as int).drop_first() =~= p@.subrange(a + 1, p.len() as int));
        a += 1;
    }
    let ghost media = p@.subrange(a as int, p.len() as int);
    assert(trim_leading_slashes(media) == media);
    let mut i: usize = a;
    while i < p.len() && p[i] != '/'
        invariant
            a <= i <= p.len(),
            media == p@.subrange(a as int, p.len() as int),
            forall|j: int| a <= j < i ==> p@[j] != '/',
        decreases p.len() - i,
    {
        i += 1;
    }
    proof {
        lemma_first_index(media, '/');
        let fi = first_index(media, '/');
        if i < p.len() {
            assert(media[i - a] == '/');
            if fi < 0 || fi > i - a {
                assert(false);
            }
            if fi < i - a {
                assert(p@[a + fi] == '/');
            }
        } else {
            if fi >= 0 {
                assert(p@[a + fi] == '/');
            }
        }
    }
    if i >= p.len() {
        return Err((400, "invalid path"));
    }
    let mut bucket: Vec<char> = Vec::new();
    let mut j: usize = a;
    while j < i
        invariant
            a <= j <= i,
            i < p.len(),
            bucket@ =~= p@.subrange(a as int, j as int),
        decreases i - j,
    {
        bucket.push(p[j]);
        j += 1;
    }
    let mut object: Vec<char> = Vec::new();
    let mut k: usize = i + 1;
    while k < p.len()
        invariant
            i + 1 <= k <= p.len(),
            object@ =~= p@.subrange(i + 1, k as int),
        decreases p.len() - k,
    {
        object.push(p[k]);
        k += 1;
    }
    proof {
        let fi = first_index(media, '/');
        assert(fi == i - a);
        assert(trim_leading_slashes(path@) == media);
    }
    assert(media.subrange(0, i - a) =~= bucket@);
    assert(media.subrange(i - a + 1, media.len() as int) =~= object@);
    Ok((string_of(bucket.as_slice()), string_of(object.as_slice())))
}

/// A signed-decimal spelling reads back as its number.
pub proof fn lemma_parse_dec_int(x: i64)
    ensures
        parse_i64(dec_int(x as int)) == Some(x),
{
    if x < 0 {
        let d = crate::text::dec((-(x as int)) as nat);
        crate::text::lemma_dec_digits((-(x as int)) as nat);
        assert((seq!['-'] + d).drop_first() =~= d);
    } else {
        crate::text::lemma_dec_digits(x as nat);
        let d = crate::text::dec(x as nat);
        assert('0' <= d[0] <= '9');
        assert(crate::text::unsigned_digits(d) == d);
    }
}

/// A media URL signed at `t` is admitted by the proxy at any `now` up to a
/// year later: its expiry reads back, has not passed, and its signature
/// matches; what it serves is the bucket and object its path names (a
/// path without an object part is refused as invalid).
pub proof fn lemma_signed_url_admitted(key: Seq<u8>, path: Seq<char>, t: i64, now: i64)
    requires
        path.len() > 0,
        t + 31536000 <= i64::MAX,
        now <= t + 31536000,
        hmac_sha256_hex(key, media_signing_input(path, dec_int(t + 31536000))).len() > 0,
    ensures
        ({
            let expires = dec_int(t + 31536000);
            let sig = hmac_sha256_hex(key, media_signing_input(path, expires));
            let media = trim_leading_slashes(path);
            let i = first_index(media, '/');
            media_check_spec(path, expires, sig, now, Some(key)) == if i < 0 {
                Err::<(Seq<char>, Seq<char>), (u16, Seq<char>)>((400u16, "invalid path"@))
            } else {
                Ok::<(Seq<char>, Seq<char>), (u16, Seq<char>)>(
                    (media.subrange(0, i), media.subrange(i + 1, media.len() as int)),
                )
            }
        }),
{
    let e = (t + 31536000) as i64;
    lemma_parse_dec_int(e);
    crate::text::lemma_dec_digits(if e < 0 {
        (-(e as int)) as nat
    } else {
        e as nat
    });
    assert(dec_int(e as int).len() > 0);
}


/// Every type content sniffing can report is on the upload whitelist, so
/// a sniffed type never turns an admitted upload into a refused one; a
/// PDF or ZIP signature is stored under its document type.
pub proof fn lemma_sniffed_types_allowed(content: Seq<u8>)
    ensures
        sniff_spec(content) matches Some(s) ==> mime_allowed_spec(s),
        bytes_prefix(seq![0x25u8, 0x50, 0x44, 0x46], content) ==> sniff_spec(content) == Some(
            "application/pdf"@,
        ) && bucket_spec("application/pdf"@) == "docs"@,
{
    reveal_strlit("image/");
    reveal_strlit("video/");
    reveal_strlit("audio/");
    reveal_strlit("image/png");
    reveal_strlit("image/jpeg");
    reveal_strlit("image/gif");
    reveal_strlit("image/webp");
    reveal_strlit("video/mp4");
    reveal_strlit("audio/mpeg");
    reveal_strlit("text/");
    reveal_strlit("pdf");
    reveal_strlit("application/pdf");
    assert(crate::text::occurs_at("application/pdf"@, "pdf"@, 12));
    if bytes_prefix(seq![0x25u8, 0x50, 0x44, 0x46], content) {
        assert(content.subrange(0, 4)[0] == content[0]);
        assert(content[0] == 0x25);
        assert(content.subrange(0, 3)[0] == content[0]);
        if content.len() >= 6 {
            assert(content.subrange(0, 6)[0] == content[0]);
        }
        if content.len() >= 8 {
            assert(content.subrange(0, 8)[0] == content[0]);
        }
        assert(sniff_spec(content) == Some("application/pdf"@));
    }
    let pdf = "application/pdf"@;
    assert(pdf.subrange(0, 6)[0] == 'a' && pdf.subrange(0, 6)[1] == 'p');
    assert(pdf.subrange(0, 5)[0] == 'a');
    assert(bucket_spec(pdf) == "docs"@);
}

/// The documented whitelist is admitted: any image, video or audio type,
/// PDF, Word, ZIP (both spellings), the PowerPoint and Excel types, the
/// three OpenXML office types, and plain text. An upload declaring one of
/// them, with content within the size limit and a source file name, is
/// not refused, and the type it is stored as is allowed too.
pub proof fn lemma_whitelisted_uploads_admitted(declared: Seq<char>, content: Seq<u8>, name: Seq<char>)
    requires
        is_prefix("image/"@, declared) || is_prefix("video/"@, declared) || is_prefix("audio/"@, declared)
            || declared == "application/pdf"@
            || declared == "application/msword"@
            || declared == "application/zip"@
            || declared == "application/x-zip-compressed"@
            || declared == "application/vnd.ms-powerpoint"@
            || declared == "application/vnd.ms-excel"@
            || declared == "application/vnd.openxmlformats-officedocument.wordprocessingml.document"@
            || declared == "application/vnd.openxmlformats-officedocument.presentationml.presentation"@
            || declared == "application/vnd.openxmlformats-officedocument.spreadsheetml.sheet"@
            || declared == "text/plain"@
        ,
        content.len() <= MAX_UPLOAD_SIZE,
        name.len() > 0,
    ensures
        mime_allowed_spec(declared),
        upload_refusal(true, Some(content), Some(declared), Some(name)) is None,
        mime_allowed_spec(effective_mime(content, declared)),
{
    reveal_strlit("application/pdf");
    reveal_strlit("application/msword");
    reveal_strlit("application/zip");
    reveal_strlit("application/x-zip-compressed");
    reveal_strlit("application/vnd.ms-powerpoint");
    reveal_strlit("application/vnd.ms-excel");
    reveal_strlit("application/vnd.openxmlformats-officedocument.wordprocessingml.document");
    reveal_strlit("application/vnd.openxmlformats-officedocument.presentationml.presentation");
    reveal_strlit("application/vnd.openxmlformats-officedocument.spreadsheetml.sheet");
    reveal_strlit("text/plain");
    reveal_strlit("image/");
    reveal_strlit("video/");
    reveal_strlit("audio/");
    lemma_sniffed_types_allowed(content);
}


/// A declared type off the whitelist is refused: an otherwise valid
/// upload declaring it is turned away naming the type.
pub proof fn lemma_unlisted_types_refused(declared: Seq<char>, content: Seq<u8>, name: Seq<char>)
    requires
        !is_prefix("image/"@, declared) && !is_prefix("video/"@, declared) && !is_prefix("audio/"@, declared)
            && declared != "application/pdf"@
            && declared != "application/msword"@
            && declared != "application/zip"@
            && declared != "application/x-zip-compressed"@
            && declared != "application/vnd.ms-powerpoint"@
            && declared != "application/vnd.ms-excel"@
            && declared != "application/vnd.openxmlformats-officedocument.wordprocessingml.document"@
            && declared != "application/vnd.openxmlformats-officedocument.presentationml.presentation"@
            && declared != "application/vnd.openxmlformats-officedocument.spreadsheetml.sheet"@
            && declared != "text/plain"@
        ,
        declared.len() > 0,
        content.len() <= MAX_UPLOAD_SIZE,
        name.len() > 0,
    ensures
        !mime_allowed_spec(declared),
        upload_refusal(true, Some(content), Some(declared), Some(name)) == Some(
            "mime type ["@ + declared + "] is not allowed"@,
        ),
{
}

/// Media types route to their own buckets: images to `images`, videos to
/// `videos`, audio to `audios`; text and the office and PDF types to
/// `docs`; anything else to `files`.
pub proof fn lemma_bucket_routing(m: Seq<char>)
    ensures
        is_prefix("image/"@, m) ==> bucket_spec(m) == "images"@,
        is_prefix("video/"@, m) ==> bucket_spec(m) == "videos"@,
        is_prefix("audio/"@, m) ==> bucket_spec(m) == "audios"@,
        !is_prefix("image/"@, m) && !is_prefix("video/"@, m) && !is_prefix("audio/"@, m) && (
        is_prefix("text/"@, m) || contains(m, "pdf"@) || contains(m, "word"@) || contains(
            m,
            "officedocument"@,
        ) || contains(m, "powerpoint"@) || contains(m, "excel"@)) ==> bucket_spec(m) == "docs"@,
{
    reveal_strlit("image/");
    reveal_strlit("video/");
    reveal_strlit("audio/");
    assert("image/"@[0] == 'i' && "video/"@[0] == 'v' && "audio/"@[0] == 'a');
}

} // verus!
