//! Screenshots carried as data URLs: parsing them, naming the file a
//! screenshot is stored in, and turning a stored file back into base64 data
//! with its MIME type.
use vstd::prelude::*;
use vstd::string::*;
use crate::bindings::{base64_decoding, base64_encoding, decode_base64, encode_base64};
use crate::error::Error;
use vstd::utf8::{decode_utf8, valid_utf8};
use crate::paths::{join_os, joined_os, os_extension, os_path_extension};
use crate::text::{chars_of, concat, find_char, matches_at, str_eq, substring};

verus! {

/// Screenshot data with separate base64 payload and MIME type.
#[derive(Debug)]
pub struct ScreenshotData {
    pub base64: String,
    pub mime_type: String,
}

/// A screenshot to be written to disk: where (an OS path, held by its
/// bytes), what, and the path under the data directory that the annotation
/// records.
#[derive(Debug)]
pub struct ScreenshotFile {
    pub path: Vec<u8>,
    pub relative_path: String,
    pub bytes: Vec<u8>,
}

pub open spec fn missing_prefix_message() -> Seq<char> {
    "Invalid data URL: missing 'data:' prefix"@
}

pub open spec fn missing_comma_message() -> Seq<char> {
    "Invalid data URL: missing comma separator"@
}

pub open spec fn missing_marker_message() -> Seq<char> {
    "Invalid data URL: missing ';base64' marker"@
}

/// The MIME type and payload of a data URL `data:<mime>;base64,<data>`: the
/// text must start with `data:`, the header runs up to the first comma, and
/// the header must end with `;base64`, which is cut off to give the MIME
/// type. Otherwise, the message that says what is missing.
pub open spec fn data_url_parts(s: Seq<char>) -> Result<(Seq<char>, Seq<char>), Seq<char>> {
    if !"data:"@.is_prefix_of(s) {
        Err(missing_prefix_message())
    } else {
        let rest = s.skip(5);
        match rest.index_of_first(',') {
            None => Err(missing_comma_message()),
            Some(c) => {
                let header = rest.take(c);
                if ";base64"@.is_suffix_of(header) {
                    Ok((header.take(header.len() - 7), rest.skip(c + 1)))
                } else {
                    Err(missing_marker_message())
                }
            },
        }
    }
}

/// The file extension a screenshot of MIME type `mime` is stored under.
pub open spec fn extension_for_mime(mime: Seq<char>) -> Seq<char> {
    if mime == "image/png"@ {
        "png"@
    } else if mime == "image/svg+xml"@ {
        "svg"@
    } else if mime == "image/jpeg"@ || mime == "image/jpg"@ {
        "jpg"@
    } else if mime == "image/webp"@ {
        "webp"@
    } else {
        "png"@
    }
}

/// The MIME type of a screenshot stored under file extension `ext`.
pub open spec fn mime_for_extension(ext: Seq<char>) -> Seq<char> {
    if ext == "png"@ {
        "image/png"@
    } else if ext == "svg"@ {
        "image/svg+xml"@
    } else if ext == "jpg"@ || ext == "jpeg"@ {
        "image/jpeg"@
    } else if ext == "webp"@ {
        "image/webp"@
    } else {
        "image/png"@
    }
}

/// The name of the file that holds the screenshot of annotation `id`.
pub open spec fn screenshot_file_name(id: Seq<char>, mime: Seq<char>) -> Seq<char> {
    id + "."@ + extension_for_mime(mime)
}

/// Splits a data URL into its MIME type and its base64 payload (see
/// `data_url_parts`).
pub fn parse_data_url(data_url: &str) -> (parsed: Result<(String, &str), Error>)
    ensures
        match data_url_parts(data_url@) {
            Ok((mime, data)) => parsed matches Ok((m, d)) && m@ == mime && d@ == data,
            Err(msg) => parsed matches Err(Error::Other(e)) && e@ == msg,
        },
{
    let cs = chars_of(data_url);
    proof {
        reveal_strlit("data:");
        reveal_strlit(";base64");
    }
    if !matches_at(&cs, 0, "data:") {
        assert(!"data:"@.is_prefix_of(data_url@));
        return Err(Error::Other(String::from_str("Invalid data URL: missing 'data:' prefix")));
    }
    assert("data:"@.is_prefix_of(data_url@));
    let ghost rest = data_url@.skip(5);
    let comma = find_char(&cs, ',', 5, cs.len());
    assert(cs@.subrange(5, cs@.len() as int) =~= rest);
    match comma {
        None => Err(Error::Other(String::from_str("Invalid data URL: missing comma separator"))),
        Some(c) => {
            let ghost header = rest.take(c - 5);
            assert(header =~= cs@.subrange(5, c as int));
            if c < 12 || !matches_at(&cs, c - 7, ";base64") {
                assert(!";base64"@.is_suffix_of(header)) by {
                    if ";base64"@.is_suffix_of(header) {
                        assert(header.subrange(header.len() - 7, header.len() as int)
                            =~= cs@.subrange(c - 7, c as int));
                    }
                }
                return Err(
                    Error::Other(String::from_str("Invalid data URL: missing ';base64' marker")),
                );
            }
            assert(";base64"@.is_suffix_of(header)) by {
                assert(header.subrange(header.len() - 7, header.len() as int) =~= cs@.subrange(
                    c - 7,
                    c as int,
                ));
            }
            let mime = substring(data_url, 5, c - 7);
            let data = data_url.substring_char(c + 1, cs.len());
            assert(mime@ =~= header.take(header.len() - 7));
            assert(data@ =~= rest.skip(c - 5 + 1));
            Ok((mime, data))
        },
    }
}

/// The file extension a screenshot of MIME type `mime` is stored under:
/// `png`, `svg`, `jpg` or `webp`, and `png` for any type it does not know.
pub fn mime_to_extension(mime: &str) -> (ext: &'static str)
    ensures
        ext@ == extension_for_mime(mime@),
{
    if str_eq(mime, "image/png") {
        "png"
    } else if str_eq(mime, "image/svg+xml") {
        "svg"
    } else if str_eq(mime, "image/jpeg") || str_eq(mime, "image/jpg") {
        "jpg"
    } else if str_eq(mime, "image/webp") {
        "webp"
    } else {
        "png"
    }
}

/// The MIME type of a screenshot stored under file extension `ext`, and
/// `image/png` for any extension it does not know.
pub fn extension_to_mime(ext: &str) -> (mime: &'static str)
    ensures
        mime@ == mime_for_extension(ext@),
{
    if str_eq(ext, "png") {
        "image/png"
    } else if str_eq(ext, "svg") {
        "image/svg+xml"
    } else if str_eq(ext, "jpg") || str_eq(ext, "jpeg") {
        "image/jpeg"
    } else if str_eq(ext, "webp") {
        "image/webp"
    } else {
        "image/png"
    }
}

/// The file that saving the screenshot `data_url` of annotation `id` under
/// `screenshots_dir` writes: `<screenshots_dir>/<id>.<ext>`, holding the
/// decoded payload, and recorded as `screenshots/<id>.<ext>`. Fails where the
/// data URL does not parse, or its payload is not base64.
pub fn screenshot_file(screenshots_dir: &[u8], id: &str, data_url: &str) -> (file: Result<
    ScreenshotFile,
    Error,
>)
    ensures
        match data_url_parts(data_url@) {
            Err(msg) => file matches Err(Error::Other(e)) && e@ == msg,
            Ok((mime, data)) => match base64_decoding(data) {
                None => file matches Err(Error::Base64(_)),
                Some(bytes) => file matches Ok(f) && f.path@ == joined_os(
                    screenshots_dir@,
                    screenshot_file_name(id@, mime),
                ) && f.relative_path@ == "screenshots/"@ + screenshot_file_name(id@, mime)
                    && f.bytes@ == bytes,
            },
        },
{
    let (mime, data) = match parse_data_url(data_url) {
        Ok(parts) => parts,
        Err(e) => {
            return Err(e);
        },
    };
    let ext = mime_to_extension(mime.as_str());
    let stem = concat(id, ".");
    let filename = concat(stem.as_str(), ext);
    let path = join_os(screenshots_dir, filename.as_str());
    let bytes = match decode_base64(data) {
        Ok(b) => b,
        Err(e) => {
            return Err(Error::Base64(e));
        },
    };
    let relative_path = concat("screenshots/", filename.as_str());
    Ok(ScreenshotFile { path, relative_path, bytes })
}

/// The MIME type of a screenshot stored under the extension `ext`, held as
/// the bytes of an OS string: the type its text names where it is UTF-8,
/// and `image/png` where it is not.
pub open spec fn mime_for_os_extension(ext: Seq<u8>) -> Seq<char> {
    if valid_utf8(ext) {
        mime_for_extension(decode_utf8(ext))
    } else {
        mime_for_extension("png"@)
    }
}

/// The MIME type recorded for the screenshot at the OS path `path`: the one
/// its extension names, and `image/png` where it has none.
pub open spec fn mime_for_path(path: Seq<u8>) -> Seq<char> {
    match os_path_extension(path) {
        Some(e) => mime_for_os_extension(e),
        None => mime_for_extension("png"@),
    }
}

/// Whether two byte strings are the same.
fn bytes_eq(a: &[u8], b: &[u8]) -> (same: bool)
    ensures
        same == (a@ == b@),
{
    if a.len() != b.len() {
        return false;
    }
    let mut i: usize = 0;
    while i < a.len()
        invariant
            a@.len() == b@.len(),
            i <= a@.len(),
            forall|j: int| 0 <= j < i ==> a@[j] == b@[j],
        decreases a@.len() - i,
    {
        if a[i] != b[i] {
            return false;
        }
        i = i + 1;
    }
    assert(a@ =~= b@);
    true
}

/// The MIME type of a screenshot stored under the OS extension `ext` (see
/// `mime_for_os_extension`).
pub fn os_extension_to_mime(ext: &[u8]) -> (mime: &'static str)
    ensures
        mime@ == mime_for_os_extension(ext@),
{
    broadcast use vstd::utf8::group_utf8_lib;

    let named = if bytes_eq(ext, "png".as_bytes()) {
        "png"
    } else if bytes_eq(ext, "svg".as_bytes()) {
        "svg"
    } else if bytes_eq(ext, "jpg".as_bytes()) {
        "jpg"
    } else if bytes_eq(ext, "jpeg".as_bytes()) {
        "jpeg"
    } else if bytes_eq(ext, "webp".as_bytes()) {
        "webp"
    } else {
        "png"
    };
    proof {
        reveal_strlit("png");
        reveal_strlit("svg");
        reveal_strlit("jpg");
        reveal_strlit("jpeg");
        reveal_strlit("webp");
        if valid_utf8(ext@) {
            assert(vstd::utf8::encode_utf8(decode_utf8(ext@)) == ext@);
        }
    }
    extension_to_mime(named)
}

pub open spec fn screenshot_not_found_message(relative_path: Seq<char>) -> Seq<char> {
    "Screenshot not found: "@ + relative_path
}

/// The bytes of an optional buffer.
pub open spec fn opt_bytes(contents: Option<Vec<u8>>) -> Option<Seq<u8>> {
    match contents {
        Some(b) => Some(b@),
        None => None,
    }
}

/// What reading the screenshot stored at `relative_path` under `data_dir`
/// gives, where the file holds `contents` (none where there is no such
/// file): its bytes in base64, and the MIME type its extension names.
pub open spec fn screenshot_reading(
    data_dir: Seq<u8>,
    relative_path: Seq<char>,
    contents: Option<Seq<u8>>,
    data: Result<ScreenshotData, Error>,
) -> bool {
    match contents {
        None => data matches Err(Error::NotFound(m)) && m@ == screenshot_not_found_message(
            relative_path,
        ),
        Some(bytes) => data matches Ok(d) && d.base64@ == base64_encoding(bytes)
            && base64_decoding(d.base64@) == Some(bytes) && d.mime_type@ == mime_for_path(
            joined_os(data_dir, relative_path),
        ),
    }
}

/// The screenshot stored at `relative_path` under `data_dir`, given the
/// file's contents (`None` where there is no such file): its bytes in base64,
/// and the MIME type its extension names.
pub fn screenshot_data(data_dir: &[u8], relative_path: &str, contents: Option<Vec<u8>>) -> (data:
    Result<ScreenshotData, Error>)
    requires
        contents matches Some(bytes) ==> (bytes@.len() / 3 + 1) * 4 <= usize::MAX,
    ensures
        screenshot_reading(data_dir@, relative_path@, opt_bytes(contents), data),
{
    let bytes = match contents {
        Some(b) => b,
        None => {
            return Err(Error::NotFound(concat("Screenshot not found: ", relative_path)));
        },
    };
    let path = join_os(data_dir, relative_path);
    let mime = match os_extension(path.as_slice()) {
        Some(ext) => os_extension_to_mime(ext.as_slice()),
        None => extension_to_mime("png"),
    };
    let base64 = encode_base64(bytes.as_slice());
    Ok(ScreenshotData { base64, mime_type: String::from_str(mime) })
}

} // verus!
