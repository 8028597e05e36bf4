//! Downloads and uploads.

use base64::Engine;
use vstd::prelude::*;

use crate::clock::now_unix_ms;
use crate::commands::command::{UploadFilePayload, UploadView};
use crate::paths::{
    extension, extension_of, file_name, file_name_of, is_plain_char, join_path, joined, plain_char,
};
use crate::state::AegisStatePaths;
use crate::text::{
    ascii_lower, chars_of, concat3, decimal, decimal_text, eq_ignore_ascii_case, opt_text, same_ignoring_case,
    strip_leading, strip_trailing, trim_end_char, trim_start_char,
};

verus! {

/// Where downloads go and uploads are staged.
#[derive(Debug, PartialEq, Eq)]
pub struct ResolvedTransferPaths {
    pub download_dir: String,
    pub upload_dir: String,
}

/// A file to be uploaded, and the copy that is handed to the browser.
#[derive(Debug, PartialEq, Eq)]
pub struct StagedUploadFile {
    pub source_path: String,
    pub staged_path: String,
}

/// Where downloads go and uploads are staged: where it was asked for, or below the state
/// directory.
pub fn resolve_transfer_paths(
    download_dir: Option<String>,
    upload_dir: Option<String>,
    state: &AegisStatePaths,
) -> (res: ResolvedTransferPaths)
    ensures
        res.download_dir@ == match opt_text(download_dir) {
            Some(d) => d,
            None => joined(joined(state.root_view(), "files"@), "downloads"@),
        },
        res.upload_dir@ == match opt_text(upload_dir) {
            Some(d) => d,
            None => joined(joined(state.root_view(), "files"@), "uploads"@),
        },
{
    let download_dir = match download_dir {
        Some(d) => d,
        None => state.downloads_dir(),
    };
    let upload_dir = match upload_dir {
        Some(d) => d,
        None => state.uploads_dir(),
    };
    ResolvedTransferPaths { download_dir, upload_dir }
}

/// A text with every character that may not stand in a plain name replaced by `_`.
pub open spec fn plain_text(s: Seq<char>) -> Seq<char> {
    Seq::new(
        s.len(),
        |i: int|
            if plain_char(s[i]) {
                s[i]
            } else {
                '_'
            },
    )
}

/// A plain name for a text: without `_` around it, and never empty.
pub open spec fn sanitized(s: Seq<char>) -> Seq<char> {
    let t = strip_trailing(strip_leading(plain_text(s), '_'), '_');
    if t.len() == 0 {
        "file"@
    } else {
        t
    }
}

/// A plain name for a text: other characters become `_`, and none of these stands around it.
pub fn sanitize_component(value: &str) -> (res: String)
    ensures
        res@ == sanitized(value@),
{
    let chars = chars_of(value);
    let mut plain = String::new();
    let mut i: usize = 0;
    assert(plain@ =~= plain_text(chars@).take(0));
    while i < chars.len()
        invariant
            i <= chars@.len(),
            plain@ == plain_text(chars@).take(i as int),
        decreases chars@.len() - i,
    {
        if is_plain_char(chars[i]) {
            plain.push(chars[i]);
        } else {
            plain.push('_');
        }
        assert(plain@ =~= plain_text(chars@).take(i + 1));
        i += 1;
    }
    assert(plain_text(chars@).take(i as int) =~= plain_text(chars@));
    let start = trim_start_char(plain.as_str(), '_');
    let both = trim_end_char(start.as_str(), '_');
    if both.as_str().unicode_len() == 0 {
        "file".to_owned()
    } else {
        both
    }
}

/// The file name of a path, or `upload.bin`.
pub open spec fn upload_name(name: Option<Seq<char>>) -> Seq<char> {
    match name {
        Some(n) => n,
        None => "upload.bin"@,
    }
}

/// The name of the copy of an upload that was staged at a time.
pub open spec fn staged_name(name: Option<Seq<char>>, stamp: u64) -> Seq<char> {
    decimal_text(stamp as nat) + "-"@ + sanitized(upload_name(name))
}

/// The name of the copy of an upload with a given file name, staged at a time.
pub fn staged_name_at(name: &Option<String>, stamp: u64) -> (res: String)
    ensures
        res@ == staged_name(opt_text(*name), stamp),
{
    let plain = match name {
        Some(n) => sanitize_component(n.as_str()),
        None => sanitize_component("upload.bin"),
    };
    let digits = decimal(stamp);
    concat3(digits.as_str(), "-", plain.as_str())
}

/// Where an upload is staged at a time. A path that is no file is refused.
pub fn stage_upload_file_at(source: &str, is_file: bool, upload_dir: &str, stamp: u64) -> (res:
    Result<StagedUploadFile, String>)
    ensures
        match res {
            Ok(s) => is_file && s.source_path@ == source@ && s.staged_path@ == joined(
                upload_dir@,
                staged_name(file_name_of(source@), stamp),
            ),
            Err(e) => !is_file && e@ == "upload path "@ + source@ + " is not a file"@,
        },
{
    if !is_file {
        return Err(concat3("upload path ", source, " is not a file"));
    }
    let name = file_name(source);
    let staged = staged_name_at(&name, stamp);
    Ok(
        StagedUploadFile {
            source_path: source.to_owned(),
            staged_path: join_path(upload_dir, staged.as_str()),
        },
    )
}

/// Where an upload is staged now. A path that is no file is refused.
pub fn stage_upload_file(source: &str, is_file: bool, upload_dir: &str) -> (res: Result<
    StagedUploadFile,
    String,
>)
    ensures
        exists|stamp: u64|
            match res {
                Ok(s) => is_file && s.source_path@ == source@ && s.staged_path@ == joined(
                    upload_dir@,
                    #[trigger] staged_name(file_name_of(source@), stamp),
                ),
                Err(e) => !is_file && e@ == "upload path "@ + source@ + " is not a file"@,
            },
{
    let stamp: u64 = now_unix_ms();
    let res = stage_upload_file_at(source, is_file, upload_dir, stamp);
    assert(staged_name(file_name_of(source@), stamp) == staged_name(file_name_of(source@), stamp));
    res
}

/// The media type of a file with an extension; case does not matter.
pub open spec fn mime_of(extension: Seq<char>) -> Seq<char> {
    if same_ignoring_case(extension, "pdf"@) {
        "application/pdf"@
    } else if same_ignoring_case(extension, "txt"@) {
        "text/plain"@
    } else if same_ignoring_case(extension, "csv"@) {
        "text/csv"@
    } else if same_ignoring_case(extension, "json"@) {
        "application/json"@
    } else if same_ignoring_case(extension, "png"@) {
        "image/png"@
    } else if same_ignoring_case(extension, "jpg"@) || same_ignoring_case(extension, "jpeg"@) {
        "image/jpeg"@
    } else if same_ignoring_case(extension, "gif"@) {
        "image/gif"@
    } else if same_ignoring_case(extension, "webp"@) {
        "image/webp"@
    } else if same_ignoring_case(extension, "mp3"@) {
        "audio/mpeg"@
    } else if same_ignoring_case(extension, "wav"@) {
        "audio/wav"@
    } else if same_ignoring_case(extension, "mp4"@) {
        "video/mp4"@
    } else {
        "application/octet-stream"@
    }
}

/// The media type of a file with an extension.
pub fn mime_for_extension(extension: &str) -> (res: &'static str)
    ensures
        res@ == mime_of(extension@),
{
    if eq_ignore_ascii_case(extension, "pdf") {
        "application/pdf"
    } else if eq_ignore_ascii_case(extension, "txt") {
        "text/plain"
    } else if eq_ignore_ascii_case(extension, "csv") {
        "text/csv"
    } else if eq_ignore_ascii_case(extension, "json") {
        "application/json"
    } else if eq_ignore_ascii_case(extension, "png") {
        "image/png"
    } else if eq_ignore_ascii_case(extension, "jpg") || eq_ignore_ascii_case(extension, "jpeg") {
        "image/jpeg"
    } else if eq_ignore_ascii_case(extension, "gif") {
        "image/gif"
    } else if eq_ignore_ascii_case(extension, "webp") {
        "image/webp"
    } else if eq_ignore_ascii_case(extension, "mp3") {
        "audio/mpeg"
    } else if eq_ignore_ascii_case(extension, "wav") {
        "audio/wav"
    } else if eq_ignore_ascii_case(extension, "mp4") {
        "video/mp4"
    } else {
        "application/octet-stream"
    }
}

/// The media type of a file, if its name has an extension.
pub fn infer_mime_type(path: &str) -> (res: Option<String>)
    ensures
        opt_text(res) == match extension_of(path@) {
            Some(e) => Some(mime_of(e)),
            None => None,
        },
{
    match extension(path) {
        Some(e) => Some(mime_for_extension(e.as_str()).to_owned()),
        None => None,
    }
}

/// What the standard base64 engine of the crate `base64` writes for bytes.
pub uninterp spec fn base64_text(bytes: Seq<u8>) -> Seq<char>;

/// `base64::engine::general_purpose::STANDARD.encode`: the text depends on the bytes alone.
#[verifier::external_body]
fn base64_encode(bytes: &[u8]) -> (res: String)
    ensures
        res@ == base64_text(bytes@),
{
    base64::engine::general_purpose::STANDARD.encode(bytes)
}

/// An upload: file name, media type, contents and time of the last change.
pub fn upload_payload(path: &str, bytes: &[u8], last_modified_ms: Option<u64>) -> (res:
    UploadFilePayload)
    ensures
        res@ == (UploadView {
            name: upload_name(file_name_of(path@)),
            mime_type: match extension_of(path@) {
                Some(e) => Some(mime_of(e)),
                None => None,
            },
            base64: base64_text(bytes@),
            last_modified_ms,
        }),
{
    let name = match file_name(path) {
        Some(n) => n,
        None => "upload.bin".to_owned(),
    };
    UploadFilePayload {
        name,
        mime_type: infer_mime_type(path),
        base64: base64_encode(bytes),
        last_modified_ms,
    }
}

/// A sanitized name is a plain name, so a staged copy stays in its directory.
pub proof fn law_sanitized_is_plain(s: Seq<char>)
    ensures
        crate::paths::plain_name(sanitized(s)),
        sanitized(s).len() > 0,
{
    lemma_strip_leading_keeps(plain_text(s), '_');
    let t = strip_leading(plain_text(s), '_');
    lemma_strip_trailing_keeps(t, '_');
    reveal_strlit("file");
    assert("file"@.len() == 4);
    assert("file"@[0] == 'f' && "file"@[1] == 'i' && "file"@[2] == 'l' && "file"@[3] == 'e');
}

/// A sanitized name has no `_` around it, and stays as it is when it is sanitized again.
pub proof fn law_sanitized_twice(s: Seq<char>)
    ensures
        sanitized(s).first() != '_',
        sanitized(s).last() != '_',
        sanitized(sanitized(s)) == sanitized(s),
{
    law_sanitized_is_plain(s);
    let name = sanitized(s);
    let front = strip_leading(plain_text(s), '_');
    lemma_strip_leading_ends(plain_text(s), '_');
    lemma_strip_trailing_ends(front, '_');
    reveal_strlit("file");
    assert("file"@.len() == 4);
    assert("file"@[0] == 'f' && "file"@[3] == 'e');
    assert(name.first() != '_' && name.last() != '_');
    assert forall|i: int| 0 <= i < name.len() implies plain_text(name)[i] == name[i] by {
        assert(plain_char(name[i]));
    }
    assert(plain_text(name) =~= name);
}

proof fn lemma_strip_leading_ends(s: Seq<char>, mark: char)
    ensures
        strip_leading(s, mark).len() > 0 ==> strip_leading(s, mark).first() != mark,
    decreases s.len(),
{
    if s.len() > 0 && s.first() == mark {
        lemma_strip_leading_ends(s.drop_first(), mark);
    }
}

proof fn lemma_strip_trailing_ends(s: Seq<char>, mark: char)
    ensures
        strip_trailing(s, mark).len() > 0 ==> strip_trailing(s, mark).last() != mark
            && strip_trailing(s, mark).first() == s.first(),
    decreases s.len(),
{
    if s.len() > 0 && s.last() == mark {
        lemma_strip_trailing_ends(s.drop_last(), mark);
    }
}

proof fn lemma_strip_leading_keeps(s: Seq<char>, mark: char)
    requires
        crate::paths::plain_name(s),
    ensures
        crate::paths::plain_name(strip_leading(s, mark)),
    decreases s.len(),
{
    if s.len() > 0 && s.first() == mark {
        assert forall|i: int| 0 <= i < s.drop_first().len() implies plain_char(
            #[trigger] s.drop_first()[i],
        ) by {
            assert(plain_char(s[i + 1]));
        }
        lemma_strip_leading_keeps(s.drop_first(), mark);
    }
}

proof fn lemma_strip_trailing_keeps(s: Seq<char>, mark: char)
    requires
        crate::paths::plain_name(s),
    ensures
        crate::paths::plain_name(strip_trailing(s, mark)),
    decreases s.len(),
{
    if s.len() > 0 && s.last() == mark {
        assert forall|i: int| 0 <= i < s.drop_last().len() implies plain_char(
            #[trigger] s.drop_last()[i],
        ) by {
            assert(plain_char(s[i]));
        }
        lemma_strip_trailing_keeps(s.drop_last(), mark);
    }
}

/// A sanitized name is the name with every character that is not plain made an underscore, without
/// the underscores at its ends; where nothing is left it is `file`.
pub proof fn law_sanitized_name(s: Seq<char>)
    ensures
        ({
            let marked = s.map_values(
                |c: char|
                    if 'a' <= c <= 'z' || 'A' <= c <= 'Z' || '0' <= c <= '9' || c == '-' || c == '_'
                        || c == '.' {
                        c
                    } else {
                        '_'
                    },
            );
            let middle = strip_trailing(strip_leading(marked, '_'), '_');
            &&& middle.len() > 0 ==> sanitized(s) == middle
            &&& middle.len() == 0 ==> sanitized(s) == "file"@
        }),
{
    let marked = s.map_values(
        |c: char|
            if 'a' <= c <= 'z' || 'A' <= c <= 'Z' || '0' <= c <= '9' || c == '-' || c == '_' || c
                == '.' {
                c
            } else {
                '_'
            },
    );
    assert(marked =~= plain_text(s));
}

/// A staged file is named by the time, a dash and its sanitized name, `upload.bin` where it has
/// none, so that two times give two files.
pub proof fn law_staged_files_are_kept_apart(
    name: Option<Seq<char>>,
    other: Option<Seq<char>>,
    a: u64,
    b: u64,
)
    ensures
        name is Some ==> staged_name(name, a) == decimal_text(a as nat) + "-"@ + sanitized(
            name->Some_0,
        ),
        name is None ==> staged_name(name, a) == decimal_text(a as nat) + "-"@ + sanitized(
            "upload.bin"@,
        ),
        staged_name(name, a) == staged_name(other, b) ==> a == b,
        upload_name(name) == match name {
            Some(n) => n,
            None => "upload.bin"@,
        },
{
    if staged_name(name, a) == staged_name(other, b) {
        reveal_strlit("-");
        let x = decimal_text(a as nat);
        let y = decimal_text(b as nat);
        crate::text::law_decimal_text(a as nat);
        crate::text::law_decimal_text(b as nat);
        let s = staged_name(name, a);
        assert(s[x.len() as int] == '-');
        assert(s[y.len() as int] == '-');
        if x.len() < y.len() {
            assert(s[x.len() as int] == y[x.len() as int]);
        }
        if y.len() < x.len() {
            assert(s[y.len() as int] == x[y.len() as int]);
        }
        assert(s.take(x.len() as int) =~= x);
        assert(s.take(y.len() as int) =~= y);
    }
}

/// The type of a file follows from its extension, whatever its case: documents, pictures, sounds
/// and films that are known have their own, all others the general one.
pub proof fn law_types_of_files(e: Seq<char>)
    ensures
        same_ignoring_case(e, "pdf"@) ==> mime_of(e) == "application/pdf"@,
        same_ignoring_case(e, "txt"@) ==> mime_of(e) == "text/plain"@,
        same_ignoring_case(e, "csv"@) ==> mime_of(e) == "text/csv"@,
        same_ignoring_case(e, "json"@) ==> mime_of(e) == "application/json"@,
        same_ignoring_case(e, "png"@) ==> mime_of(e) == "image/png"@,
        same_ignoring_case(e, "jpg"@) ==> mime_of(e) == "image/jpeg"@,
        same_ignoring_case(e, "jpeg"@) ==> mime_of(e) == "image/jpeg"@,
        same_ignoring_case(e, "gif"@) ==> mime_of(e) == "image/gif"@,
        same_ignoring_case(e, "webp"@) ==> mime_of(e) == "image/webp"@,
        same_ignoring_case(e, "mp3"@) ==> mime_of(e) == "audio/mpeg"@,
        same_ignoring_case(e, "wav"@) ==> mime_of(e) == "audio/wav"@,
        same_ignoring_case(e, "mp4"@) ==> mime_of(e) == "video/mp4"@,
        !same_ignoring_case(e, "pdf"@) && !same_ignoring_case(e, "txt"@) && !same_ignoring_case(e, "csv"@) && !same_ignoring_case(e, "json"@) && !same_ignoring_case(e, "png"@) && !same_ignoring_case(e, "jpg"@) && !same_ignoring_case(e, "jpeg"@) && !same_ignoring_case(e, "gif"@) && !same_ignoring_case(e, "webp"@) && !same_ignoring_case(e, "mp3"@) && !same_ignoring_case(e, "wav"@) && !same_ignoring_case(e, "mp4"@) ==> mime_of(e) == "application/octet-stream"@,
{
    reveal_strlit("pdf");
    reveal_strlit("txt");
    reveal_strlit("csv");
    reveal_strlit("json");
    reveal_strlit("png");
    reveal_strlit("jpg");
    reveal_strlit("jpeg");
    reveal_strlit("gif");
    reveal_strlit("webp");
    reveal_strlit("mp3");
    reveal_strlit("wav");
    reveal_strlit("mp4");
    assert("pdf"@.len() == 3 && "txt"@.len() == 3 && "csv"@.len() == 3 && "json"@.len() == 4 && "png"@.len() == 3 && "jpg"@.len() == 3 && "jpeg"@.len() == 4 && "gif"@.len() == 3 && "webp"@.len() == 4 && "mp3"@.len() == 3 && "wav"@.len() == 3 && "mp4"@.len() == 3);
    lemma_small_letters("pdf"@);
    lemma_small_letters("txt"@);
    lemma_small_letters("csv"@);
    lemma_small_letters("json"@);
    lemma_small_letters("png"@);
    lemma_small_letters("jpg"@);
    lemma_small_letters("jpeg"@);
    lemma_small_letters("gif"@);
    lemma_small_letters("webp"@);
    lemma_small_letters("mp3"@);
    lemma_small_letters("wav"@);
    lemma_small_letters("mp4"@);
    assert(ascii_lower("pdf"@)[0] == 'p' && ascii_lower("pdf"@)[1] == 'd' && ascii_lower("pdf"@)[2] == 'f' && ascii_lower("txt"@)[0] == 't' && ascii_lower("txt"@)[1] == 'x' && ascii_lower("txt"@)[2] == 't' && ascii_lower("csv"@)[0] == 'c' && ascii_lower("csv"@)[1] == 's' && ascii_lower("csv"@)[2] == 'v' && ascii_lower("json"@)[0] == 'j' && ascii_lower("json"@)[1] == 's' && ascii_lower("json"@)[2] == 'o' && ascii_lower("json"@)[3] == 'n' && ascii_lower("png"@)[0] == 'p' && ascii_lower("png"@)[1] == 'n' && ascii_lower("png"@)[2] == 'g' && ascii_lower("jpg"@)[0] == 'j' && ascii_lower("jpg"@)[1] == 'p' && ascii_lower("jpg"@)[2] == 'g' && ascii_lower("jpeg"@)[0] == 'j' && ascii_lower("jpeg"@)[1] == 'p' && ascii_lower("jpeg"@)[2] == 'e' && ascii_lower("jpeg"@)[3] == 'g' && ascii_lower("gif"@)[0] == 'g' && ascii_lower("gif"@)[1] == 'i' && ascii_lower("gif"@)[2] == 'f' && ascii_lower("webp"@)[0] == 'w' && ascii_lower("webp"@)[1] == 'e' && ascii_lower("webp"@)[2] == 'b' && ascii_lower("webp"@)[3] == 'p' && ascii_lower("mp3"@)[0] == 'm' && ascii_lower("mp3"@)[1] == 'p' && ascii_lower("mp3"@)[2] == '3' && ascii_lower("wav"@)[0] == 'w' && ascii_lower("wav"@)[1] == 'a' && ascii_lower("wav"@)[2] == 'v' && ascii_lower("mp4"@)[0] == 'm' && ascii_lower("mp4"@)[1] == 'p' && ascii_lower("mp4"@)[2] == '4');
}

proof fn lemma_small_letters(s: Seq<char>)
    ensures
        ascii_lower(s).len() == s.len(),
        forall|i: int| 0 <= i < s.len() ==> #[trigger] ascii_lower(s)[i] == crate::text::ascii_lower_char(s[i]),
{
}

} // verus!
