//! File embeds: the file name a download is saved under, and the content type an
//! upload is sent with.

use vstd::prelude::*;
use crate::seqs::{first_match, lemma_first_match_none, lemma_first_match_unique};
use crate::text::{lowercase_text, text_equal, to_lowercase};

verus! {

/// The text of a URL's file name after percent-decoding it, as
/// `percent_encoding::percent_decode_str(..).decode_utf8_lossy()` computes it.
pub uninterp spec fn percent_decoded(s: Seq<char>) -> Seq<char>;

/// Calls `percent_encoding::percent_decode_str` and decodes the bytes as UTF-8,
/// lossily. Its source leaves text without any `%` unchanged.
#[verifier::external_body]
fn percent_decode_lossy(s: &str) -> (r: String)
    ensures
        r@ == percent_decoded(s@),
        (forall|i: int| 0 <= i < s@.len() ==> s@[i] != '%') ==> r@ == s@,
{
    percent_encoding::percent_decode_str(s).decode_utf8_lossy().into_owned()
}

/// A question mark.
pub open spec fn is_question_mark() -> spec_fn(char) -> bool {
    |c: char| c == '?'
}

/// The part of a URL before its query (before the first `?`).
pub open spec fn url_path(url: Seq<char>) -> Seq<char> {
    match first_match(url, is_question_mark()) {
        Some(i) => url.take(i),
        None => url,
    }
}

/// Where the last segment of a path starts: after its last `/`, or at 0.
pub open spec fn last_segment_start(p: Seq<char>) -> int
    decreases p.len(),
{
    if p.len() == 0 {
        0
    } else if p.last() == '/' {
        p.len() as int
    } else {
        last_segment_start(p.drop_last())
    }
}

/// The text after the last `/` of a path (all of it when there is none).
pub open spec fn last_segment(p: Seq<char>) -> Seq<char> {
    p.skip(last_segment_start(p))
}

/// The file name a download is saved under: the last segment of the URL's path,
/// `download` when that is empty, then percent-decoded.
pub open spec fn download_name(url: Seq<char>) -> Seq<char> {
    let seg = last_segment(url_path(url));
    if seg.len() == 0 {
        percent_decoded("download"@)
    } else {
        percent_decoded(seg)
    }
}

proof fn lemma_last_segment_start_bounds(p: Seq<char>)
    ensures
        0 <= last_segment_start(p) <= p.len(),
    decreases p.len(),
{
    if p.len() > 0 && p.last() != '/' {
        lemma_last_segment_start_bounds(p.drop_last());
    }
}

/// The file name a download of `url` is saved under when no output path is given.
pub fn download_file_name(url: &str) -> (r: String)
    ensures
        r@ == download_name(url@),
        last_segment(url_path(url@)).len() > 0 && (forall|i: int|
            0 <= i < url@.len() ==> url@[i] != '%') ==> r@ == last_segment(url_path(url@)),
{
    let n = url.unicode_len();
    let mut q: usize = 0;
    while q < n && url.get_char(q) != '?'
        invariant
            n == url@.len(),
            q <= n,
            forall|j: int| 0 <= j < q ==> !(#[trigger] is_question_mark()(url@[j])),
        decreases n - q,
    {
        q = q + 1;
    }
    proof {
        if q < n {
            lemma_first_match_unique(url@, is_question_mark(), q as int);
        } else {
            lemma_first_match_none(url@, is_question_mark());
            assert(url@.take(n as int) =~= url@);
        }
    }
    let path = url.substring_char(0, q);
    assert(path@ == url_path(url@));
    let mut j: usize = q;
    assert(path@.take(q as int) =~= path@);
    while j > 0 && path.get_char(j - 1) != '/'
        invariant
            q == path@.len(),
            j <= q,
            last_segment_start(path@) == last_segment_start(path@.take(j as int)),
        decreases j,
    {
        assert(path@.take(j as int).drop_last() =~= path@.take(j - 1));
        j = j - 1;
    }
    proof {
        if j > 0 {
            assert(path@.take(j as int).last() == '/');
        }
    }
    assert(last_segment_start(path@) == j);
    let seg = path.substring_char(j, q);
    assert(seg@ =~= last_segment(path@));
    proof {
        lemma_last_segment_start_bounds(path@);
        assert forall|i: int| 0 <= i < seg@.len() && (forall|k: int| 0 <= k < url@.len() ==> url@[k] != '%')
            implies seg@[i] != '%' by {
            assert(seg@[i] == url@[j + i]);
        }
    }
    if seg.unicode_len() == 0 {
        percent_decode_lossy("download")
    } else {
        percent_decode_lossy(seg)
    }
}

/// The content type for a lowercase file extension; unknown extensions are sent as
/// `application/octet-stream`.
pub open spec fn mime_for(ext: Seq<char>) -> Seq<char> {
    if ext == "png"@ {
        "image/png"@
    } else if ext == "jpg"@ || ext == "jpeg"@ {
        "image/jpeg"@
    } else if ext == "gif"@ {
        "image/gif"@
    } else if ext == "svg"@ {
        "image/svg+xml"@
    } else if ext == "webp"@ {
        "image/webp"@
    } else if ext == "pdf"@ {
        "application/pdf"@
    } else if ext == "zip"@ {
        "application/zip"@
    } else if ext == "gz"@ || ext == "gzip"@ {
        "application/gzip"@
    } else if ext == "tar"@ {
        "application/x-tar"@
    } else if ext == "json"@ {
        "application/json"@
    } else if ext == "xml"@ {
        "application/xml"@
    } else if ext == "csv"@ {
        "text/csv"@
    } else if ext == "txt"@ || ext == "md"@ || ext == "log"@ {
        "text/plain"@
    } else if ext == "html"@ || ext == "htm"@ {
        "text/html"@
    } else if ext == "mp4"@ {
        "video/mp4"@
    } else if ext == "webm"@ {
        "video/webm"@
    } else if ext == "mp3"@ {
        "audio/mpeg"@
    } else if ext == "wav"@ {
        "audio/wav"@
    } else {
        "application/octet-stream"@
    }
}

/// The content type for an already lowercased extension.
pub fn mime_for_lowercase(ext: &str) -> (r: String)
    ensures
        r@ == mime_for(ext@),
{
    if text_equal(ext, "png") {
        String::from_str("image/png")
    } else if text_equal(ext, "jpg") || text_equal(ext, "jpeg") {
        String::from_str("image/jpeg")
    } else if text_equal(ext, "gif") {
        String::from_str("image/gif")
    } else if text_equal(ext, "svg") {
        String::from_str("image/svg+xml")
    } else if text_equal(ext, "webp") {
        String::from_str("image/webp")
    } else if text_equal(ext, "pdf") {
        String::from_str("application/pdf")
    } else if text_equal(ext, "zip") {
        String::from_str("application/zip")
    } else if text_equal(ext, "gz") || text_equal(ext, "gzip") {
        String::from_str("application/gzip")
    } else if text_equal(ext, "tar") {
        String::from_str("application/x-tar")
    } else if text_equal(ext, "json") {
        String::from_str("application/json")
    } else if text_equal(ext, "xml") {
        String::from_str("application/xml")
    } else if text_equal(ext, "csv") {
        String::from_str("text/csv")
    } else if text_equal(ext, "txt") || text_equal(ext, "md") || text_equal(ext, "log") {
        String::from_str("text/plain")
    } else if text_equal(ext, "html") || text_equal(ext, "htm") {
        String::from_str("text/html")
    } else if text_equal(ext, "mp4") {
        String::from_str("video/mp4")
    } else if text_equal(ext, "webm") {
        String::from_str("video/webm")
    } else if text_equal(ext, "mp3") {
        String::from_str("audio/mpeg")
    } else if text_equal(ext, "wav") {
        String::from_str("audio/wav")
    } else {
        String::from_str("application/octet-stream")
    }
}

/// The content type of an upload, from the file's extension (as `Path::extension`
/// gives it; `None` when the file has none or it is not UTF-8), compared after
/// lowercasing.
pub fn mime_from_extension(extension: Option<&str>) -> (r: String)
    ensures
        r@ == mime_for(lowercase_text(match extension {
            Some(e) => e@,
            None => Seq::<char>::empty(),
        })),
{
    let ext = match extension {
        Some(e) => e,
        None => "",
    };
    proof {
        reveal_strlit("");
        assert(""@ =~= Seq::<char>::empty());
    }
    assert(ext@ == match extension {
        Some(e) => e@,
        None => Seq::<char>::empty(),
    });
    let lower = to_lowercase(ext);
    mime_for_lowercase(lower.as_str())
}


/// The `embeds` command.
pub struct EmbedsCmd {
    pub action: EmbedsAction,
}

/// What the `embeds` command does.
pub enum EmbedsAction {
    /// Download a file; it is saved under `output`, or under the URL's file name.
    Download { url: String, output: Option<std::path::PathBuf>, overwrite: bool },
    /// Upload a file, optionally publicly readable.
    Upload { file: std::path::PathBuf, public: bool },
}


/// A download is refused when its target file exists, unless `--overwrite` is given.
pub fn check_download_target(exists: bool, overwrite: bool, shown_path: &str) -> (r: Result<(), String>)
    ensures
        exists && !overwrite ==> (r matches Err(e) && e@ == "File '"@ + shown_path@
            + "' already exists. Use --overwrite to replace it."@),
        !(exists && !overwrite) ==> r is Ok,
{
    if exists && !overwrite {
        let mut e = String::from_str("File '");
        e.append(shown_path);
        e.append("' already exists. Use --overwrite to replace it.");
        Err(e)
    } else {
        Ok(())
    }
}

} // verus!
