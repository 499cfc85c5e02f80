//! What the artifact routes of a hyperlink decide and answer: fetching a
//! kind on demand, deleting a kind, downloading the latest payload, the PDF
//! preview page, and looking a URL up.
use vstd::prelude::*;

use crate::artifacts::{
    artifact_download_file_extension, artifact_fetch_job_kind, artifact_inline_path,
    artifact_kind_label, artifact_kind_slug, artifact_path_spec, fetch_job_kind,
    is_screenshot_fetch_artifact_kind, is_screenshot_fetch_kind, kind_info, slug_of, FetchJobKind,
    HyperlinkArtifactKind, HyperlinkSourceType,
};
use crate::numbers::{dec_int, format_i32};
use crate::search::opt_string_view;
use crate::listing::ROOT_DISCOVERY_DEPTH;
use crate::text::{append_all, chars_of, string_from_chars};

verus! {

// ---------------------------------------------------------------------------
// Fetching a kind on demand
// ---------------------------------------------------------------------------

/// What a request to fetch an artifact kind of a hyperlink comes to.
#[derive(Clone, Copy, Debug, PartialEq, Eq, Structural)]
pub enum FetchArtifactOutcome {
    /// No job produces the kind: the request is refused.
    UnsupportedKind,
    /// No queue workers run here: nothing is queued.
    QueueUnavailable,
    /// A screenshot of a PDF needs the PDF source first.
    NeedsPdfSource,
    /// The job that produces the kind is queued.
    Enqueue(FetchJobKind),
}

/// Screenshots and thumbnails of an uploaded PDF are rendered from its
/// stored source, so they wait for it.
pub open spec fn needs_pdf_source(kind: HyperlinkArtifactKind, source_type: HyperlinkSourceType) -> bool {
    is_screenshot_fetch_kind(kind) && source_type == HyperlinkSourceType::Pdf
}

/// The outcome of a fetch request, given whether queue workers run and
/// whether the hyperlink has a PDF source artifact (asked only where
/// [`fetch_needs_pdf_source`] says so).
pub open spec fn fetch_outcome_spec(
    kind: HyperlinkArtifactKind,
    source_type: HyperlinkSourceType,
    queue_available: bool,
    has_pdf_source: bool,
) -> FetchArtifactOutcome {
    match fetch_job_kind(kind) {
        None => FetchArtifactOutcome::UnsupportedKind,
        Some(job) => if !queue_available {
            FetchArtifactOutcome::QueueUnavailable
        } else if needs_pdf_source(kind, source_type) && !has_pdf_source {
            FetchArtifactOutcome::NeedsPdfSource
        } else {
            FetchArtifactOutcome::Enqueue(job)
        },
    }
}

/// Whether a fetch of `kind` must first look for the hyperlink's PDF source.
pub fn fetch_needs_pdf_source(kind: &HyperlinkArtifactKind, source_type: &HyperlinkSourceType) -> (b: bool)
    ensures
        b == needs_pdf_source(*kind, *source_type),
{
    is_screenshot_fetch_artifact_kind(kind) && matches!(source_type, HyperlinkSourceType::Pdf)
}

/// Decides a request to fetch `kind` for a hyperlink.
pub fn fetch_artifact_outcome(
    kind: &HyperlinkArtifactKind,
    source_type: &HyperlinkSourceType,
    queue_available: bool,
    has_pdf_source: bool,
) -> (r: FetchArtifactOutcome)
    ensures
        r == fetch_outcome_spec(*kind, *source_type, queue_available, has_pdf_source),
{
    let Some(job) = artifact_fetch_job_kind(kind) else {
        return FetchArtifactOutcome::UnsupportedKind;
    };
    if !queue_available {
        return FetchArtifactOutcome::QueueUnavailable;
    }
    if fetch_needs_pdf_source(kind, source_type) && !has_pdf_source {
        return FetchArtifactOutcome::NeedsPdfSource;
    }
    FetchArtifactOutcome::Enqueue(job)
}

/// The message shown for a fetch outcome: the error of a refused request,
/// else the flash on the hyperlink's page.
pub open spec fn fetch_message_spec(outcome: FetchArtifactOutcome, kind: HyperlinkArtifactKind) -> Seq<char> {
    match outcome {
        FetchArtifactOutcome::UnsupportedKind => "unsupported artifact fetch kind"@,
        FetchArtifactOutcome::QueueUnavailable => "Queue workers are unavailable in this environment."@,
        FetchArtifactOutcome::NeedsPdfSource =>
            "Fetch PDF Source first before requesting screenshot or thumbnail artifacts."@,
        FetchArtifactOutcome::Enqueue(_) => "Queued fetch for "@ + kind_info(kind).1 + "."@,
    }
}

/// The message for a fetch outcome.
pub fn fetch_artifact_message(outcome: &FetchArtifactOutcome, kind: &HyperlinkArtifactKind) -> (r: String)
    ensures
        r@ == fetch_message_spec(*outcome, *kind),
{
    match outcome {
        FetchArtifactOutcome::UnsupportedKind => "unsupported artifact fetch kind".to_string(),
        FetchArtifactOutcome::QueueUnavailable => "Queue workers are unavailable in this environment.".to_string(),
        FetchArtifactOutcome::NeedsPdfSource =>
            "Fetch PDF Source first before requesting screenshot or thumbnail artifacts.".to_string(),
        FetchArtifactOutcome::Enqueue(_) => {
            let mut out = chars_of("Queued fetch for ");
            append_all(&mut out, &chars_of(artifact_kind_label(kind)));
            append_all(&mut out, &chars_of("."));
            string_from_chars(&out)
        },
    }
}

// ---------------------------------------------------------------------------
// Deleting a kind
// ---------------------------------------------------------------------------

/// The flash after deleting the artifacts of a kind: how it went depends
/// on whether any row was removed.
pub open spec fn delete_message_spec(kind: HyperlinkArtifactKind, rows_affected: u64) -> Seq<char> {
    if rows_affected > 0 {
        "Deleted "@ + kind_info(kind).1 + " artifact(s)."@
    } else {
        "No "@ + kind_info(kind).1 + " artifacts to delete."@
    }
}

/// The flash after deleting the artifacts of `kind`.
pub fn delete_artifact_message(kind: &HyperlinkArtifactKind, rows_affected: u64) -> (r: String)
    ensures
        r@ == delete_message_spec(*kind, rows_affected),
{
    let label = artifact_kind_label(kind);
    let mut out = if rows_affected > 0 {
        chars_of("Deleted ")
    } else {
        chars_of("No ")
    };
    append_all(&mut out, &chars_of(label));
    if rows_affected > 0 {
        append_all(&mut out, &chars_of(" artifact(s)."));
    } else {
        append_all(&mut out, &chars_of(" artifacts to delete."));
    }
    string_from_chars(&out)
}

// ---------------------------------------------------------------------------
// Downloading the latest payload
// ---------------------------------------------------------------------------

/// The error when a hyperlink has no artifact of a kind.
pub open spec fn missing_artifact_spec(id: int, kind: HyperlinkArtifactKind) -> Seq<char> {
    "no "@ + slug_of(kind) + " artifact available for hyperlink "@ + dec_int(id)
}

/// The error when hyperlink `id` has no artifact of `kind`.
pub fn missing_artifact_message(id: i32, kind: &HyperlinkArtifactKind) -> (r: String)
    ensures
        r@ == missing_artifact_spec(id as int, *kind),
{
    let mut out = chars_of("no ");
    append_all(&mut out, &chars_of(artifact_kind_slug(kind)));
    append_all(&mut out, &chars_of(" artifact available for hyperlink "));
    append_all(&mut out, &chars_of(format_i32(id).as_str()));
    string_from_chars(&out)
}

/// The file name a downloaded artifact is saved under:
/// `hyperlink-{id}-{slug}.{extension}`, where a gzip-compressed snapshot
/// ends in `warc.gz`.
pub open spec fn attachment_name_spec(id: int, kind: HyperlinkArtifactKind, is_gzip_warc: bool) -> Seq<char> {
    "hyperlink-"@ + dec_int(id) + "-"@ + slug_of(kind) + "."@ + (if kind
        == HyperlinkArtifactKind::SnapshotWarc && is_gzip_warc {
        "warc.gz"@
    } else {
        kind_info(kind).2
    })
}

/// The file name of a downloaded artifact.
pub fn attachment_file_name(id: i32, kind: &HyperlinkArtifactKind, is_gzip_warc: bool) -> (r: String)
    ensures
        r@ == attachment_name_spec(id as int, *kind, is_gzip_warc),
{
    let mut out = chars_of("hyperlink-");
    append_all(&mut out, &chars_of(format_i32(id).as_str()));
    append_all(&mut out, &chars_of("-"));
    append_all(&mut out, &chars_of(artifact_kind_slug(kind)));
    append_all(&mut out, &chars_of("."));
    append_all(&mut out, &chars_of(artifact_download_file_extension(kind, is_gzip_warc).as_str()));
    string_from_chars(&out)
}

/// The `Content-Disposition` of a downloaded artifact.
pub fn attachment_disposition(id: i32, kind: &HyperlinkArtifactKind, is_gzip_warc: bool) -> (r: String)
    ensures
        r@ == "attachment; filename=\""@ + attachment_name_spec(id as int, *kind, is_gzip_warc) + "\""@,
{
    let mut out = chars_of("attachment; filename=\"");
    append_all(&mut out, &chars_of(attachment_file_name(id, kind, is_gzip_warc).as_str()));
    append_all(&mut out, &chars_of("\""));
    string_from_chars(&out)
}

// ---------------------------------------------------------------------------
// PDF preview
// ---------------------------------------------------------------------------

/// The page around the embedded PDF, up to its address.
pub const PDF_PREVIEW_HEAD: &'static str = "<!DOCTYPE html>\n<html lang=\"en\">\n  <head>\n    <meta charset=\"utf-8\">\n    <meta name=\"viewport\" content=\"width=device-width, initial-scale=1\">\n    <style>\n      html, body {\n        margin: 0;\n        width: 100%;\n        height: 100%;\n        background: #fff;\n        color-scheme: light;\n      }\n      embed {\n        display: block;\n        width: 100%;\n        height: 100%;\n        background: #fff;\n      }\n    </style>\n  </head>\n  <body>\n    <embed src=\"";

/// The page around the embedded PDF, after its address.
pub const PDF_PREVIEW_TAIL: &'static str = "#zoom=page-width\" type=\"application/pdf\">\n  </body>\n</html>\n";

/// The preview page of a PDF source: the stored PDF, inline, page-wide.
pub open spec fn pdf_preview_spec(id: int) -> Seq<char> {
    PDF_PREVIEW_HEAD@ + artifact_path_spec(id, HyperlinkArtifactKind::PdfSource, "/inline"@)
        + PDF_PREVIEW_TAIL@
}

/// The preview page of the PDF source of hyperlink `id`.
pub fn pdf_source_preview_html(id: i32) -> (r: String)
    ensures
        r@ == pdf_preview_spec(id as int),
{
    let mut out = chars_of(PDF_PREVIEW_HEAD);
    append_all(&mut out, &chars_of(artifact_inline_path(id, &HyperlinkArtifactKind::PdfSource).as_str()));
    append_all(&mut out, &chars_of(PDF_PREVIEW_TAIL));
    string_from_chars(&out)
}

// ---------------------------------------------------------------------------
// Looking a URL up
// ---------------------------------------------------------------------------

/// The answer to a URL lookup.
pub struct HyperlinkLookupResponse {
    pub status: String,
    pub id: Option<i32>,
    pub canonical_url: Option<String>,
}

/// The answer to a lookup of a URL whose canonical form is
/// `canonical_url` (none when the URL is missing or invalid) and which
/// matches the stored hyperlink `found` (its id and discovery depth).
pub open spec fn lookup_spec(canonical_url: Option<Seq<char>>, found: Option<(i32, i32)>) -> (
    Seq<char>,
    Option<i32>,
    Option<Seq<char>>,
) {
    match canonical_url {
        None => ("invalid_url"@, None, None),
        Some(u) => match found {
            Some((id, depth)) => (
                if depth == ROOT_DISCOVERY_DEPTH {
                    "root"@
                } else {
                    "discovered"@
                },
                Some(id),
                Some(u),
            ),
            None => ("not_found"@, None, Some(u)),
        },
    }
}

/// Answers a URL lookup.
pub fn lookup_response(canonical_url: Option<String>, found: Option<(i32, i32)>) -> (r:
    HyperlinkLookupResponse)
    ensures
        (r.status@, r.id, opt_string_view(r.canonical_url)) == lookup_spec(
            opt_string_view(canonical_url),
            found,
        ),
{
    let Some(url) = canonical_url else {
        return HyperlinkLookupResponse { status: "invalid_url".to_string(), id: None, canonical_url: None };
    };
    match found {
        Some((id, depth)) => {
            let status = if depth == ROOT_DISCOVERY_DEPTH {
                "root"
            } else {
                "discovered"
            };
            HyperlinkLookupResponse { status: status.to_string(), id: Some(id), canonical_url: Some(url) }
        },
        None => HyperlinkLookupResponse {
            status: "not_found".to_string(),
            id: None,
            canonical_url: Some(url),
        },
    }
}

} // verus!
