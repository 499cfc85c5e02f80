//! Artifact kinds of a hyperlink: their slugs, labels and file extensions,
//! the paths that serve them, and which of them a hyperlink page shows,
//! needs and can fetch again.
use vstd::prelude::*;

use crate::numbers::{
    dec_int, dec_nat, format_i32, is_digit, law_i32_text_round_trip, lemma_dec_nat_all_digits, parse_i32,
    parse_i32_spec,
};
use crate::text::{append_all, chars_of, ends_with, matches_at_exec, seq_eq, string_from_chars, subvec};

verus! {

#[derive(Clone, Copy, Debug, PartialEq, Eq, Hash, Structural)]
pub enum HyperlinkArtifactKind {
    SnapshotWarc,
    PdfSource,
    PaperlessMetadata,
    SnapshotError,
    OembedMeta,
    OembedError,
    OgMeta,
    OgImage,
    OgError,
    ReadableText,
    ReadableMeta,
    ReadableError,
    ScreenshotWebp,
    ScreenshotThumbWebp,
    ScreenshotDarkWebp,
    ScreenshotThumbDarkWebp,
    ScreenshotError,
    TagMeta,
}

/// What the stored source of a hyperlink turned out to be.
#[derive(Clone, Copy, Debug, PartialEq, Eq, Structural)]
pub enum HyperlinkSourceType {
    Unknown,
    Html,
    Pdf,
}

/// The processing job that produces an artifact kind.
#[derive(Clone, Copy, Debug, PartialEq, Eq, Structural)]
pub enum FetchJobKind {
    Snapshot,
    Og,
    Readability,
}

/// Slug, label, file extension, and whether the kind records an error.
pub open spec fn kind_info(k: HyperlinkArtifactKind) -> (Seq<char>, Seq<char>, Seq<char>, bool) {
    match k {
        HyperlinkArtifactKind::SnapshotWarc => ("snapshot_warc"@, "Snapshot WARC"@, "warc"@, false),
        HyperlinkArtifactKind::PdfSource => ("pdf_source"@, "PDF Source"@, "pdf"@, false),
        HyperlinkArtifactKind::PaperlessMetadata => (
            "paperless_metadata"@,
            "Paperless Metadata"@,
            "json"@,
            false,
        ),
        HyperlinkArtifactKind::SnapshotError => (
            "snapshot_error"@,
            "Snapshot Error"@,
            "json"@,
            true,
        ),
        HyperlinkArtifactKind::OembedMeta => ("oembed_meta"@, "oEmbed Metadata"@, "json"@, false),
        HyperlinkArtifactKind::OembedError => ("oembed_error"@, "oEmbed Error"@, "json"@, true),
        HyperlinkArtifactKind::OgMeta => ("og_meta"@, "Open Graph Metadata"@, "json"@, false),
        HyperlinkArtifactKind::OgImage => ("og_image"@, "Open Graph Image"@, "img"@, false),
        HyperlinkArtifactKind::OgError => ("og_error"@, "Open Graph Error"@, "json"@, true),
        HyperlinkArtifactKind::ReadableText => (
            "readable_text"@,
            "Readable Markdown"@,
            "md"@,
            false,
        ),
        HyperlinkArtifactKind::ReadableMeta => (
            "readable_meta"@,
            "Readable Metadata"@,
            "json"@,
            false,
        ),
        HyperlinkArtifactKind::ReadableError => (
            "readable_error"@,
            "Readable Error"@,
            "json"@,
            true,
        ),
        HyperlinkArtifactKind::ScreenshotWebp => (
            "screenshot_webp"@,
            "Screenshot WebP"@,
            "webp"@,
            false,
        ),
        HyperlinkArtifactKind::ScreenshotThumbWebp => (
            "screenshot_thumb_webp"@,
            "Screenshot Thumbnail"@,
            "webp"@,
            false,
        ),
        HyperlinkArtifactKind::ScreenshotDarkWebp => (
            "screenshot_dark_webp"@,
            "Screenshot Dark"@,
            "webp"@,
            false,
        ),
        HyperlinkArtifactKind::ScreenshotThumbDarkWebp => (
            "screenshot_thumb_dark_webp"@,
            "Screenshot Thumbnail Dark"@,
            "webp"@,
            false,
        ),
        HyperlinkArtifactKind::ScreenshotError => (
            "screenshot_error"@,
            "Screenshot Error"@,
            "json"@,
            true,
        ),
        HyperlinkArtifactKind::TagMeta => ("tag_meta"@, "Tag Metadata"@, "json"@, false),
    }
}

pub open spec fn slug_of(k: HyperlinkArtifactKind) -> Seq<char> {
    kind_info(k).0
}

/// What the kinds' slugs say agrees with their other facts: a kind records
/// an error exactly when its slug ends in `_error`, and an error is stored
/// as JSON; a screenshot kind (slug ending in `_webp`) is stored as WebP.
pub proof fn law_kind_slug_facts(k: HyperlinkArtifactKind)
    ensures
        kind_info(k).3 == ends_with(slug_of(k), "_error"@),
        kind_info(k).3 ==> kind_info(k).2 == "json"@,
        ends_with(slug_of(k), "_webp"@) ==> kind_info(k).2 == "webp"@,
{
    reveal_strlit("_error");
    reveal_strlit("_webp");
    reveal_strlit("json");
    reveal_strlit("webp");
    match k {
        HyperlinkArtifactKind::SnapshotWarc => {
            reveal_strlit("snapshot_warc");
            reveal_strlit("warc");
            let sl = "snapshot_warc"@;
            assert(sl.subrange(7, 13)[0] != "_error"@[0]);
            assert(sl.subrange(8, 13)[2] != "_webp"@[2]);
        },
        HyperlinkArtifactKind::PdfSource => {
            reveal_strlit("pdf_source");
            reveal_strlit("pdf");
            let sl = "pdf_source"@;
            assert(sl.subrange(4, 10)[0] != "_error"@[0]);
            assert(sl.subrange(5, 10)[0] != "_webp"@[0]);
        },
        HyperlinkArtifactKind::PaperlessMetadata => {
            reveal_strlit("paperless_metadata");
            reveal_strlit("json");
            let sl = "paperless_metadata"@;
            assert(sl.subrange(12, 18)[0] != "_error"@[0]);
            assert(sl.subrange(13, 18)[0] != "_webp"@[0]);
        },
        HyperlinkArtifactKind::SnapshotError => {
            reveal_strlit("snapshot_error");
            reveal_strlit("json");
            let sl = "snapshot_error"@;
            assert(sl.subrange(8, 14) =~= "_error"@);
            assert(sl.subrange(9, 14)[0] != "_webp"@[0]);
        },
        HyperlinkArtifactKind::OembedMeta => {
            reveal_strlit("oembed_meta");
            reveal_strlit("json");
            let sl = "oembed_meta"@;
            assert(sl.subrange(5, 11)[0] != "_error"@[0]);
            assert(sl.subrange(6, 11)[1] != "_webp"@[1]);
        },
        HyperlinkArtifactKind::OembedError => {
            reveal_strlit("oembed_error");
            reveal_strlit("json");
            let sl = "oembed_error"@;
            assert(sl.subrange(6, 12) =~= "_error"@);
            assert(sl.subrange(7, 12)[0] != "_webp"@[0]);
        },
        HyperlinkArtifactKind::OgMeta => {
            reveal_strlit("og_meta");
            reveal_strlit("json");
            let sl = "og_meta"@;
            assert(sl.subrange(1, 7)[0] != "_error"@[0]);
            assert(sl.subrange(2, 7)[1] != "_webp"@[1]);
        },
        HyperlinkArtifactKind::OgImage => {
            reveal_strlit("og_image");
            reveal_strlit("img");
            let sl = "og_image"@;
            assert(sl.subrange(2, 8)[1] != "_error"@[1]);
            assert(sl.subrange(3, 8)[0] != "_webp"@[0]);
        },
        HyperlinkArtifactKind::OgError => {
            reveal_strlit("og_error");
            reveal_strlit("json");
            let sl = "og_error"@;
            assert(sl.subrange(2, 8) =~= "_error"@);
            assert(sl.subrange(3, 8)[0] != "_webp"@[0]);
        },
        HyperlinkArtifactKind::ReadableText => {
            reveal_strlit("readable_text");
            reveal_strlit("md");
            let sl = "readable_text"@;
            assert(sl.subrange(7, 13)[0] != "_error"@[0]);
            assert(sl.subrange(8, 13)[1] != "_webp"@[1]);
        },
        HyperlinkArtifactKind::ReadableMeta => {
            reveal_strlit("readable_meta");
            reveal_strlit("json");
            let sl = "readable_meta"@;
            assert(sl.subrange(7, 13)[0] != "_error"@[0]);
            assert(sl.subrange(8, 13)[1] != "_webp"@[1]);
        },
        HyperlinkArtifactKind::ReadableError => {
            reveal_strlit("readable_error");
            reveal_strlit("json");
            let sl = "readable_error"@;
            assert(sl.subrange(8, 14) =~= "_error"@);
            assert(sl.subrange(9, 14)[0] != "_webp"@[0]);
        },
        HyperlinkArtifactKind::ScreenshotWebp => {
            reveal_strlit("screenshot_webp");
            reveal_strlit("webp");
            let sl = "screenshot_webp"@;
            assert(sl.subrange(9, 15)[0] != "_error"@[0]);
            assert(sl.subrange(10, 15) =~= "_webp"@);
        },
        HyperlinkArtifactKind::ScreenshotThumbWebp => {
            reveal_strlit("screenshot_thumb_webp");
            reveal_strlit("webp");
            let sl = "screenshot_thumb_webp"@;
            assert(sl.subrange(15, 21)[0] != "_error"@[0]);
            assert(sl.subrange(16, 21) =~= "_webp"@);
        },
        HyperlinkArtifactKind::ScreenshotDarkWebp => {
            reveal_strlit("screenshot_dark_webp");
            reveal_strlit("webp");
            let sl = "screenshot_dark_webp"@;
            assert(sl.subrange(14, 20)[0] != "_error"@[0]);
            assert(sl.subrange(15, 20) =~= "_webp"@);
        },
        HyperlinkArtifactKind::ScreenshotThumbDarkWebp => {
            reveal_strlit("screenshot_thumb_dark_webp");
            reveal_strlit("webp");
            let sl = "screenshot_thumb_dark_webp"@;
            assert(sl.subrange(20, 26)[0] != "_error"@[0]);
            assert(sl.subrange(21, 26) =~= "_webp"@);
        },
        HyperlinkArtifactKind::ScreenshotError => {
            reveal_strlit("screenshot_error");
            reveal_strlit("json");
            let sl = "screenshot_error"@;
            assert(sl.subrange(10, 16) =~= "_error"@);
            assert(sl.subrange(11, 16)[0] != "_webp"@[0]);
        },
        HyperlinkArtifactKind::TagMeta => {
            reveal_strlit("tag_meta");
            reveal_strlit("json");
            let sl = "tag_meta"@;
            assert(sl.subrange(2, 8)[0] != "_error"@[0]);
            assert(sl.subrange(3, 8)[1] != "_webp"@[1]);
        },
    }
}

/// Slug, label, file extension, and whether the kind records an error.
pub fn artifact_kind_info(kind: &HyperlinkArtifactKind) -> (r: (
    &'static str,
    &'static str,
    &'static str,
    bool,
))
    ensures
        (r.0@, r.1@, r.2@, r.3) == kind_info(*kind),
{
    match kind {
        HyperlinkArtifactKind::SnapshotWarc => ("snapshot_warc", "Snapshot WARC", "warc", false),
        HyperlinkArtifactKind::PdfSource => ("pdf_source", "PDF Source", "pdf", false),
        HyperlinkArtifactKind::PaperlessMetadata => (
            "paperless_metadata",
            "Paperless Metadata",
            "json",
            false,
        ),
        HyperlinkArtifactKind::SnapshotError => ("snapshot_error", "Snapshot Error", "json", true),
        HyperlinkArtifactKind::OembedMeta => ("oembed_meta", "oEmbed Metadata", "json", false),
        HyperlinkArtifactKind::OembedError => ("oembed_error", "oEmbed Error", "json", true),
        HyperlinkArtifactKind::OgMeta => ("og_meta", "Open Graph Metadata", "json", false),
        HyperlinkArtifactKind::OgImage => ("og_image", "Open Graph Image", "img", false),
        HyperlinkArtifactKind::OgError => ("og_error", "Open Graph Error", "json", true),
        HyperlinkArtifactKind::ReadableText => ("readable_text", "Readable Markdown", "md", false),
        HyperlinkArtifactKind::ReadableMeta => (
            "readable_meta",
            "Readable Metadata",
            "json",
            false,
        ),
        HyperlinkArtifactKind::ReadableError => ("readable_error", "Readable Error", "json", true),
        HyperlinkArtifactKind::ScreenshotWebp => (
            "screenshot_webp",
            "Screenshot WebP",
            "webp",
            false,
        ),
        HyperlinkArtifactKind::ScreenshotThumbWebp => (
            "screenshot_thumb_webp",
            "Screenshot Thumbnail",
            "webp",
            false,
        ),
        HyperlinkArtifactKind::ScreenshotDarkWebp => (
            "screenshot_dark_webp",
            "Screenshot Dark",
            "webp",
            false,
        ),
        HyperlinkArtifactKind::ScreenshotThumbDarkWebp => (
            "screenshot_thumb_dark_webp",
            "Screenshot Thumbnail Dark",
            "webp",
            false,
        ),
        HyperlinkArtifactKind::ScreenshotError => (
            "screenshot_error",
            "Screenshot Error",
            "json",
            true,
        ),
        HyperlinkArtifactKind::TagMeta => ("tag_meta", "Tag Metadata", "json", false),
    }
}

pub fn artifact_kind_slug(kind: &HyperlinkArtifactKind) -> (r: &'static str)
    ensures
        r@ == kind_info(*kind).0,
{
    artifact_kind_info(kind).0
}

pub fn artifact_kind_label(kind: &HyperlinkArtifactKind) -> (r: &'static str)
    ensures
        r@ == kind_info(*kind).1,
{
    artifact_kind_info(kind).1
}

pub fn artifact_kind_file_extension(kind: &HyperlinkArtifactKind) -> (r: &'static str)
    ensures
        r@ == kind_info(*kind).2,
{
    artifact_kind_info(kind).2
}

/// The extension of a downloaded artifact: a gzip-compressed WARC snapshot
/// downloads as `warc.gz`, every other artifact by its kind's extension.
pub fn artifact_download_file_extension(kind: &HyperlinkArtifactKind, is_gzip_warc: bool) -> (r:
    String)
    ensures
        r@ == (if *kind == HyperlinkArtifactKind::SnapshotWarc && is_gzip_warc {
            "warc.gz"@
        } else {
            kind_info(*kind).2
        }),
{
    if *kind == HyperlinkArtifactKind::SnapshotWarc && is_gzip_warc {
        return "warc.gz".to_string();
    }
    artifact_kind_file_extension(kind).to_string()
}

// ---------------------------------------------------------------------------
// Kinds shown, parsed and fetched
// ---------------------------------------------------------------------------

/// The kinds a hyperlink page lists, in order.
pub open spec fn show_kinds() -> Seq<HyperlinkArtifactKind> {
    seq![
        HyperlinkArtifactKind::SnapshotWarc,
        HyperlinkArtifactKind::PdfSource,
        HyperlinkArtifactKind::PaperlessMetadata,
        HyperlinkArtifactKind::SnapshotError,
        HyperlinkArtifactKind::OgMeta,
        HyperlinkArtifactKind::OgImage,
        HyperlinkArtifactKind::OgError,
        HyperlinkArtifactKind::ScreenshotWebp,
        HyperlinkArtifactKind::ScreenshotThumbWebp,
        HyperlinkArtifactKind::ScreenshotDarkWebp,
        HyperlinkArtifactKind::ScreenshotThumbDarkWebp,
        HyperlinkArtifactKind::ScreenshotError,
        HyperlinkArtifactKind::ReadableText,
        HyperlinkArtifactKind::ReadableMeta,
        HyperlinkArtifactKind::ReadableError,
    ]
}

pub fn show_artifact_kinds() -> (r: Vec<HyperlinkArtifactKind>)
    ensures
        r@ == show_kinds(),
{
    let r = vec![
        HyperlinkArtifactKind::SnapshotWarc,
        HyperlinkArtifactKind::PdfSource,
        HyperlinkArtifactKind::PaperlessMetadata,
        HyperlinkArtifactKind::SnapshotError,
        HyperlinkArtifactKind::OgMeta,
        HyperlinkArtifactKind::OgImage,
        HyperlinkArtifactKind::OgError,
        HyperlinkArtifactKind::ScreenshotWebp,
        HyperlinkArtifactKind::ScreenshotThumbWebp,
        HyperlinkArtifactKind::ScreenshotDarkWebp,
        HyperlinkArtifactKind::ScreenshotThumbDarkWebp,
        HyperlinkArtifactKind::ScreenshotError,
        HyperlinkArtifactKind::ReadableText,
        HyperlinkArtifactKind::ReadableMeta,
        HyperlinkArtifactKind::ReadableError,
    ];
    assert(r@ =~= show_kinds());
    r
}

/// The first of `ks` whose slug is `v`.
pub open spec fn first_with_slug(ks: Seq<HyperlinkArtifactKind>, v: Seq<char>) -> Option<
    HyperlinkArtifactKind,
>
    decreases ks.len(),
{
    if ks.len() == 0 {
        None
    } else if slug_of(ks[0]) == v {
        Some(ks[0])
    } else {
        first_with_slug(ks.drop_first(), v)
    }
}

/// The shown kind whose slug is `value`, if any.
pub fn parse_artifact_kind(value: &str) -> (r: Option<HyperlinkArtifactKind>)
    ensures
        r == first_with_slug(show_kinds(), value@),
{
    let kinds = show_artifact_kinds();
    let v = chars_of(value);
    let mut i: usize = 0;
    assert(kinds@.skip(0) =~= kinds@);
    while i < kinds.len()
        invariant
            i <= kinds.len(),
            kinds@ == show_kinds(),
            v@ == value@,
            first_with_slug(show_kinds(), value@) == first_with_slug(kinds@.skip(i as int), v@),
        decreases kinds.len() - i,
    {
        assert(kinds@.skip(i as int)[0] == kinds@[i as int]);
        assert(kinds@.skip(i as int).drop_first() =~= kinds@.skip(i + 1));
        let slug = chars_of(artifact_kind_slug(&kinds[i]));
        if seq_eq(&slug, &v) {
            return Some(kinds[i]);
        }
        i += 1;
    }
    assert(kinds@.skip(i as int) =~= Seq::<HyperlinkArtifactKind>::empty());
    None
}

pub open spec fn is_readability_kind(k: HyperlinkArtifactKind) -> bool {
    k == HyperlinkArtifactKind::ReadableText || k == HyperlinkArtifactKind::ReadableMeta || k
        == HyperlinkArtifactKind::ReadableError
}

pub fn is_readability_artifact_kind(kind: &HyperlinkArtifactKind) -> (b: bool)
    ensures
        b == is_readability_kind(*kind),
{
    matches!(
        kind,
        HyperlinkArtifactKind::ReadableText | HyperlinkArtifactKind::ReadableMeta
            | HyperlinkArtifactKind::ReadableError
    )
}

pub open spec fn is_screenshot_fetch_kind(k: HyperlinkArtifactKind) -> bool {
    k == HyperlinkArtifactKind::ScreenshotWebp || k == HyperlinkArtifactKind::ScreenshotThumbWebp
        || k == HyperlinkArtifactKind::ScreenshotDarkWebp || k
        == HyperlinkArtifactKind::ScreenshotThumbDarkWebp || k
        == HyperlinkArtifactKind::ScreenshotError
}

pub fn is_screenshot_fetch_artifact_kind(kind: &HyperlinkArtifactKind) -> (b: bool)
    ensures
        b == is_screenshot_fetch_kind(*kind),
{
    matches!(
        kind,
        HyperlinkArtifactKind::ScreenshotWebp | HyperlinkArtifactKind::ScreenshotThumbWebp
            | HyperlinkArtifactKind::ScreenshotDarkWebp
            | HyperlinkArtifactKind::ScreenshotThumbDarkWebp
            | HyperlinkArtifactKind::ScreenshotError
    )
}

/// The job that produces a kind: snapshots (and screenshots) come from the
/// snapshot job, Open Graph kinds from the OG job, readable kinds from the
/// readability job; the rest cannot be fetched on demand.
pub open spec fn fetch_job_kind(k: HyperlinkArtifactKind) -> Option<FetchJobKind> {
    match k {
        HyperlinkArtifactKind::SnapshotWarc | HyperlinkArtifactKind::PdfSource
        | HyperlinkArtifactKind::SnapshotError | HyperlinkArtifactKind::ScreenshotWebp
        | HyperlinkArtifactKind::ScreenshotThumbWebp | HyperlinkArtifactKind::ScreenshotDarkWebp
        | HyperlinkArtifactKind::ScreenshotThumbDarkWebp
        | HyperlinkArtifactKind::ScreenshotError => Some(FetchJobKind::Snapshot),
        HyperlinkArtifactKind::OgMeta | HyperlinkArtifactKind::OgImage
        | HyperlinkArtifactKind::OgError => Some(FetchJobKind::Og),
        HyperlinkArtifactKind::ReadableText | HyperlinkArtifactKind::ReadableMeta
        | HyperlinkArtifactKind::ReadableError => Some(FetchJobKind::Readability),
        HyperlinkArtifactKind::PaperlessMetadata | HyperlinkArtifactKind::OembedMeta
        | HyperlinkArtifactKind::OembedError | HyperlinkArtifactKind::TagMeta => None,
    }
}

pub fn artifact_fetch_job_kind(kind: &HyperlinkArtifactKind) -> (r: Option<FetchJobKind>)
    ensures
        r == fetch_job_kind(*kind),
{
    match kind {
        HyperlinkArtifactKind::SnapshotWarc | HyperlinkArtifactKind::PdfSource
        | HyperlinkArtifactKind::SnapshotError | HyperlinkArtifactKind::ScreenshotWebp
        | HyperlinkArtifactKind::ScreenshotThumbWebp | HyperlinkArtifactKind::ScreenshotDarkWebp
        | HyperlinkArtifactKind::ScreenshotThumbDarkWebp
        | HyperlinkArtifactKind::ScreenshotError => Some(FetchJobKind::Snapshot),
        HyperlinkArtifactKind::OgMeta | HyperlinkArtifactKind::OgImage
        | HyperlinkArtifactKind::OgError => Some(FetchJobKind::Og),
        HyperlinkArtifactKind::ReadableText | HyperlinkArtifactKind::ReadableMeta
        | HyperlinkArtifactKind::ReadableError => Some(FetchJobKind::Readability),
        HyperlinkArtifactKind::PaperlessMetadata | HyperlinkArtifactKind::OembedMeta
        | HyperlinkArtifactKind::OembedError | HyperlinkArtifactKind::TagMeta => None,
    }
}

// ---------------------------------------------------------------------------
// Paths
// ---------------------------------------------------------------------------

pub open spec fn show_path_spec(id: int) -> Seq<char> {
    "/hyperlinks/"@ + dec_int(id)
}

pub open spec fn artifact_path_spec(id: int, k: HyperlinkArtifactKind, suffix: Seq<char>) -> Seq<
    char,
> {
    "/hyperlinks/"@ + dec_int(id) + "/artifacts/"@ + slug_of(k) + suffix
}

/// The page of a hyperlink.
pub fn show_path(id: i32) -> (r: String)
    ensures
        r@ == show_path_spec(id as int),
{
    let n = format_i32(id);
    let mut out = chars_of("/hyperlinks/");
    append_all(&mut out, &chars_of(n.as_str()));
    string_from_chars(&out)
}

fn artifact_path(id: i32, kind: &HyperlinkArtifactKind, suffix: &str) -> (r: String)
    ensures
        r@ == artifact_path_spec(id as int, *kind, suffix@),
{
    let n = format_i32(id);
    let mut out = chars_of("/hyperlinks/");
    append_all(&mut out, &chars_of(n.as_str()));
    append_all(&mut out, &chars_of("/artifacts/"));
    append_all(&mut out, &chars_of(artifact_kind_slug(kind)));
    append_all(&mut out, &chars_of(suffix));
    string_from_chars(&out)
}

pub fn artifact_download_path(hyperlink_id: i32, kind: &HyperlinkArtifactKind) -> (r: String)
    ensures
        r@ == artifact_path_spec(hyperlink_id as int, *kind, ""@),
{
    artifact_path(hyperlink_id, kind, "")
}

pub fn artifact_inline_path(hyperlink_id: i32, kind: &HyperlinkArtifactKind) -> (r: String)
    ensures
        r@ == artifact_path_spec(hyperlink_id as int, *kind, "/inline"@),
{
    artifact_path(hyperlink_id, kind, "/inline")
}

pub fn artifact_delete_path(hyperlink_id: i32, kind: &HyperlinkArtifactKind) -> (r: String)
    ensures
        r@ == artifact_path_spec(hyperlink_id as int, *kind, "/delete"@),
{
    artifact_path(hyperlink_id, kind, "/delete")
}

pub fn artifact_fetch_path(hyperlink_id: i32, kind: &HyperlinkArtifactKind) -> (r: String)
    ensures
        r@ == artifact_path_spec(hyperlink_id as int, *kind, "/fetch"@),
{
    artifact_path(hyperlink_id, kind, "/fetch")
}

/// The page that previews the PDF source of a hyperlink.
pub fn artifact_pdf_preview_path(hyperlink_id: i32) -> (r: String)
    ensures
        r@ == artifact_path_spec(hyperlink_id as int, HyperlinkArtifactKind::PdfSource, "/preview"@),
{
    artifact_path(hyperlink_id, &HyperlinkArtifactKind::PdfSource, "/preview")
}


/// How a hyperlink route answers: an HTML page or JSON.
#[derive(Clone, Copy, Debug, PartialEq, Eq, Structural)]
pub enum ResponseKind {
    Text,
    Json,
}

/// A path segment that does not name a hyperlink: how to answer, the HTTP
/// status (always 400) and the message.
pub struct ParsePathError {
    pub kind: ResponseKind,
    pub status: u16,
    pub message: String,
}

/// The id and response kind that a path segment such as `42` or
/// `42.json` names, or the error message for one that does not.
pub open spec fn id_and_kind_spec(s: Seq<char>) -> Result<(int, ResponseKind), (ResponseKind, Seq<char>)> {
    let json = ends_with(s, ".json"@);
    let raw = if json {
        s.take(s.len() - 5)
    } else {
        s
    };
    let kind = if json {
        ResponseKind::Json
    } else {
        ResponseKind::Text
    };
    if raw.len() == 0 {
        Err((kind, "invalid hyperlink id"@))
    } else {
        match parse_i32_spec(raw) {
            Some(id) => Ok((id, kind)),
            None => Err((kind, "invalid hyperlink id: "@ + raw)),
        }
    }
}

pub fn parse_id_and_kind(id_or_ext: &str) -> (r: Result<(i32, ResponseKind), ParsePathError>)
    ensures
        match r {
            Ok((id, kind)) => id_and_kind_spec(id_or_ext@) == Ok::<(int, ResponseKind), (ResponseKind, Seq<char>)>((id as int, kind)),
            Err(e) => e.status == 400 && id_and_kind_spec(id_or_ext@) == Err::<(int, ResponseKind), (ResponseKind, Seq<char>)>((e.kind, e.message@)),
        },
{
    let s = chars_of(id_or_ext);
    proof {
        reveal_strlit(".json");
    }
    let json = s.len() >= 5 && matches_at_exec(&s, &chars_of(".json"), s.len() - 5);
    let raw = if json {
        subvec(&s, 0, s.len() - 5)
    } else {
        s
    };
    assert(json ==> raw@ =~= s@.take(s@.len() - 5));
    let kind = if json {
        ResponseKind::Json
    } else {
        ResponseKind::Text
    };
    if raw.len() == 0 {
        return Err(ParsePathError { kind, status: 400, message: "invalid hyperlink id".to_string() });
    }
    match parse_i32(&raw) {
        Some(id) => Ok((id, kind)),
        None => {
            let mut m = chars_of("invalid hyperlink id: ");
            append_all(&mut m, &raw);
            Err(ParsePathError { kind, status: 400, message: string_from_chars(&m) })
        },
    }
}

/// A failed hyperlink request's answer: how to answer (the error page, with
/// a link back to the hyperlink list, or the JSON body of
/// [`json_error_body`]), the HTTP status and the message.
pub struct HyperlinkErrorReply {
    pub kind: ResponseKind,
    pub status: u16,
    pub message: String,
}

/// Where the error page links back to, and the link's text.
pub const ERROR_PAGE_BACK_HREF: &'static str = "/hyperlinks";

pub const ERROR_PAGE_BACK_LABEL: &'static str = "Back to hyperlinks";

pub open spec fn not_found_message(id: i32) -> Seq<char> {
    "hyperlink "@ + dec_int(id as int) + " not found"@
}

pub open spec fn internal_error_message(id: i32, action: Seq<char>, err: Seq<char>) -> Seq<char> {
    "failed to "@ + action + " hyperlink "@ + dec_int(id as int) + ": "@ + err
}

/// No hyperlink has id `id`: 404.
pub fn hyperlink_not_found(kind: ResponseKind, id: i32) -> (r: HyperlinkErrorReply)
    ensures
        r.kind == kind,
        r.status == 404,
        r.message@ == not_found_message(id),
{
    let mut m = chars_of("hyperlink ");
    append_all(&mut m, &chars_of(format_i32(id).as_str()));
    append_all(&mut m, &chars_of(" not found"));
    HyperlinkErrorReply { kind, status: 404, message: string_from_chars(&m) }
}

/// Doing `action` on hyperlink `id` failed with `err`: 500.
pub fn hyperlink_internal_error(kind: ResponseKind, id: i32, action: &str, err: &str) -> (r: HyperlinkErrorReply)
    ensures
        r.kind == kind,
        r.status == 500,
        r.message@ == internal_error_message(id, action@, err@),
{
    let mut m = chars_of("failed to ");
    append_all(&mut m, &chars_of(action));
    append_all(&mut m, &chars_of(" hyperlink "));
    append_all(&mut m, &chars_of(format_i32(id).as_str()));
    append_all(&mut m, &chars_of(": "));
    append_all(&mut m, &chars_of(err));
    HyperlinkErrorReply { kind, status: 500, message: string_from_chars(&m) }
}

/// The show page once its hyperlink was looked up (`Ok(true)`: found,
/// `Ok(false)`: no such row, `Err`: the lookup failed): `None` when the page
/// is shown, else the error answer.
pub fn show_lookup_reply(kind: ResponseKind, id: i32, lookup: Result<bool, String>) -> (r: Option<HyperlinkErrorReply>)
    ensures
        match lookup {
            Ok(true) => r is None,
            Ok(false) => r matches Some(e) && e.kind == kind && e.status == 404 && e.message@ == not_found_message(id),
            Err(err) => r matches Some(e) && e.kind == kind && e.status == 500 && e.message@
                == internal_error_message(id, "fetch"@, err@),
        },
{
    match lookup {
        Ok(true) => None,
        Ok(false) => Some(hyperlink_not_found(kind, id)),
        Err(err) => Some(hyperlink_internal_error(kind, id, "fetch", err.as_str())),
    }
}

/// A lowercase hexadecimal digit.
pub open spec fn hex_lower(d: int) -> char {
    if d < 10 {
        (('0' as int) + d) as char
    } else {
        (('a' as int) + d - 10) as char
    }
}

/// A character as JSON writes it inside a string.
pub open spec fn json_escaped_char(c: char) -> Seq<char> {
    if c == '"' {
        seq!['\\', '"']
    } else if c == '\\' {
        seq!['\\', '\\']
    } else if c == '\u{8}' {
        seq!['\\', 'b']
    } else if c == '\t' {
        seq!['\\', 't']
    } else if c == '\n' {
        seq!['\\', 'n']
    } else if c == '\u{c}' {
        seq!['\\', 'f']
    } else if c == '\r' {
        seq!['\\', 'r']
    } else if (c as int) < 32 {
        seq!['\\', 'u', '0', '0', hex_lower((c as int) / 16), hex_lower((c as int) % 16)]
    } else {
        seq![c]
    }
}

pub open spec fn json_escaped(s: Seq<char>) -> Seq<char>
    decreases s.len(),
{
    if s.len() == 0 {
        Seq::empty()
    } else {
        json_escaped(s.drop_last()) + json_escaped_char(s.last())
    }
}

/// A string as a JSON string literal.
pub open spec fn json_quoted(s: Seq<char>) -> Seq<char> {
    seq!['"'] + json_escaped(s) + seq!['"']
}

/// serde_json's `to_string` on a string slice: the text in double quotes,
/// with `"` and `\` escaped by a backslash, backspace, tab, line feed, form
/// feed and carriage return as `\b \t \n \f \r`, the other characters
/// below U+0020 as `\u00` and two lowercase hex digits, and every other
/// character as it is. On a string slice it does not fail.
#[verifier::external_body]
fn json_string(s: &str) -> (r: String)
    ensures
        r@ == json_quoted(s@),
{
    match serde_json::to_string(s) {
        Ok(v) => v,
        Err(_) => String::new(),
    }
}

/// The JSON body of an error answer: `{"error":` the message `}`.
pub open spec fn json_error_body_spec(message: Seq<char>) -> Seq<char> {
    seq!['{', '"', 'e', 'r', 'r', 'o', 'r', '"', ':'] + json_quoted(message) + seq!['}']
}

pub fn json_error_body(message: &str) -> (r: String)
    ensures
        r@ == json_error_body_spec(message@),
{
    let mut out: Vec<char> = vec!['{', '"', 'e', 'r', 'r', 'o', 'r', '"', ':'];
    append_all(&mut out, &chars_of(json_string(message).as_str()));
    out.push('}');
    string_from_chars(&out)
}

/// A hyperlink's id written in its path is read back as that id, for the
/// page (`42`) and for JSON (`42.json`).
pub proof fn law_id_path_round_trip(id: i32)
    ensures
        id_and_kind_spec(dec_int(id as int)) == Ok::<(int, ResponseKind), (ResponseKind, Seq<char>)>((id as int, ResponseKind::Text)),
        id_and_kind_spec(dec_int(id as int) + ".json"@) == Ok::<(int, ResponseKind), (ResponseKind, Seq<char>)>((id as int, ResponseKind::Json)),
{
    reveal_strlit(".json");
    law_i32_text_round_trip(id);
    lemma_dec_int_shape(id as int);
    let d = dec_int(id as int);
    let j = d + ".json"@;
    assert(j.take(j.len() - 5) =~= d);
    assert(j.subrange(j.len() - 5, j.len() as int) =~= ".json"@);
    if ends_with(d, ".json"@) {
        assert(d[d.len() - 5] == d.subrange(d.len() - 5, d.len() as int)[0]);
        assert(is_digit(d[d.len() - 5]) || d[d.len() - 5] == '-');
    }
}

proof fn lemma_dec_int_shape(n: int)
    ensures
        dec_int(n).len() > 0,
        forall|i: int| 0 <= i < dec_int(n).len() ==> is_digit(#[trigger] dec_int(n)[i]) || dec_int(n)[i] == '-',
{
    let m: nat = if n < 0 { (-n) as nat } else { n as nat };
    lemma_dec_nat_all_digits(m);
    if n < 0 {
        assert forall|i: int| 0 <= i < dec_int(n).len() implies is_digit(#[trigger] dec_int(n)[i]) || dec_int(n)[i] == '-' by {
            if i > 0 {
                assert(dec_int(n)[i] == dec_nat(m)[i - 1]);
            }
        }
    }
}

// ---------------------------------------------------------------------------
// The latest artifacts of a hyperlink
// ---------------------------------------------------------------------------

/// The latest stored artifact of one kind: its id and creation time
/// (seconds and nanoseconds since the Unix epoch).
#[derive(Clone, Copy, Debug, PartialEq, Eq, Structural)]
pub struct LatestArtifact {
    pub kind: HyperlinkArtifactKind,
    pub id: i32,
    pub created_secs: i64,
    pub created_nanos: u32,
}

/// The entry for kind `k`: the first one with that kind.
pub open spec fn latest_of(arts: Seq<LatestArtifact>, k: HyperlinkArtifactKind) -> Option<
    LatestArtifact,
>
    decreases arts.len(),
{
    if arts.len() == 0 {
        None
    } else if arts[0].kind == k {
        Some(arts[0])
    } else {
        latest_of(arts.drop_first(), k)
    }
}

pub open spec fn has_kind(arts: Seq<LatestArtifact>, k: HyperlinkArtifactKind) -> bool {
    latest_of(arts, k) is Some
}

pub fn find_latest(arts: &[LatestArtifact], k: HyperlinkArtifactKind) -> (r: Option<LatestArtifact>)
    ensures
        r == latest_of(arts@, k),
{
    let mut i: usize = 0;
    assert(arts@.skip(0) =~= arts@);
    while i < arts.len()
        invariant
            i <= arts.len(),
            latest_of(arts@, k) == latest_of(arts@.skip(i as int), k),
        decreases arts.len() - i,
    {
        assert(arts@.skip(i as int)[0] == arts@[i as int]);
        assert(arts@.skip(i as int).drop_first() =~= arts@.skip(i + 1));
        if arts[i].kind == k {
            return Some(arts[i]);
        }
        i += 1;
    }
    None
}

pub fn contains_kind(arts: &[LatestArtifact], k: HyperlinkArtifactKind) -> (b: bool)
    ensures
        b == has_kind(arts@, k),
{
    find_latest(arts, k).is_some()
}

/// `candidate` was created after `current`, or at the same time with a
/// larger id.
pub open spec fn is_newer(candidate: LatestArtifact, current: LatestArtifact) -> bool {
    candidate.created_secs > current.created_secs || (candidate.created_secs
        == current.created_secs && candidate.created_nanos > current.created_nanos) || (
    candidate.created_secs == current.created_secs && candidate.created_nanos
        == current.created_nanos && candidate.id > current.id)
}

pub fn artifact_is_newer(candidate: &LatestArtifact, current: &LatestArtifact) -> (b: bool)
    ensures
        b == is_newer(*candidate, *current),
{
    candidate.created_secs > current.created_secs || (candidate.created_secs
        == current.created_secs && candidate.created_nanos > current.created_nanos) || (
    candidate.created_secs == current.created_secs && candidate.created_nanos
        == current.created_nanos && candidate.id > current.id)
}

/// The newer of the stored sources: the PDF when it is newer than the
/// snapshot, else the snapshot; whichever exists when only one does.
pub open spec fn latest_source_kind(arts: Seq<LatestArtifact>) -> Option<HyperlinkArtifactKind> {
    match (
        latest_of(arts, HyperlinkArtifactKind::SnapshotWarc),
        latest_of(arts, HyperlinkArtifactKind::PdfSource),
    ) {
        (Some(snapshot), Some(pdf)) => if is_newer(pdf, snapshot) {
            Some(HyperlinkArtifactKind::PdfSource)
        } else {
            Some(HyperlinkArtifactKind::SnapshotWarc)
        },
        (Some(_), None) => Some(HyperlinkArtifactKind::SnapshotWarc),
        (None, Some(_)) => Some(HyperlinkArtifactKind::PdfSource),
        (None, None) => None,
    }
}

pub fn latest_source_artifact_kind(latest_artifacts: &[LatestArtifact]) -> (r: Option<
    HyperlinkArtifactKind,
>)
    ensures
        r == latest_source_kind(latest_artifacts@),
{
    let snapshot = find_latest(latest_artifacts, HyperlinkArtifactKind::SnapshotWarc);
    let pdf = find_latest(latest_artifacts, HyperlinkArtifactKind::PdfSource);
    match (snapshot, pdf) {
        (Some(snapshot), Some(pdf)) => {
            if artifact_is_newer(&pdf, &snapshot) {
                Some(HyperlinkArtifactKind::PdfSource)
            } else {
                Some(HyperlinkArtifactKind::SnapshotWarc)
            }
        },
        (Some(_), None) => Some(HyperlinkArtifactKind::SnapshotWarc),
        (None, Some(_)) => Some(HyperlinkArtifactKind::PdfSource),
        (None, None) => None,
    }
}

/// The source a hyperlink needs: its PDF, its snapshot, or for an unknown
/// type the newer stored source (a snapshot when there is none).
pub open spec fn required_source_kind(
    source_type: HyperlinkSourceType,
    arts: Seq<LatestArtifact>,
) -> HyperlinkArtifactKind {
    match source_type {
        HyperlinkSourceType::Pdf => HyperlinkArtifactKind::PdfSource,
        HyperlinkSourceType::Html => HyperlinkArtifactKind::SnapshotWarc,
        HyperlinkSourceType::Unknown => match latest_source_kind(arts) {
            Some(k) => k,
            None => HyperlinkArtifactKind::SnapshotWarc,
        },
    }
}

pub fn required_source_artifact_kind(
    source_type: &HyperlinkSourceType,
    latest_artifacts: &[LatestArtifact],
) -> (r: HyperlinkArtifactKind)
    ensures
        r == required_source_kind(*source_type, latest_artifacts@),
{
    match source_type {
        HyperlinkSourceType::Pdf => HyperlinkArtifactKind::PdfSource,
        HyperlinkSourceType::Html => HyperlinkArtifactKind::SnapshotWarc,
        HyperlinkSourceType::Unknown => match latest_source_artifact_kind(latest_artifacts) {
            Some(k) => k,
            None => HyperlinkArtifactKind::SnapshotWarc,
        },
    }
}

/// Screenshots a hyperlink needs: for a PDF only the thumbnails, and only
/// once its source is stored; for anything else all four images.
pub open spec fn required_screenshot_kinds(
    source_type: HyperlinkSourceType,
    arts: Seq<LatestArtifact>,
) -> Seq<HyperlinkArtifactKind> {
    if source_type == HyperlinkSourceType::Pdf {
        if has_kind(arts, HyperlinkArtifactKind::PdfSource) {
            seq![
                HyperlinkArtifactKind::ScreenshotThumbWebp,
                HyperlinkArtifactKind::ScreenshotThumbDarkWebp,
            ]
        } else {
            Seq::empty()
        }
    } else {
        seq![
            HyperlinkArtifactKind::ScreenshotWebp,
            HyperlinkArtifactKind::ScreenshotDarkWebp,
            HyperlinkArtifactKind::ScreenshotThumbWebp,
            HyperlinkArtifactKind::ScreenshotThumbDarkWebp,
        ]
    }
}

pub fn required_screenshot_artifact_kinds(
    source_type: &HyperlinkSourceType,
    latest_artifacts: &[LatestArtifact],
) -> (r: Vec<HyperlinkArtifactKind>)
    ensures
        r@ == required_screenshot_kinds(*source_type, latest_artifacts@),
{
    if *source_type == HyperlinkSourceType::Pdf {
        if contains_kind(latest_artifacts, HyperlinkArtifactKind::PdfSource) {
            let r = vec![
                HyperlinkArtifactKind::ScreenshotThumbWebp,
                HyperlinkArtifactKind::ScreenshotThumbDarkWebp,
            ];
            assert(r@ =~= required_screenshot_kinds(*source_type, latest_artifacts@));
            return r;
        }
        let r: Vec<HyperlinkArtifactKind> = Vec::new();
        assert(r@ =~= required_screenshot_kinds(*source_type, latest_artifacts@));
        return r;
    }
    let r = vec![
        HyperlinkArtifactKind::ScreenshotWebp,
        HyperlinkArtifactKind::ScreenshotDarkWebp,
        HyperlinkArtifactKind::ScreenshotThumbWebp,
        HyperlinkArtifactKind::ScreenshotThumbDarkWebp,
    ];
    assert(r@ =~= required_screenshot_kinds(*source_type, latest_artifacts@));
    r
}

/// What a hyperlink page expects to find: its source, the Open Graph
/// metadata, the readable text and metadata, then its screenshots.
pub open spec fn required_show_kinds(
    source_type: HyperlinkSourceType,
    arts: Seq<LatestArtifact>,
) -> Seq<HyperlinkArtifactKind> {
    seq![
        required_source_kind(source_type, arts),
        HyperlinkArtifactKind::OgMeta,
        HyperlinkArtifactKind::ReadableText,
        HyperlinkArtifactKind::ReadableMeta,
    ] + required_screenshot_kinds(source_type, arts)
}

pub fn required_show_artifact_kinds(
    source_type: &HyperlinkSourceType,
    latest_artifacts: &[LatestArtifact],
) -> (r: Vec<HyperlinkArtifactKind>)
    ensures
        r@ == required_show_kinds(*source_type, latest_artifacts@),
{
    let mut required = vec![
        required_source_artifact_kind(source_type, latest_artifacts),
        HyperlinkArtifactKind::OgMeta,
        HyperlinkArtifactKind::ReadableText,
        HyperlinkArtifactKind::ReadableMeta,
    ];
    let shots = required_screenshot_artifact_kinds(source_type, latest_artifacts);
    let mut i: usize = 0;
    let ghost head = required@;
    while i < shots.len()
        invariant
            i <= shots.len(),
            required@ == head + shots@.take(i as int),
        decreases shots.len() - i,
    {
        required.push(shots[i]);
        i += 1;
        assert(required@ =~= head + shots@.take(i as int));
    }
    assert(shots@.take(i as int) =~= shots@);
    required
}

/// The kinds of `ks` for which `arts` holds an artifact (`keep`), or for
/// which it holds none (`!keep`), in order.
pub open spec fn filter_kinds(ks: Seq<HyperlinkArtifactKind>, arts: Seq<LatestArtifact>, keep: bool) -> Seq<
    HyperlinkArtifactKind,
>
    decreases ks.len(),
{
    if ks.len() == 0 {
        Seq::empty()
    } else {
        let rest = filter_kinds(ks.drop_last(), arts, keep);
        if has_kind(arts, ks.last()) == keep {
            rest.push(ks.last())
        } else {
            rest
        }
    }
}

fn filter_kinds_exec(ks: &Vec<HyperlinkArtifactKind>, arts: &[LatestArtifact], keep: bool) -> (r:
    Vec<HyperlinkArtifactKind>)
    ensures
        r@ == filter_kinds(ks@, arts@, keep),
{
    let mut r: Vec<HyperlinkArtifactKind> = Vec::new();
    let mut i: usize = 0;
    while i < ks.len()
        invariant
            i <= ks.len(),
            r@ == filter_kinds(ks@.take(i as int), arts@, keep),
        decreases ks.len() - i,
    {
        assert(ks@.take(i + 1).drop_last() =~= ks@.take(i as int));
        if contains_kind(arts, ks[i]) == keep {
            r.push(ks[i]);
        }
        i += 1;
    }
    assert(ks@.take(i as int) =~= ks@);
    r
}

/// The listed kinds that a hyperlink has, in listing order.
pub fn present_artifact_kinds(latest_artifacts: &[LatestArtifact]) -> (r: Vec<
    HyperlinkArtifactKind,
>)
    ensures
        r@ == filter_kinds(show_kinds(), latest_artifacts@, true),
{
    filter_kinds_exec(&show_artifact_kinds(), latest_artifacts, true)
}

/// The required kinds that a hyperlink lacks.
pub fn missing_artifact_kinds(
    source_type: &HyperlinkSourceType,
    latest_artifacts: &[LatestArtifact],
) -> (r: Vec<HyperlinkArtifactKind>)
    ensures
        r@ == filter_kinds(required_show_kinds(*source_type, latest_artifacts@), latest_artifacts@, false),
{
    filter_kinds_exec(
        &required_show_artifact_kinds(source_type, latest_artifacts),
        latest_artifacts,
        false,
    )
}

/// The inline path of kind `k` of hyperlink `id` when it is stored.
pub fn stored_inline_path(id: i32, latest_artifacts: &[LatestArtifact], k: HyperlinkArtifactKind) -> (r:
    Option<String>)
    ensures
        opt_string(r) == (if has_kind(latest_artifacts@, k) {
            Some(artifact_path_spec(id as int, k, "/inline"@))
        } else {
            None
        }),
{
    if contains_kind(latest_artifacts, k) {
        Some(artifact_inline_path(id, &k))
    } else {
        None
    }
}

/// The PDF preview path of hyperlink `id` when its PDF source is stored.
pub fn pdf_preview_path(id: i32, latest_artifacts: &[LatestArtifact]) -> (r: Option<String>)
    ensures
        opt_string(r) == (if has_kind(latest_artifacts@, HyperlinkArtifactKind::PdfSource) {
            Some(artifact_path_spec(id as int, HyperlinkArtifactKind::PdfSource, "/preview"@))
        } else {
            None
        }),
{
    if contains_kind(latest_artifacts, HyperlinkArtifactKind::PdfSource) {
        Some(artifact_pdf_preview_path(id))
    } else {
        None
    }
}

pub open spec fn opt_string(o: Option<String>) -> Option<Seq<char>> {
    match o {
        Some(s) => Some(s@),
        None => None,
    }
}

/// The inline thumbnail (`k`) of hyperlink `id` on another hyperlink's
/// page: the page's own artifacts for its own link, otherwise the
/// thumbnails found for discovered links.
pub fn thumbnail_path_for(
    page_id: i32,
    latest_artifacts: &[LatestArtifact],
    discovered_with_thumbnail: &Vec<i32>,
    hyperlink_id: i32,
    k: HyperlinkArtifactKind,
) -> (r: Option<String>)
    ensures
        opt_string(r) == (if hyperlink_id == page_id && has_kind(latest_artifacts@, k) {
            Some(artifact_path_spec(page_id as int, k, "/inline"@))
        } else if discovered_with_thumbnail@.contains(hyperlink_id) {
            Some(artifact_path_spec(hyperlink_id as int, k, "/inline"@))
        } else {
            None
        }),
{
    if hyperlink_id == page_id && contains_kind(latest_artifacts, k) {
        return Some(artifact_inline_path(page_id, &k));
    }
    let mut i: usize = 0;
    while i < discovered_with_thumbnail.len()
        invariant
            i <= discovered_with_thumbnail.len(),
            forall|j: int| 0 <= j < i ==> discovered_with_thumbnail@[j] != hyperlink_id,
        decreases discovered_with_thumbnail.len() - i,
    {
        if discovered_with_thumbnail[i] == hyperlink_id {
            assert(discovered_with_thumbnail@[i as int] == hyperlink_id);
            return Some(artifact_inline_path(hyperlink_id, &k));
        }
        i += 1;
    }
    None
}

// ---------------------------------------------------------------------------
// Laws
// ---------------------------------------------------------------------------

/// The first listed kind with a given slug is the one at index `i` when
/// none before it has that slug.
proof fn lemma_first_with_slug_at(ks: Seq<HyperlinkArtifactKind>, v: Seq<char>, i: int)
    requires
        0 <= i < ks.len(),
        slug_of(ks[i]) == v,
        forall|j: int| 0 <= j < i ==> slug_of(#[trigger] ks[j]) != v,
    ensures
        first_with_slug(ks, v) == Some(ks[i]),
    decreases i,
{
    if i > 0 {
        assert forall|j: int| 0 <= j < i - 1 implies slug_of(#[trigger] ks.drop_first()[j]) != v by {
            assert(ks.drop_first()[j] == ks[j + 1]);
        }
        lemma_first_with_slug_at(ks.drop_first(), v, i - 1);
    }
}

/// Every kind a hyperlink page lists is found again from its slug, so the
/// artifact paths built for a listed kind lead back to that kind.
pub proof fn law_shown_kind_slug_round_trip(k: HyperlinkArtifactKind)
    requires
        show_kinds().contains(k),
    ensures
        first_with_slug(show_kinds(), slug_of(k)) == Some(k),
{
    reveal_strlit("snapshot_warc");
    reveal_strlit("pdf_source");
    reveal_strlit("paperless_metadata");
    reveal_strlit("snapshot_error");
    reveal_strlit("og_meta");
    reveal_strlit("og_image");
    reveal_strlit("og_error");
    reveal_strlit("screenshot_webp");
    reveal_strlit("screenshot_thumb_webp");
    reveal_strlit("screenshot_dark_webp");
    reveal_strlit("screenshot_thumb_dark_webp");
    reveal_strlit("screenshot_error");
    reveal_strlit("readable_text");
    reveal_strlit("readable_meta");
    reveal_strlit("readable_error");
    let ks = show_kinds();
    let v = slug_of(k);
    let w = choose|i: int| 0 <= i < ks.len() && ks[i] == k;
    match k {
            HyperlinkArtifactKind::SnapshotWarc => {

                lemma_first_with_slug_at(ks, v, 0);
            },
            HyperlinkArtifactKind::PdfSource => {

                assert(ks[0] == HyperlinkArtifactKind::SnapshotWarc && slug_of(ks[0]).len() == 13 && v.len() == 10);
                assert(slug_of(ks[0]) != v);
                lemma_first_with_slug_at(ks, v, 1);
            },
            HyperlinkArtifactKind::PaperlessMetadata => {

                assert(ks[0] == HyperlinkArtifactKind::SnapshotWarc && slug_of(ks[0]).len() == 13 && v.len() == 18);
                assert(slug_of(ks[0]) != v);
                assert(ks[1] == HyperlinkArtifactKind::PdfSource && slug_of(ks[1]).len() == 10 && v.len() == 18);
                assert(slug_of(ks[1]) != v);
                lemma_first_with_slug_at(ks, v, 2);
            },
            HyperlinkArtifactKind::SnapshotError => {

                assert(ks[0] == HyperlinkArtifactKind::SnapshotWarc && slug_of(ks[0]).len() == 13 && v.len() == 14);
                assert(slug_of(ks[0]) != v);
                assert(ks[1] == HyperlinkArtifactKind::PdfSource && slug_of(ks[1]).len() == 10 && v.len() == 14);
                assert(slug_of(ks[1]) != v);
                assert(ks[2] == HyperlinkArtifactKind::PaperlessMetadata && slug_of(ks[2]).len() == 18 && v.len() == 14);
                assert(slug_of(ks[2]) != v);
                lemma_first_with_slug_at(ks, v, 3);
            },
            HyperlinkArtifactKind::OgMeta => {

                assert(ks[0] == HyperlinkArtifactKind::SnapshotWarc && slug_of(ks[0]).len() == 13 && v.len() == 7);
                assert(slug_of(ks[0]) != v);
                assert(ks[1] == HyperlinkArtifactKind::PdfSource && slug_of(ks[1]).len() == 10 && v.len() == 7);
                assert(slug_of(ks[1]) != v);
                assert(ks[2] == HyperlinkArtifactKind::PaperlessMetadata && slug_of(ks[2]).len() == 18 && v.len() == 7);
                assert(slug_of(ks[2]) != v);
                assert(ks[3] == HyperlinkArtifactKind::SnapshotError && slug_of(ks[3]).len() == 14 && v.len() == 7);
                assert(slug_of(ks[3]) != v);
                lemma_first_with_slug_at(ks, v, 4);
            },
            HyperlinkArtifactKind::OgImage => {

                assert(ks[0] == HyperlinkArtifactKind::SnapshotWarc && slug_of(ks[0]).len() == 13 && v.len() == 8);
                assert(slug_of(ks[0]) != v);
                assert(ks[1] == HyperlinkArtifactKind::PdfSource && slug_of(ks[1]).len() == 10 && v.len() == 8);
                assert(slug_of(ks[1]) != v);
                assert(ks[2] == HyperlinkArtifactKind::PaperlessMetadata && slug_of(ks[2]).len() == 18 && v.len() == 8);
                assert(slug_of(ks[2]) != v);
                assert(ks[3] == HyperlinkArtifactKind::SnapshotError && slug_of(ks[3]).len() == 14 && v.len() == 8);
                assert(slug_of(ks[3]) != v);
                assert(ks[4] == HyperlinkArtifactKind::OgMeta && slug_of(ks[4]).len() == 7 && v.len() == 8);
                assert(slug_of(ks[4]) != v);
                lemma_first_with_slug_at(ks, v, 5);
            },
            HyperlinkArtifactKind::OgError => {
                assert(slug_of(HyperlinkArtifactKind::OgImage)[3] != slug_of(HyperlinkArtifactKind::OgError)[3]);
                assert(ks[0] == HyperlinkArtifactKind::SnapshotWarc && slug_of(ks[0]).len() == 13 && v.len() == 8);
                assert(slug_of(ks[0]) != v);
                assert(ks[1] == HyperlinkArtifactKind::PdfSource && slug_of(ks[1]).len() == 10 && v.len() == 8);
                assert(slug_of(ks[1]) != v);
                assert(ks[2] == HyperlinkArtifactKind::PaperlessMetadata && slug_of(ks[2]).len() == 18 && v.len() == 8);
                assert(slug_of(ks[2]) != v);
                assert(ks[3] == HyperlinkArtifactKind::SnapshotError && slug_of(ks[3]).len() == 14 && v.len() == 8);
                assert(slug_of(ks[3]) != v);
                assert(ks[4] == HyperlinkArtifactKind::OgMeta && slug_of(ks[4]).len() == 7 && v.len() == 8);
                assert(slug_of(ks[4]) != v);
                assert(ks[5] == HyperlinkArtifactKind::OgImage && slug_of(ks[5])[3] != v[3]);
                assert(slug_of(ks[5]) != v);
                lemma_first_with_slug_at(ks, v, 6);
            },
            HyperlinkArtifactKind::ScreenshotWebp => {

                assert(ks[0] == HyperlinkArtifactKind::SnapshotWarc && slug_of(ks[0]).len() == 13 && v.len() == 15);
                assert(slug_of(ks[0]) != v);
                assert(ks[1] == HyperlinkArtifactKind::PdfSource && slug_of(ks[1]).len() == 10 && v.len() == 15);
                assert(slug_of(ks[1]) != v);
                assert(ks[2] == HyperlinkArtifactKind::PaperlessMetadata && slug_of(ks[2]).len() == 18 && v.len() == 15);
                assert(slug_of(ks[2]) != v);
                assert(ks[3] == HyperlinkArtifactKind::SnapshotError && slug_of(ks[3]).len() == 14 && v.len() == 15);
                assert(slug_of(ks[3]) != v);
                assert(ks[4] == HyperlinkArtifactKind::OgMeta && slug_of(ks[4]).len() == 7 && v.len() == 15);
                assert(slug_of(ks[4]) != v);
                assert(ks[5] == HyperlinkArtifactKind::OgImage && slug_of(ks[5]).len() == 8 && v.len() == 15);
                assert(slug_of(ks[5]) != v);
                assert(ks[6] == HyperlinkArtifactKind::OgError && slug_of(ks[6]).len() == 8 && v.len() == 15);
                assert(slug_of(ks[6]) != v);
                lemma_first_with_slug_at(ks, v, 7);
            },
            HyperlinkArtifactKind::ScreenshotThumbWebp => {

                assert(ks[0] == HyperlinkArtifactKind::SnapshotWarc && slug_of(ks[0]).len() == 13 && v.len() == 21);
                assert(slug_of(ks[0]) != v);
                assert(ks[1] == HyperlinkArtifactKind::PdfSource && slug_of(ks[1]).len() == 10 && v.len() == 21);
                assert(slug_of(ks[1]) != v);
                assert(ks[2] == HyperlinkArtifactKind::PaperlessMetadata && slug_of(ks[2]).len() == 18 && v.len() == 21);
                assert(slug_of(ks[2]) != v);
                assert(ks[3] == HyperlinkArtifactKind::SnapshotError && slug_of(ks[3]).len() == 14 && v.len() == 21);
                assert(slug_of(ks[3]) != v);
                assert(ks[4] == HyperlinkArtifactKind::OgMeta && slug_of(ks[4]).len() == 7 && v.len() == 21);
                assert(slug_of(ks[4]) != v);
                assert(ks[5] == HyperlinkArtifactKind::OgImage && slug_of(ks[5]).len() == 8 && v.len() == 21);
                assert(slug_of(ks[5]) != v);
                assert(ks[6] == HyperlinkArtifactKind::OgError && slug_of(ks[6]).len() == 8 && v.len() == 21);
                assert(slug_of(ks[6]) != v);
                assert(ks[7] == HyperlinkArtifactKind::ScreenshotWebp && slug_of(ks[7]).len() == 15 && v.len() == 21);
                assert(slug_of(ks[7]) != v);
                lemma_first_with_slug_at(ks, v, 8);
            },
            HyperlinkArtifactKind::ScreenshotDarkWebp => {

                assert(ks[0] == HyperlinkArtifactKind::SnapshotWarc && slug_of(ks[0]).len() == 13 && v.len() == 20);
                assert(slug_of(ks[0]) != v);
                assert(ks[1] == HyperlinkArtifactKind::PdfSource && slug_of(ks[1]).len() == 10 && v.len() == 20);
                assert(slug_of(ks[1]) != v);
                assert(ks[2] == HyperlinkArtifactKind::PaperlessMetadata && slug_of(ks[2]).len() == 18 && v.len() == 20);
                assert(slug_of(ks[2]) != v);
                assert(ks[3] == HyperlinkArtifactKind::SnapshotError && slug_of(ks[3]).len() == 14 && v.len() == 20);
                assert(slug_of(ks[3]) != v);
                assert(ks[4] == HyperlinkArtifactKind::OgMeta && slug_of(ks[4]).len() == 7 && v.len() == 20);
                assert(slug_of(ks[4]) != v);
                assert(ks[5] == HyperlinkArtifactKind::OgImage && slug_of(ks[5]).len() == 8 && v.len() == 20);
                assert(slug_of(ks[5]) != v);
                assert(ks[6] == HyperlinkArtifactKind::OgError && slug_of(ks[6]).len() == 8 && v.len() == 20);
                assert(slug_of(ks[6]) != v);
                assert(ks[7] == HyperlinkArtifactKind::ScreenshotWebp && slug_of(ks[7]).len() == 15 && v.len() == 20);
                assert(slug_of(ks[7]) != v);
                assert(ks[8] == HyperlinkArtifactKind::ScreenshotThumbWebp && slug_of(ks[8]).len() == 21 && v.len() == 20);
                assert(slug_of(ks[8]) != v);
                lemma_first_with_slug_at(ks, v, 9);
            },
            HyperlinkArtifactKind::ScreenshotThumbDarkWebp => {

                assert(ks[0] == HyperlinkArtifactKind::SnapshotWarc && slug_of(ks[0]).len() == 13 && v.len() == 26);
                assert(slug_of(ks[0]) != v);
                assert(ks[1] == HyperlinkArtifactKind::PdfSource && slug_of(ks[1]).len() == 10 && v.len() == 26);
                assert(slug_of(ks[1]) != v);
                assert(ks[2] == HyperlinkArtifactKind::PaperlessMetadata && slug_of(ks[2]).len() == 18 && v.len() == 26);
                assert(slug_of(ks[2]) != v);
                assert(ks[3] == HyperlinkArtifactKind::SnapshotError && slug_of(ks[3]).len() == 14 && v.len() == 26);
                assert(slug_of(ks[3]) != v);
                assert(ks[4] == HyperlinkArtifactKind::OgMeta && slug_of(ks[4]).len() == 7 && v.len() == 26);
                assert(slug_of(ks[4]) != v);
                assert(ks[5] == HyperlinkArtifactKind::OgImage && slug_of(ks[5]).len() == 8 && v.len() == 26);
                assert(slug_of(ks[5]) != v);
                assert(ks[6] == HyperlinkArtifactKind::OgError && slug_of(ks[6]).len() == 8 && v.len() == 26);
                assert(slug_of(ks[6]) != v);
                assert(ks[7] == HyperlinkArtifactKind::ScreenshotWebp && slug_of(ks[7]).len() == 15 && v.len() == 26);
                assert(slug_of(ks[7]) != v);
                assert(ks[8] == HyperlinkArtifactKind::ScreenshotThumbWebp && slug_of(ks[8]).len() == 21 && v.len() == 26);
                assert(slug_of(ks[8]) != v);
                assert(ks[9] == HyperlinkArtifactKind::ScreenshotDarkWebp && slug_of(ks[9]).len() == 20 && v.len() == 26);
                assert(slug_of(ks[9]) != v);
                lemma_first_with_slug_at(ks, v, 10);
            },
            HyperlinkArtifactKind::ScreenshotError => {

                assert(ks[0] == HyperlinkArtifactKind::SnapshotWarc && slug_of(ks[0]).len() == 13 && v.len() == 16);
                assert(slug_of(ks[0]) != v);
                assert(ks[1] == HyperlinkArtifactKind::PdfSource && slug_of(ks[1]).len() == 10 && v.len() == 16);
                assert(slug_of(ks[1]) != v);
                assert(ks[2] == HyperlinkArtifactKind::PaperlessMetadata && slug_of(ks[2]).len() == 18 && v.len() == 16);
                assert(slug_of(ks[2]) != v);
                assert(ks[3] == HyperlinkArtifactKind::SnapshotError && slug_of(ks[3]).len() == 14 && v.len() == 16);
                assert(slug_of(ks[3]) != v);
                assert(ks[4] == HyperlinkArtifactKind::OgMeta && slug_of(ks[4]).len() == 7 && v.len() == 16);
                assert(slug_of(ks[4]) != v);
                assert(ks[5] == HyperlinkArtifactKind::OgImage && slug_of(ks[5]).len() == 8 && v.len() == 16);
                assert(slug_of(ks[5]) != v);
                assert(ks[6] == HyperlinkArtifactKind::OgError && slug_of(ks[6]).len() == 8 && v.len() == 16);
                assert(slug_of(ks[6]) != v);
                assert(ks[7] == HyperlinkArtifactKind::ScreenshotWebp && slug_of(ks[7]).len() == 15 && v.len() == 16);
                assert(slug_of(ks[7]) != v);
                assert(ks[8] == HyperlinkArtifactKind::ScreenshotThumbWebp && slug_of(ks[8]).len() == 21 && v.len() == 16);
                assert(slug_of(ks[8]) != v);
                assert(ks[9] == HyperlinkArtifactKind::ScreenshotDarkWebp && slug_of(ks[9]).len() == 20 && v.len() == 16);
                assert(slug_of(ks[9]) != v);
                assert(ks[10] == HyperlinkArtifactKind::ScreenshotThumbDarkWebp && slug_of(ks[10]).len() == 26 && v.len() == 16);
                assert(slug_of(ks[10]) != v);
                lemma_first_with_slug_at(ks, v, 11);
            },
            HyperlinkArtifactKind::ReadableText => {
                assert(slug_of(HyperlinkArtifactKind::SnapshotWarc)[0] != slug_of(HyperlinkArtifactKind::ReadableText)[0]);
                assert(ks[0] == HyperlinkArtifactKind::SnapshotWarc && slug_of(ks[0])[0] != v[0]);
                assert(slug_of(ks[0]) != v);
                assert(ks[1] == HyperlinkArtifactKind::PdfSource && slug_of(ks[1]).len() == 10 && v.len() == 13);
                assert(slug_of(ks[1]) != v);
                assert(ks[2] == HyperlinkArtifactKind::PaperlessMetadata && slug_of(ks[2]).len() == 18 && v.len() == 13);
                assert(slug_of(ks[2]) != v);
                assert(ks[3] == HyperlinkArtifactKind::SnapshotError && slug_of(ks[3]).len() == 14 && v.len() == 13);
                assert(slug_of(ks[3]) != v);
                assert(ks[4] == HyperlinkArtifactKind::OgMeta && slug_of(ks[4]).len() == 7 && v.len() == 13);
                assert(slug_of(ks[4]) != v);
                assert(ks[5] == HyperlinkArtifactKind::OgImage && slug_of(ks[5]).len() == 8 && v.len() == 13);
                assert(slug_of(ks[5]) != v);
                assert(ks[6] == HyperlinkArtifactKind::OgError && slug_of(ks[6]).len() == 8 && v.len() == 13);
                assert(slug_of(ks[6]) != v);
                assert(ks[7] == HyperlinkArtifactKind::ScreenshotWebp && slug_of(ks[7]).len() == 15 && v.len() == 13);
                assert(slug_of(ks[7]) != v);
                assert(ks[8] == HyperlinkArtifactKind::ScreenshotThumbWebp && slug_of(ks[8]).len() == 21 && v.len() == 13);
                assert(slug_of(ks[8]) != v);
                assert(ks[9] == HyperlinkArtifactKind::ScreenshotDarkWebp && slug_of(ks[9]).len() == 20 && v.len() == 13);
                assert(slug_of(ks[9]) != v);
                assert(ks[10] == HyperlinkArtifactKind::ScreenshotThumbDarkWebp && slug_of(ks[10]).len() == 26 && v.len() == 13);
                assert(slug_of(ks[10]) != v);
                assert(ks[11] == HyperlinkArtifactKind::ScreenshotError && slug_of(ks[11]).len() == 16 && v.len() == 13);
                assert(slug_of(ks[11]) != v);
                lemma_first_with_slug_at(ks, v, 12);
            },
            HyperlinkArtifactKind::ReadableMeta => {
                assert(slug_of(HyperlinkArtifactKind::SnapshotWarc)[0] != slug_of(HyperlinkArtifactKind::ReadableMeta)[0]);
                assert(slug_of(HyperlinkArtifactKind::ReadableText)[9] != slug_of(HyperlinkArtifactKind::ReadableMeta)[9]);
                assert(ks[0] == HyperlinkArtifactKind::SnapshotWarc && slug_of(ks[0])[0] != v[0]);
                assert(slug_of(ks[0]) != v);
                assert(ks[1] == HyperlinkArtifactKind::PdfSource && slug_of(ks[1]).len() == 10 && v.len() == 13);
                assert(slug_of(ks[1]) != v);
                assert(ks[2] == HyperlinkArtifactKind::PaperlessMetadata && slug_of(ks[2]).len() == 18 && v.len() == 13);
                assert(slug_of(ks[2]) != v);
                assert(ks[3] == HyperlinkArtifactKind::SnapshotError && slug_of(ks[3]).len() == 14 && v.len() == 13);
                assert(slug_of(ks[3]) != v);
                assert(ks[4] == HyperlinkArtifactKind::OgMeta && slug_of(ks[4]).len() == 7 && v.len() == 13);
                assert(slug_of(ks[4]) != v);
                assert(ks[5] == HyperlinkArtifactKind::OgImage && slug_of(ks[5]).len() == 8 && v.len() == 13);
                assert(slug_of(ks[5]) != v);
                assert(ks[6] == HyperlinkArtifactKind::OgError && slug_of(ks[6]).len() == 8 && v.len() == 13);
                assert(slug_of(ks[6]) != v);
                assert(ks[7] == HyperlinkArtifactKind::ScreenshotWebp && slug_of(ks[7]).len() == 15 && v.len() == 13);
                assert(slug_of(ks[7]) != v);
                assert(ks[8] == HyperlinkArtifactKind::ScreenshotThumbWebp && slug_of(ks[8]).len() == 21 && v.len() == 13);
                assert(slug_of(ks[8]) != v);
                assert(ks[9] == HyperlinkArtifactKind::ScreenshotDarkWebp && slug_of(ks[9]).len() == 20 && v.len() == 13);
                assert(slug_of(ks[9]) != v);
                assert(ks[10] == HyperlinkArtifactKind::ScreenshotThumbDarkWebp && slug_of(ks[10]).len() == 26 && v.len() == 13);
                assert(slug_of(ks[10]) != v);
                assert(ks[11] == HyperlinkArtifactKind::ScreenshotError && slug_of(ks[11]).len() == 16 && v.len() == 13);
                assert(slug_of(ks[11]) != v);
                assert(ks[12] == HyperlinkArtifactKind::ReadableText && slug_of(ks[12])[9] != v[9]);
                assert(slug_of(ks[12]) != v);
                lemma_first_with_slug_at(ks, v, 13);
            },
            HyperlinkArtifactKind::ReadableError => {
                assert(slug_of(HyperlinkArtifactKind::SnapshotError)[0] != slug_of(HyperlinkArtifactKind::ReadableError)[0]);
                assert(ks[0] == HyperlinkArtifactKind::SnapshotWarc && slug_of(ks[0]).len() == 13 && v.len() == 14);
                assert(slug_of(ks[0]) != v);
                assert(ks[1] == HyperlinkArtifactKind::PdfSource && slug_of(ks[1]).len() == 10 && v.len() == 14);
                assert(slug_of(ks[1]) != v);
                assert(ks[2] == HyperlinkArtifactKind::PaperlessMetadata && slug_of(ks[2]).len() == 18 && v.len() == 14);
                assert(slug_of(ks[2]) != v);
                assert(ks[3] == HyperlinkArtifactKind::SnapshotError && slug_of(ks[3])[0] != v[0]);
                assert(slug_of(ks[3]) != v);
                assert(ks[4] == HyperlinkArtifactKind::OgMeta && slug_of(ks[4]).len() == 7 && v.len() == 14);
                assert(slug_of(ks[4]) != v);
                assert(ks[5] == HyperlinkArtifactKind::OgImage && slug_of(ks[5]).len() == 8 && v.len() == 14);
                assert(slug_of(ks[5]) != v);
                assert(ks[6] == HyperlinkArtifactKind::OgError && slug_of(ks[6]).len() == 8 && v.len() == 14);
                assert(slug_of(ks[6]) != v);
                assert(ks[7] == HyperlinkArtifactKind::ScreenshotWebp && slug_of(ks[7]).len() == 15 && v.len() == 14);
                assert(slug_of(ks[7]) != v);
                assert(ks[8] == HyperlinkArtifactKind::ScreenshotThumbWebp && slug_of(ks[8]).len() == 21 && v.len() == 14);
                assert(slug_of(ks[8]) != v);
                assert(ks[9] == HyperlinkArtifactKind::ScreenshotDarkWebp && slug_of(ks[9]).len() == 20 && v.len() == 14);
                assert(slug_of(ks[9]) != v);
                assert(ks[10] == HyperlinkArtifactKind::ScreenshotThumbDarkWebp && slug_of(ks[10]).len() == 26 && v.len() == 14);
                assert(slug_of(ks[10]) != v);
                assert(ks[11] == HyperlinkArtifactKind::ScreenshotError && slug_of(ks[11]).len() == 16 && v.len() == 14);
                assert(slug_of(ks[11]) != v);
                assert(ks[12] == HyperlinkArtifactKind::ReadableText && slug_of(ks[12]).len() == 13 && v.len() == 14);
                assert(slug_of(ks[12]) != v);
                assert(ks[13] == HyperlinkArtifactKind::ReadableMeta && slug_of(ks[13]).len() == 13 && v.len() == 14);
                assert(slug_of(ks[13]) != v);
                lemma_first_with_slug_at(ks, v, 14);
            },
            _ => {
                assert(ks[w] != k);
            },
    }
}

} // verus!
