//! What the server reads from a request beyond its route: the public base
//! URL behind a proxy, and what of a request its log line shows.
use vstd::prelude::*;

use crate::artifacts::{artifact_inline_path, artifact_path_spec, HyperlinkArtifactKind};
use crate::forms::{decode_form_text, form_pairs_of_text, opt_string_view, pairs_view};
use crate::text::{
    append_all, chars_of, eq_lit, join, join_exec, lower_ascii, matches_at_exec, split_once,
    split_once_exec, starts_with, string_from_chars, to_ascii_lowercase, trim, trim_char_end,
    trim_char_end_exec, trim_exec, views,
};

verus! {

pub open spec fn opt_str_view(o: Option<&str>) -> Option<Seq<char>> {
    match o {
        Some(s) => Some(s@),
        None => None,
    }
}

// ---------------------------------------------------------------------------
// Base URL
// ---------------------------------------------------------------------------

/// The first of the comma-separated values of a header, trimmed; none when
/// the header is absent or that value is blank.
pub open spec fn first_value_spec(raw: Option<Seq<char>>) -> Option<Seq<char>> {
    match raw {
        None => None,
        Some(r) => {
            let first = trim(
                match split_once(r, ',') {
                    Some((a, _)) => a,
                    None => r,
                },
            );
            if first.len() == 0 {
                None
            } else {
                Some(first)
            }
        },
    }
}

/// The first value of a header, given its text (none when absent).
pub fn first_header_value(raw: Option<&str>) -> (r: Option<String>)
    ensures
        opt_string_view(r) == first_value_spec(opt_str_view(raw)),
{
    let raw = raw?;
    let chars = chars_of(raw);
    let head = match split_once_exec(&chars, ',') {
        Some((a, _)) => a,
        None => chars,
    };
    let first = trim_exec(&head);
    if first.len() == 0 {
        None
    } else {
        Some(string_from_chars(&first))
    }
}

pub open spec fn or_else(a: Option<Seq<char>>, b: Option<Seq<char>>) -> Option<Seq<char>> {
    if a is Some {
        a
    } else {
        b
    }
}

/// The URL the client reached the server under: the forwarded host (else
/// `Host`) and the forwarded protocol or scheme (else `http`) without
/// trailing colons; none without a host or with an empty protocol.
pub open spec fn base_url_spec(
    forwarded_host: Option<Seq<char>>,
    host: Option<Seq<char>>,
    forwarded_proto: Option<Seq<char>>,
    forwarded_scheme: Option<Seq<char>>,
) -> Option<Seq<char>> {
    match or_else(first_value_spec(forwarded_host), first_value_spec(host)) {
        None => None,
        Some(h) => {
            let p = trim_char_end(
                match or_else(first_value_spec(forwarded_proto), first_value_spec(forwarded_scheme)) {
                    Some(p) => p,
                    None => "http"@,
                },
                ':',
            );
            if p.len() == 0 {
                None
            } else {
                Some(p + "://"@ + trim_char_end(h, '/'))
            }
        },
    }
}

/// The base URL of a request, from its `X-Forwarded-Host`, `Host`,
/// `X-Forwarded-Proto` and `X-Forwarded-Scheme` headers.
pub fn derive_request_base_url(
    forwarded_host: Option<&str>,
    host: Option<&str>,
    forwarded_proto: Option<&str>,
    forwarded_scheme: Option<&str>,
) -> (r: Option<String>)
    ensures
        opt_string_view(r) == base_url_spec(
            opt_str_view(forwarded_host),
            opt_str_view(host),
            opt_str_view(forwarded_proto),
            opt_str_view(forwarded_scheme),
        ),
{
    let h = match first_header_value(forwarded_host) {
        Some(v) => v,
        None => first_header_value(host)?,
    };
    let p = match first_header_value(forwarded_proto) {
        Some(v) => v,
        None => match first_header_value(forwarded_scheme) {
            Some(v) => v,
            None => "http".to_string(),
        },
    };
    let p = trim_char_end_exec(&chars_of(p.as_str()), ':');
    if p.len() == 0 {
        return None;
    }
    let mut out = p;
    append_all(&mut out, &chars_of("://"));
    append_all(&mut out, &trim_char_end_exec(&chars_of(h.as_str()), '/'));
    Some(string_from_chars(&out))
}

// ---------------------------------------------------------------------------
// Request log
// ---------------------------------------------------------------------------

/// The largest body that is logged, in bytes.
pub const MAX_LOGGED_BODY_BYTES: usize = 65536;

/// A body is logged for a request that may carry one (not `GET` or
/// `HEAD`), of known length within the limit, whose type is JSON, a form
/// or text (compared without case).
pub open spec fn should_log_body_spec(
    method: Seq<char>,
    content_type: Option<Seq<char>>,
    content_length: Option<usize>,
) -> bool {
    &&& method != "GET"@ && method != "HEAD"@
    &&& content_type is Some
    &&& content_length is Some
    &&& content_length->0 <= MAX_LOGGED_BODY_BYTES
    &&& {
        let t = lower_ascii(content_type->0);
        starts_with(t, "application/json"@) || starts_with(t, "application/x-www-form-urlencoded"@)
            || starts_with(t, "text/"@)
    }
}

/// Whether the body of a request is logged.
pub fn should_log_body(method: &str, content_type: Option<&str>, content_length: Option<usize>) -> (b:
    bool)
    ensures
        b == should_log_body_spec(method@, opt_str_view(content_type), content_length),
{
    let m = chars_of(method);
    if eq_lit(&m, "GET") || eq_lit(&m, "HEAD") {
        return false;
    }
    let Some(content_type) = content_type else {
        return false;
    };
    let Some(content_length) = content_length else {
        return false;
    };
    if content_length > MAX_LOGGED_BODY_BYTES {
        return false;
    }
    let t = to_ascii_lowercase(&chars_of(content_type));
    matches_at_exec(&t, &chars_of("application/json"), 0) || matches_at_exec(
        &t,
        &chars_of("application/x-www-form-urlencoded"),
        0,
    ) || matches_at_exec(&t, &chars_of("text/"), 0)
}

/// Each pair written `name=value`.
pub open spec fn kv_texts(ps: Seq<(Seq<char>, Seq<char>)>) -> Seq<Seq<char>> {
    ps.map_values(|p: (Seq<char>, Seq<char>)| p.0 + "="@ + p.1)
}

/// The query string as the log shows it: its pairs decoded and rejoined
/// with `&`, or the raw text where it does not decode; nothing without one.
pub open spec fn summarize_query_spec(query: Option<Seq<char>>) -> Seq<char> {
    match query {
        None => Seq::empty(),
        Some(raw) => match form_pairs_of_text(raw) {
            Some(ps) => join(kv_texts(ps), "&"@),
            None => raw,
        },
    }
}

/// The query string of a request as the log shows it.
pub fn summarize_query(query: Option<&str>) -> (r: String)
    ensures
        r@ == summarize_query_spec(opt_str_view(query)),
{
    let Some(raw) = query else {
        return String::new();
    };
    let Some(pairs) = decode_form_text(raw) else {
        return raw.to_string();
    };
    let mut parts: Vec<Vec<char>> = Vec::new();
    let mut i: usize = 0;
    while i < pairs.len()
        invariant
            i <= pairs.len(),
            views(parts@) == kv_texts(pairs_view(pairs@).take(i as int)),
        decreases pairs.len() - i,
    {
        let mut kv = chars_of(pairs[i].0.as_str());
        append_all(&mut kv, &chars_of("="));
        append_all(&mut kv, &chars_of(pairs[i].1.as_str()));
        let ghost old_parts = parts@;
        parts.push(kv);
        assert(views(parts@) =~= views(old_parts).push(kv@));
        assert(pairs_view(pairs@).take(i + 1) =~= pairs_view(pairs@).take(i as int).push(
            pairs_view(pairs@)[i as int],
        ));
        i += 1;
        assert(views(parts@) =~= kv_texts(pairs_view(pairs@).take(i as int)));
    }
    assert(pairs_view(pairs@).take(i as int) =~= pairs_view(pairs@));
    let out = join_exec(&parts, &chars_of("&"));
    string_from_chars(&out)
}


// ---------------------------------------------------------------------------
// GraphQL search argument
// ---------------------------------------------------------------------------

/// The `q` argument of the `hyperlinks` query: absent, null or blank means
/// no search (the plain filtered listing); otherwise the trimmed text.
pub open spec fn search_argument_spec(q: Option<Option<Seq<char>>>) -> Option<Seq<char>> {
    match q {
        Some(Some(text)) => if trim(text).len() == 0 {
            None
        } else {
            Some(trim(text))
        },
        _ => None,
    }
}

/// Reads the `q` argument: `None` when absent, `Some(None)` when null.
pub fn search_query_argument(q: Option<Option<&str>>) -> (r: Option<String>)
    ensures
        opt_string_view(r) == search_argument_spec(
            match q {
                Some(Some(t)) => Some(Some(t@)),
                Some(None) => Some(None),
                None => None,
            },
        ),
{
    let Some(Some(text)) = q else {
        return None;
    };
    let t = trim_exec(&chars_of(text));
    if t.len() == 0 {
        None
    } else {
        Some(string_from_chars(&t))
    }
}


/// The absolute address of an artifact's inline view for the change feed:
/// the request's base URL without trailing slashes, then the inline path;
/// none without a usable base URL.
pub fn artifact_inline_url(base_url: Option<&str>, hyperlink_id: i32, kind: &HyperlinkArtifactKind) -> (r:
    Option<String>)
    ensures
        opt_string_view(r) == (match base_url {
            None => None,
            Some(b) => if trim_char_end(b@, '/').len() == 0 {
                None
            } else {
                Some(trim_char_end(b@, '/') + artifact_path_spec(hyperlink_id as int, *kind, "/inline"@))
            },
        }),
{
    let base = trim_char_end_exec(&chars_of(base_url?), '/');
    if base.len() == 0 {
        return None;
    }
    let mut out = base;
    append_all(&mut out, &chars_of(artifact_inline_path(hyperlink_id, kind).as_str()));
    Some(string_from_chars(&out))
}

} // verus!
