//! `application/x-www-form-urlencoded` text, read and written by
//! `serde_urlencoded` as sequences of name/value pairs.
use vstd::prelude::*;

verus! {

pub open spec fn pair_view(p: (String, String)) -> (Seq<char>, Seq<char>) {
    (p.0@, p.1@)
}

pub open spec fn pairs_view(v: Seq<(String, String)>) -> Seq<(Seq<char>, Seq<char>)> {
    v.map_values(|p: (String, String)| pair_view(p))
}

pub open spec fn opt_pairs_view(o: Option<Vec<(String, String)>>) -> Option<
    Seq<(Seq<char>, Seq<char>)>,
> {
    match o {
        Some(v) => Some(pairs_view(v@)),
        None => None,
    }
}

pub open spec fn opt_string_view(o: Option<String>) -> Option<Seq<char>> {
    match o {
        Some(s) => Some(s@),
        None => None,
    }
}

/// What `serde_urlencoded::from_bytes::<Vec<(String, String)>>` reads from
/// form-encoded bytes (`None` for an error).
pub uninterp spec fn form_pairs(raw: Seq<u8>) -> Option<Seq<(Seq<char>, Seq<char>)>>;

/// What `serde_urlencoded::to_string` writes for a sequence of name/value
/// pairs (`None` for an error).
pub uninterp spec fn form_encoded(pairs: Seq<(Seq<char>, Seq<char>)>) -> Option<Seq<char>>;

/// Decodes form-encoded bytes into their name/value pairs, in order, with
/// `serde_urlencoded::from_bytes`. The contract names the result: it is
/// fixed by the bytes alone; which pairs come out is not stated here.
#[verifier::external_body]
pub(crate) fn decode_form_pairs(raw: &[u8]) -> (r: Option<Vec<(String, String)>>)
    ensures
        opt_pairs_view(r) == form_pairs(raw@),
{
    serde_urlencoded::from_bytes::<Vec<(String, String)>>(raw).ok()
}

/// The characters of form-encoded text: those `form_urlencoded` leaves as
/// they are (ASCII letters and digits, `*`, `-`, `.`, `_`), the `%` and `+`
/// of its escapes, and the `=` and `&` between names and values.
pub open spec fn is_form_text_char(c: char) -> bool {
    ('a' <= c && c <= 'z') || ('A' <= c && c <= 'Z') || ('0' <= c && c <= '9') || c == '*' || c
        == '-' || c == '.' || c == '_' || c == '%' || c == '+' || c == '=' || c == '&'
}

/// Encodes name/value pairs with `serde_urlencoded::to_string`. The
/// contract names the result, fixed by the pairs alone, and states three
/// things its source shows: a sequence of string pairs always serializes,
/// `serde_urlencoded::from_str` reads the same pairs back from it, and it
/// holds only form-text characters (each name and value is
/// percent-encoded, a space written `+`, pairs joined by `&`). The text
/// itself is not stated here.
#[verifier::external_body]
pub(crate) fn encode_form_pairs(pairs: &Vec<(String, String)>) -> (r: Option<String>)
    ensures
        opt_string_view(r) == form_encoded(pairs_view(pairs@)),
        r is Some,
        r matches Some(t) ==> form_pairs_of_text(t@) == Some(pairs_view(pairs@)),
        r matches Some(t) ==> forall|i: int| 0 <= i < t@.len() ==> is_form_text_char(#[trigger] t@[i]),
{
    serde_urlencoded::to_string(pairs).ok()
}

/// What `serde_urlencoded::from_str::<Vec<(String, String)>>` reads from
/// form-encoded text (`None` for an error).
pub uninterp spec fn form_pairs_of_text(raw: Seq<char>) -> Option<Seq<(Seq<char>, Seq<char>)>>;

/// Decodes form-encoded text into its name/value pairs, in order, with
/// `serde_urlencoded::from_str`. The contract names the result: it is
/// fixed by the text alone; which pairs come out is not stated here.
#[verifier::external_body]
pub(crate) fn decode_form_text(raw: &str) -> (r: Option<Vec<(String, String)>>)
    ensures
        opt_pairs_view(r) == form_pairs_of_text(raw@),
{
    serde_urlencoded::from_str::<Vec<(String, String)>>(raw).ok()
}

} // verus!
