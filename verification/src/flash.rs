//! One-shot flash messages carried between requests in a cookie.
use vstd::prelude::*;

use crate::forms::{
    decode_form_text, encode_form_pairs, form_encoded, form_pairs_of_text, is_form_text_char,
    pairs_view,
};
use crate::text::{
    append_all, char_split_state, chars_of, eq_lit, find_from, is_ws, lemma_find_from_props,
    matches_at, split_char, split_char_exec, split_once, split_once_exec, string_from_chars,
    strip_quotes, strip_quotes_exec, trim, trim_end, trim_exec, trim_start,
};

verus! {

/// The name of the cookie that carries flash messages.
pub const FLASH_COOKIE_NAME: &'static str = "_hyperlinked_flash";

#[derive(Clone, Copy, Debug, PartialEq, Eq, Hash, Structural)]
pub enum FlashName {
    Notice,
    Alert,
}

/// The messages of a request and whether the cookie must be rewritten.
pub struct Flash {
    notice: Option<String>,
    alert: Option<String>,
    cookie_present: bool,
    dirty: bool,
}

/// What a flash holds: one optional message per name, whether the request
/// carried the cookie, and whether the messages changed since.
pub struct FlashModel {
    pub notice: Option<Seq<char>>,
    pub alert: Option<Seq<char>>,
    pub cookie_present: bool,
    pub dirty: bool,
}

pub open spec fn opt_view(o: Option<String>) -> Option<Seq<char>> {
    match o {
        Some(s) => Some(s@),
        None => None,
    }
}

impl View for Flash {
    type V = FlashModel;

    closed spec fn view(&self) -> FlashModel {
        FlashModel {
            notice: opt_view(self.notice),
            alert: opt_view(self.alert),
            cookie_present: self.cookie_present,
            dirty: self.dirty,
        }
    }
}

impl FlashModel {
    pub open spec fn message(self, named: FlashName) -> Option<Seq<char>> {
        match named {
            FlashName::Notice => self.notice,
            FlashName::Alert => self.alert,
        }
    }

    pub open spec fn is_empty(self) -> bool {
        self.notice is None && self.alert is None
    }

    /// The flash after `message` is stored under `named`.
    pub open spec fn inserted(self, named: FlashName, message: Seq<char>) -> FlashModel {
        match named {
            FlashName::Notice => FlashModel { notice: Some(message), dirty: true, ..self },
            FlashName::Alert => FlashModel { alert: Some(message), dirty: true, ..self },
        }
    }

    /// The flash after the message of `named` is taken out.
    pub open spec fn taken(self, named: FlashName) -> FlashModel {
        match named {
            FlashName::Notice => FlashModel {
                notice: None,
                dirty: self.dirty || self.notice is Some,
                ..self
            },
            FlashName::Alert => FlashModel {
                alert: None,
                dirty: self.dirty || self.alert is Some,
                ..self
            },
        }
    }
}

impl Default for Flash {
    fn default() -> (r: Flash)
        ensures
            r@.notice is None,
            r@.alert is None,
            !r@.cookie_present,
            !r@.dirty,
    {
        Flash { notice: None, alert: None, cookie_present: false, dirty: false }
    }
}

impl Flash {
    /// Stores a message under a name, replacing any before it.
    pub fn insert(&mut self, named: FlashName, message: &str)
        ensures
            final(self)@ == old(self)@.inserted(named, message@),
    {
        match named {
            FlashName::Notice => {
                self.notice = Some(message.to_string());
            },
            FlashName::Alert => {
                self.alert = Some(message.to_string());
            },
        }
        self.dirty = true;
    }

    /// Takes the message of a name out of the flash: it is shown once.
    pub fn render_flash(&mut self, named: FlashName) -> (r: Option<String>)
        ensures
            opt_view(r) == old(self)@.message(named),
            final(self)@ == old(self)@.taken(named),
    {
        let value = match named {
            FlashName::Notice => self.notice.take(),
            FlashName::Alert => self.alert.take(),
        };
        if value.is_some() {
            self.dirty = true;
        }
        value
    }

    /// The `Set-Cookie` value the response needs, if any.
    pub fn outgoing_cookie_header(&self) -> (r: Option<String>)
        ensures
            opt_view(r) == outgoing_cookie_spec(self@),
            r is None <==> (if self@.is_empty() {
                !self@.cookie_present && !self@.dirty
            } else {
                !self@.dirty && self@.cookie_present
            }),
    {
        if self.notice.is_none() && self.alert.is_none() {
            if self.cookie_present || self.dirty {
                return Some(delete_cookie_header_value());
            }
            return None;
        }
        if !self.dirty && self.cookie_present {
            return None;
        }
        match encode_cookie_payload(&self.notice, &self.alert) {
            Some(payload) => Some(set_cookie_header_value(payload.as_str())),
            None => None,
        }
    }

    /// The flash of a request, read from its `Cookie` header values (those
    /// that are valid text, in order). An unreadable payload leaves no
    /// messages and is cleared on the next response; empty messages are
    /// dropped.
    pub fn from_cookie_headers(cookie_headers: &Vec<String>) -> (r: Flash)
        ensures
            r@ == incoming_flash_spec(strs(cookie_headers@)),
    {
        let raw = match find_cookie(cookie_headers, FLASH_COOKIE_NAME) {
            Some(raw) => raw,
            None => {
                return Flash::default();
            },
        };
        match decode_cookie_payload(raw.as_str()) {
            Some((notice, alert)) => Flash {
                notice: non_empty(notice),
                alert: non_empty(alert),
                cookie_present: true,
                dirty: false,
            },
            None => Flash { notice: None, alert: None, cookie_present: true, dirty: true },
        }
    }
}

fn non_empty(o: Option<String>) -> (r: Option<String>)
    ensures
        opt_view(r) == non_empty_spec(opt_view(o)),
{
    match o {
        Some(s) => if s.as_str().is_empty() {
            None
        } else {
            Some(s)
        },
        None => None,
    }
}

pub open spec fn non_empty_spec(o: Option<Seq<char>>) -> Option<Seq<char>> {
    match o {
        Some(s) => if s.len() == 0 {
            None
        } else {
            Some(s)
        },
        None => None,
    }
}

pub open spec fn strs(v: Seq<String>) -> Seq<Seq<char>> {
    v.map_values(|s: String| s@)
}

// ---------------------------------------------------------------------------
// Cookies
// ---------------------------------------------------------------------------

/// The value of cookie `name` in one `;`-separated segment: the part after
/// the first `=`, trimmed and without surrounding quotes, when the trimmed
/// part before it is `name`.
pub open spec fn segment_cookie(seg: Seq<char>, name: Seq<char>) -> Option<Seq<char>> {
    match split_once(trim(seg), '=') {
        Some((k, v)) => if trim(k) == name {
            Some(strip_quotes(trim(v)))
        } else {
            None
        },
        None => None,
    }
}

pub open spec fn cookie_in_segments(segs: Seq<Seq<char>>, name: Seq<char>) -> Option<Seq<char>>
    decreases segs.len(),
{
    if segs.len() == 0 {
        None
    } else {
        match segment_cookie(segs[0], name) {
            Some(v) => Some(v),
            None => cookie_in_segments(segs.drop_first(), name),
        }
    }
}

/// The first value of cookie `name` among the `Cookie` header values.
pub open spec fn find_cookie_spec(headers: Seq<Seq<char>>, name: Seq<char>) -> Option<Seq<char>>
    decreases headers.len(),
{
    if headers.len() == 0 {
        None
    } else {
        match cookie_in_segments(split_char(headers[0], ';'), name) {
            Some(v) => Some(v),
            None => find_cookie_spec(headers.drop_first(), name),
        }
    }
}

fn segment_cookie_exec(seg: &Vec<char>, name: &Vec<char>) -> (r: Option<Vec<char>>)
    ensures
        match r {
            Some(v) => segment_cookie(seg@, name@) == Some(v@),
            None => segment_cookie(seg@, name@) is None,
        },
{
    match split_once_exec(&trim_exec(seg), '=') {
        Some((k, v)) => {
            if crate::text::seq_eq(&trim_exec(&k), name) {
                Some(strip_quotes_exec(&trim_exec(&v)))
            } else {
                None
            }
        },
        None => None,
    }
}

/// Finds the value of cookie `name` in the `Cookie` header values.
pub fn find_cookie(cookie_headers: &Vec<String>, name: &str) -> (r: Option<String>)
    ensures
        opt_view(r) == find_cookie_spec(strs(cookie_headers@), name@),
{
    let n = chars_of(name);
    let ghost hs = strs(cookie_headers@);
    let mut i: usize = 0;
    assert(hs.skip(0) =~= hs);
    while i < cookie_headers.len()
        invariant
            i <= cookie_headers.len(),
            hs == strs(cookie_headers@),
            n@ == name@,
            find_cookie_spec(hs, name@) == find_cookie_spec(hs.skip(i as int), name@),
        decreases cookie_headers.len() - i,
    {
        assert(hs.skip(i as int)[0] == cookie_headers@[i as int]@);
        assert(hs.skip(i as int).drop_first() =~= hs.skip(i + 1));
        let segs = split_char_exec(&chars_of(cookie_headers[i].as_str()), ';');
        let ghost sv = split_char(cookie_headers@[i as int]@, ';');
        let mut j: usize = 0;
        assert(sv.skip(0) =~= sv);
        while j < segs.len()
            invariant
                j <= segs.len(),
                i < cookie_headers.len(),
                hs == strs(cookie_headers@),
                find_cookie_spec(hs, name@) == find_cookie_spec(hs.skip(i as int), name@),
                hs.skip(i as int)[0] == cookie_headers@[i as int]@,
                sv == split_char(cookie_headers@[i as int]@, ';'),
                crate::text::views(segs@) == sv,
                n@ == name@,
                cookie_in_segments(sv, name@) == cookie_in_segments(sv.skip(j as int), name@),
            decreases segs.len() - j,
        {
            assert(sv.skip(j as int)[0] == segs@[j as int]@);
            assert(sv.skip(j as int).drop_first() =~= sv.skip(j + 1));
            if let Some(v) = segment_cookie_exec(&segs[j], &n) {
                return Some(string_from_chars(&v));
            }
            j += 1;
        }
        assert(sv.skip(j as int) =~= Seq::<Seq<char>>::empty());
        i += 1;
    }
    None
}

// ---------------------------------------------------------------------------
// The payload
// ---------------------------------------------------------------------------

/// The `notice` and `alert` fields of a payload read field by field as a
/// struct: other names are ignored, a field given twice is an error.
pub open spec fn payload_fields(ps: Seq<(Seq<char>, Seq<char>)>) -> Option<
    (Option<Seq<char>>, Option<Seq<char>>),
>
    decreases ps.len(),
{
    if ps.len() == 0 {
        Some((None, None))
    } else {
        match payload_fields(ps.drop_last()) {
            None => None,
            Some((n, a)) => {
                let (k, v) = ps.last();
                if k == "notice"@ {
                    if n is Some {
                        None
                    } else {
                        Some((Some(v), a))
                    }
                } else if k == "alert"@ {
                    if a is Some {
                        None
                    } else {
                        Some((n, Some(v)))
                    }
                } else {
                    Some((n, a))
                }
            },
        }
    }
}

pub open spec fn decoded_payload(raw: Seq<char>) -> Option<(Option<Seq<char>>, Option<Seq<char>>)> {
    match form_pairs_of_text(raw) {
        Some(ps) => payload_fields(ps),
        None => None,
    }
}

proof fn lemma_payload_error_stays(ps: Seq<(Seq<char>, Seq<char>)>, k: int)
    requires
        0 <= k <= ps.len(),
        payload_fields(ps.take(k)) is None,
    ensures
        payload_fields(ps) is None,
    decreases ps.len() - k,
{
    if k < ps.len() {
        assert(ps.take(k + 1).drop_last() =~= ps.take(k));
        lemma_payload_error_stays(ps, k + 1);
    } else {
        assert(ps.take(k) =~= ps);
    }
}

/// The `notice` and `alert` fields of decoded pairs.
pub fn payload_from_pairs(pairs: &Vec<(String, String)>) -> (r: Option<(Option<String>, Option<String>)>)
    ensures
        match r {
            Some((n, a)) => payload_fields(pairs_view(pairs@)) == Some((opt_view(n), opt_view(a))),
            None => payload_fields(pairs_view(pairs@)) is None,
        },
{
    let ghost ps = pairs_view(pairs@);
    let mut notice: Option<String> = None;
    let mut alert: Option<String> = None;
    let mut i: usize = 0;
    while i < pairs.len()
        invariant
            i <= pairs.len(),
            ps == pairs_view(pairs@),
            payload_fields(ps.take(i as int)) == Some((opt_view(notice), opt_view(alert))),
        decreases pairs.len() - i,
    {
        assert(ps.take(i + 1).drop_last() =~= ps.take(i as int));
        assert(ps.take(i + 1).last() == (pairs@[i as int].0@, pairs@[i as int].1@));
        let k = chars_of(pairs[i].0.as_str());
        if eq_lit(&k, "notice") {
            if notice.is_some() {
                proof {
                    lemma_payload_error_stays(ps, i + 1);
                }
                return None;
            }
            notice = Some(pairs[i].1.clone());
        } else if eq_lit(&k, "alert") {
            if alert.is_some() {
                proof {
                    lemma_payload_error_stays(ps, i + 1);
                }
                return None;
            }
            alert = Some(pairs[i].1.clone());
        }
        i += 1;
    }
    assert(ps.take(i as int) =~= ps);
    Some((notice, alert))
}

/// Reads the flash cookie payload.
pub fn decode_cookie_payload(raw: &str) -> (r: Option<(Option<String>, Option<String>)>)
    ensures
        match r {
            Some((n, a)) => decoded_payload(raw@) == Some((opt_view(n), opt_view(a))),
            None => decoded_payload(raw@) is None,
        },
{
    match decode_form_text(raw) {
        Some(pairs) => payload_from_pairs(&pairs),
        None => None,
    }
}

/// The pairs written for the messages: `notice` then `alert`, each only
/// when present.
pub open spec fn payload_pairs(notice: Option<Seq<char>>, alert: Option<Seq<char>>) -> Seq<
    (Seq<char>, Seq<char>),
> {
    (match notice {
        Some(n) => seq![("notice"@, n)],
        None => seq![],
    }) + (match alert {
        Some(a) => seq![("alert"@, a)],
        None => seq![],
    })
}

proof fn lemma_payload_pairs_read_back(n: Option<Seq<char>>, a: Option<Seq<char>>)
    ensures
        payload_fields(payload_pairs(n, a)) == Some((n, a)),
{
    reveal_strlit("notice");
    reveal_strlit("alert");
    let ps = payload_pairs(n, a);
    assert("alert"@ != "notice"@) by {
        assert("alert"@[0] != "notice"@[0]);
    }
    let e = Seq::<(Seq<char>, Seq<char>)>::empty();
    assert(payload_fields(e) == Some((None::<Seq<char>>, None::<Seq<char>>)));
    match (n, a) {
        (Some(x), Some(y)) => {
            assert(ps =~= seq![("notice"@, x), ("alert"@, y)]);
            assert(ps.drop_last() =~= seq![("notice"@, x)]);
            assert(ps.drop_last().drop_last() =~= e);
            assert(payload_fields(ps.drop_last()) == Some((Some(x), None::<Seq<char>>)));
        },
        (Some(x), None) => {
            assert(ps =~= seq![("notice"@, x)]);
            assert(ps.drop_last() =~= e);
        },
        (None, Some(y)) => {
            assert(ps =~= seq![("alert"@, y)]);
            assert(ps.drop_last() =~= e);
        },
        (None, None) => {
            assert(ps =~= e);
        },
    }
}

/// Writes the flash cookie payload; reading the payload back gives the
/// same messages.
pub fn encode_cookie_payload(notice: &Option<String>, alert: &Option<String>) -> (r: Option<String>)
    ensures
        opt_view(r) == form_encoded(payload_pairs(opt_view(*notice), opt_view(*alert))),
        r is Some,
        r matches Some(t) ==> decoded_payload(t@) == Some((opt_view(*notice), opt_view(*alert))),
        r matches Some(t) ==> forall|i: int| 0 <= i < t@.len() ==> is_form_text_char(#[trigger] t@[i]),
{
    proof {
        lemma_payload_pairs_read_back(opt_view(*notice), opt_view(*alert));
    }
    let mut pairs: Vec<(String, String)> = Vec::new();
    if let Some(n) = notice {
        pairs.push(("notice".to_string(), n.clone()));
    }
    if let Some(a) = alert {
        pairs.push(("alert".to_string(), a.clone()));
    }
    assert(pairs_view(pairs@) =~= payload_pairs(opt_view(*notice), opt_view(*alert)));
    encode_form_pairs(&pairs)
}

/// `_hyperlinked_flash={payload}; Max-Age=60; Path=/; HttpOnly; SameSite=Lax`.
pub open spec fn set_cookie_spec(payload: Seq<char>) -> Seq<char> {
    FLASH_COOKIE_NAME@ + "="@ + payload + "; Max-Age=60; Path=/; HttpOnly; SameSite=Lax"@
}

/// The cookie that expires the flash at once.
pub open spec fn delete_cookie_spec() -> Seq<char> {
    FLASH_COOKIE_NAME@ + "=; Max-Age=0; Path=/; HttpOnly; SameSite=Lax"@
}

pub fn set_cookie_header_value(payload: &str) -> (r: String)
    ensures
        r@ == set_cookie_spec(payload@),
{
    let mut out = chars_of(FLASH_COOKIE_NAME);
    append_all(&mut out, &chars_of("="));
    append_all(&mut out, &chars_of(payload));
    append_all(&mut out, &chars_of("; Max-Age=60; Path=/; HttpOnly; SameSite=Lax"));
    string_from_chars(&out)
}

pub fn delete_cookie_header_value() -> (r: String)
    ensures
        r@ == delete_cookie_spec(),
{
    let mut out = chars_of(FLASH_COOKIE_NAME);
    append_all(&mut out, &chars_of("=; Max-Age=0; Path=/; HttpOnly; SameSite=Lax"));
    string_from_chars(&out)
}

// ---------------------------------------------------------------------------
// Request and response
// ---------------------------------------------------------------------------

/// The flash a request carries (see [`Flash::from_cookie_headers`]).
pub open spec fn incoming_flash_spec(headers: Seq<Seq<char>>) -> FlashModel {
    match find_cookie_spec(headers, FLASH_COOKIE_NAME@) {
        None => FlashModel { notice: None, alert: None, cookie_present: false, dirty: false },
        Some(raw) => match decoded_payload(raw) {
            Some((n, a)) => FlashModel {
                notice: non_empty_spec(n),
                alert: non_empty_spec(a),
                cookie_present: true,
                dirty: false,
            },
            None => FlashModel { notice: None, alert: None, cookie_present: true, dirty: true },
        },
    }
}

/// The cookie a response sets: without messages, a deleting cookie when
/// the request had one or something changed, else none; with messages,
/// none when nothing changed since the request, else the messages.
pub open spec fn outgoing_cookie_spec(f: FlashModel) -> Option<Seq<char>> {
    if f.is_empty() {
        if f.cookie_present || f.dirty {
            Some(delete_cookie_spec())
        } else {
            None
        }
    } else if !f.dirty && f.cookie_present {
        None
    } else {
        match form_encoded(payload_pairs(f.notice, f.alert)) {
            Some(p) => Some(set_cookie_spec(p)),
            None => None,
        }
    }
}

// ---------------------------------------------------------------------------
// Laws
// ---------------------------------------------------------------------------

/// A message is shown once: taking it a second time gives nothing.
pub proof fn law_flash_shown_once(f: FlashModel, named: FlashName)
    ensures
        f.taken(named).taken(named).message(named) is None,
        f.taken(named).message(named) is None,
{
}

/// What is stored under a name is what is taken from it next.
pub proof fn law_flash_insert_then_take(f: FlashModel, named: FlashName, message: Seq<char>)
    ensures
        f.inserted(named, message).message(named) == Some(message),
{
}

/// Once every message of a request that carried the cookie has been taken,
/// the response deletes the cookie.
pub proof fn law_flash_consumed_cookie_deleted(f: FlashModel)
    requires
        f.cookie_present,
    ensures
        outgoing_cookie_spec(f.taken(FlashName::Notice).taken(FlashName::Alert)) == Some(
            delete_cookie_spec(),
        ),
{
}

/// A request whose flash payload cannot be read carries no messages and
/// the response clears its cookie.
pub proof fn law_flash_unreadable_payload_cleared(headers: Seq<Seq<char>>)
    requires
        find_cookie_spec(headers, FLASH_COOKIE_NAME@) matches Some(raw) && decoded_payload(raw) is None,
    ensures
        incoming_flash_spec(headers).is_empty(),
        outgoing_cookie_spec(incoming_flash_spec(headers)) == Some(delete_cookie_spec()),
{
}

/// A message stored during a request is always written out, as the
/// encoded messages.
pub proof fn law_flash_insert_sets_cookie(f: FlashModel, named: FlashName, message: Seq<char>)
    ensures
        ({
            let g = f.inserted(named, message);
            outgoing_cookie_spec(g) == match form_encoded(payload_pairs(g.notice, g.alert)) {
                Some(p) => Some(set_cookie_spec(p)),
                None => None,
            }
        }),
{
}


proof fn lemma_split_without_separator(s: Seq<char>, c: char)
    requires
        forall|i: int| 0 <= i < s.len() ==> s[i] != c,
    ensures
        char_split_state(s, c) == (Seq::<Seq<char>>::empty(), s),
    decreases s.len(),
{
    if s.len() > 0 {
        lemma_split_without_separator(s.drop_last(), c);
        assert(s.drop_last().push(s.last()) =~= s);
    }
}

/// A flash written on one response is read on the next request that sends
/// its cookie back: a payload of form-text characters in the cookie header
/// `_hyperlinked_flash=<payload>` gives the messages it encodes.
pub proof fn law_flash_read_on_next_request(
    payload: Seq<char>,
    notice: Option<Seq<char>>,
    alert: Option<Seq<char>>,
)
    requires
        decoded_payload(payload) == Some((notice, alert)),
        forall|i: int| 0 <= i < payload.len() ==> is_form_text_char(#[trigger] payload[i]),
    ensures
        incoming_flash_spec(seq![FLASH_COOKIE_NAME@ + "="@ + payload]) == (FlashModel {
            notice: non_empty_spec(notice),
            alert: non_empty_spec(alert),
            cookie_present: true,
            dirty: false,
        }),
{
    reveal_strlit("_hyperlinked_flash");
    reveal_strlit("=");
    let name = FLASH_COOKIE_NAME@;
    let header = name + "="@ + payload;
    assert forall|i: int| 0 <= i < header.len() implies header[i] != ';' && !is_ws(header[i]) && header[i]
        != '"' by {
        if i >= name.len() + 1 {
            assert(header[i] == payload[i - name.len() - 1]);
            assert(is_form_text_char(payload[i - name.len() - 1]));
        }
    }
    lemma_split_without_separator(header, ';');
    assert(split_char(header, ';') =~= seq![header]);
    assert(trim_start(header) == header);
    assert(trim_end(header) == header);
    let eq = seq!['='];
    lemma_find_from_props(header, eq, 0);
    assert(matches_at(header, eq, name.len() as int)) by {
        assert(header.subrange(name.len() as int, name.len() + 1int) =~= eq);
    }
    assert forall|j: int| 0 <= j < name.len() implies !matches_at(header, eq, j) by {
        assert(header[j] == name[j]);
        assert(header.subrange(j, j + 1)[0] == header[j]);
    }
    assert(find_from(header, eq, 0) == Some(name.len() as int));
    assert(header.take(name.len() as int) =~= name);
    assert(header.skip(name.len() + 1int) =~= payload);
    assert(trim(name) == name);
    assert(trim(payload) == payload) by {
        if payload.len() > 0 {
            assert(is_form_text_char(payload[0]));
            assert(is_form_text_char(payload.last()));
        }
    }
    assert(strip_quotes(payload) == payload) by {
        if payload.len() > 0 {
            assert(is_form_text_char(payload[0]));
            assert(is_form_text_char(payload.last()));
        }
    }
    assert(segment_cookie(header, name) == Some(payload));
    assert(seq![header].drop_first() =~= Seq::<Seq<char>>::empty());
    assert(find_cookie_spec(seq![header], name) == Some(payload));
}

} // verus!
