//! The hyperlink index query language: `key:value` filter tokens, free text,
//! and the effective selections that the listing applies.
use vstd::prelude::*;

use crate::text::{
    chars_of, eq_lit, join, join_exec, lower_ascii, replace_char, replace_char_exec, split_once,
    split_once_exec, split_whitespace, string_from_chars, strings_from, to_ascii_lowercase, trim,
    trim_exec, views, words,
};

verus! {

#[derive(Clone, Copy, Debug, PartialEq, Eq, Structural)]
pub enum StatusToken {
    All,
    Processing,
    Failed,
    Idle,
    Succeeded,
}

#[derive(Clone, Copy, Debug, PartialEq, Eq, Structural)]
pub enum ScopeToken {
    Root,
    All,
    Discovered,
}

#[derive(Clone, Copy, Debug, PartialEq, Eq, Structural)]
pub enum TypeToken {
    All,
    Pdf,
    NonPdf,
}

#[derive(Clone, Copy, Debug, PartialEq, Eq, Structural)]
pub enum ClickToken {
    Unclicked,
}

#[derive(Clone, Copy, Debug, PartialEq, Eq, Structural)]
pub enum OrderToken {
    Newest,
    Oldest,
    MostClicked,
    RecentlyClicked,
    Random,
    Relevance,
}

/// Tokens that can be compared for equality in executable code.
pub trait Token: Copy {
    fn same(&self, other: &Self) -> (b: bool)
        ensures
            b == (*self == *other),
    ;
}

impl Token for StatusToken {
    fn same(&self, other: &Self) -> (b: bool) {
        *self == *other
    }
}

impl Token for ScopeToken {
    fn same(&self, other: &Self) -> (b: bool) {
        *self == *other
    }
}

impl Token for TypeToken {
    fn same(&self, other: &Self) -> (b: bool) {
        *self == *other
    }
}

impl Token for ClickToken {
    fn same(&self, other: &Self) -> (b: bool) {
        *self == *other
    }
}

impl Token for OrderToken {
    fn same(&self, other: &Self) -> (b: bool) {
        *self == *other
    }
}

pub fn contains_token<T: Token>(items: &Vec<T>, item: &T) -> (r: bool)
    ensures
        r == items@.contains(*item),
{
    let mut i: usize = 0;
    while i < items.len()
        invariant
            i <= items.len(),
            forall|k: int| 0 <= k < i ==> items@[k] != *item,
        decreases items.len() - i,
    {
        if items[i].same(item) {
            assert(items@[i as int] == *item);
            return true;
        }
        i += 1;
    }
    false
}

/// `items` with `item` appended unless it is already there.
pub open spec fn push_unique_spec<T>(items: Seq<T>, item: T) -> Seq<T> {
    if items.contains(item) {
        items
    } else {
        items.push(item)
    }
}

/// Appends `item` unless `items` already holds it.
pub fn push_unique<T: Token>(items: &mut Vec<T>, item: T)
    ensures
        final(items)@ == push_unique_spec(old(items)@, item),
{
    if !contains_token(items, &item) {
        items.push(item);
    }
}

/// The filter tokens of a query, in the order they were first given.
#[derive(Clone, Debug)]
pub struct ParsedHyperlinkQuery {
    pub statuses: Vec<StatusToken>,
    pub scopes: Vec<ScopeToken>,
    pub types: Vec<TypeToken>,
    pub clicks: Vec<ClickToken>,
    pub orders: Vec<OrderToken>,
}

impl Default for ParsedHyperlinkQuery {
    fn default() -> (r: Self)
        ensures
            r.statuses@.len() == 0,
            r.scopes@.len() == 0,
            r.types@.len() == 0,
            r.clicks@.len() == 0,
            r.orders@.len() == 0,
    {
        ParsedHyperlinkQuery {
            statuses: Vec::new(),
            scopes: Vec::new(),
            types: Vec::new(),
            clicks: Vec::new(),
            orders: Vec::new(),
        }
    }
}

// ---------------------------------------------------------------------------
// Token values
// ---------------------------------------------------------------------------

pub open spec fn status_token_of(v: Seq<char>) -> Option<StatusToken> {
    if v == "all"@ {
        Some(StatusToken::All)
    } else if v == "processing"@ || v == "queued"@ || v == "running"@ {
        Some(StatusToken::Processing)
    } else if v == "failed"@ || v == "error"@ {
        Some(StatusToken::Failed)
    } else if v == "idle"@ {
        Some(StatusToken::Idle)
    } else if v == "succeeded"@ || v == "success"@ {
        Some(StatusToken::Succeeded)
    } else {
        None
    }
}

pub open spec fn scope_token_of(v: Seq<char>) -> Option<ScopeToken> {
    if v == "root"@ {
        Some(ScopeToken::Root)
    } else if v == "all"@ {
        Some(ScopeToken::All)
    } else if v == "discovered"@ || v == "sublinks"@ {
        Some(ScopeToken::Discovered)
    } else {
        None
    }
}

/// `with:discovered` widens the scope to every link.
pub open spec fn with_token_of(v: Seq<char>) -> Option<ScopeToken> {
    if v == "discovered"@ {
        Some(ScopeToken::All)
    } else {
        None
    }
}

pub open spec fn type_token_of(v: Seq<char>) -> Option<TypeToken> {
    if v == "all"@ {
        Some(TypeToken::All)
    } else if v == "pdf"@ {
        Some(TypeToken::Pdf)
    } else if v == "non-pdf"@ || v == "nonpdf"@ {
        Some(TypeToken::NonPdf)
    } else {
        None
    }
}

pub open spec fn click_token_of(v: Seq<char>) -> Option<ClickToken> {
    if v == "unclicked"@ || v == "zero"@ || v == "none"@ {
        Some(ClickToken::Unclicked)
    } else {
        None
    }
}

pub open spec fn order_token_of(v: Seq<char>) -> Option<OrderToken> {
    if v == "newest"@ || v == "new"@ {
        Some(OrderToken::Newest)
    } else if v == "oldest"@ || v == "old"@ {
        Some(OrderToken::Oldest)
    } else if v == "most-clicked"@ || v == "top"@ {
        Some(OrderToken::MostClicked)
    } else if v == "recently-clicked"@ || v == "recent"@ {
        Some(OrderToken::RecentlyClicked)
    } else if v == "random"@ {
        Some(OrderToken::Random)
    } else if v == "relevance"@ || v == "rank"@ {
        Some(OrderToken::Relevance)
    } else {
        None
    }
}

/// Every short or alternative filter value means what its full value
/// means: `queued` and `running` are `processing`, `error` is `failed`,
/// `success` is `succeeded`, `sublinks` is `discovered`, `nonpdf` is
/// `non-pdf`, `zero` and `none` are `unclicked`; and `with:discovered`
/// widens to every link, as `scope:all` does.
pub proof fn law_filter_value_aliases()
    ensures
        status_token_of("queued"@) == status_token_of("processing"@),
        status_token_of("running"@) == status_token_of("processing"@),
        status_token_of("processing"@) == Some(StatusToken::Processing),
        status_token_of("error"@) == status_token_of("failed"@),
        status_token_of("failed"@) == Some(StatusToken::Failed),
        status_token_of("success"@) == status_token_of("succeeded"@),
        status_token_of("succeeded"@) == Some(StatusToken::Succeeded),
        status_token_of("idle"@) == Some(StatusToken::Idle),
        status_token_of("all"@) == Some(StatusToken::All),
        scope_token_of("sublinks"@) == scope_token_of("discovered"@),
        scope_token_of("discovered"@) == Some(ScopeToken::Discovered),
        scope_token_of("root"@) == Some(ScopeToken::Root),
        with_token_of("discovered"@) == scope_token_of("all"@),
        scope_token_of("all"@) == Some(ScopeToken::All),
        type_token_of("nonpdf"@) == type_token_of("non-pdf"@),
        type_token_of("non-pdf"@) == Some(TypeToken::NonPdf),
        type_token_of("pdf"@) == Some(TypeToken::Pdf),
        click_token_of("zero"@) == click_token_of("unclicked"@),
        click_token_of("none"@) == click_token_of("unclicked"@),
        click_token_of("unclicked"@) == Some(ClickToken::Unclicked),
{
    reveal_strlit("all");
    reveal_strlit("discovered");
    reveal_strlit("error");
    reveal_strlit("failed");
    reveal_strlit("idle");
    reveal_strlit("non-pdf");
    reveal_strlit("none");
    reveal_strlit("nonpdf");
    reveal_strlit("pdf");
    reveal_strlit("processing");
    reveal_strlit("queued");
    reveal_strlit("root");
    reveal_strlit("running");
    reveal_strlit("sublinks");
    reveal_strlit("succeeded");
    reveal_strlit("success");
    reveal_strlit("unclicked");
    reveal_strlit("zero");
    assert("processing"@ != "all"@) by {
        assert("processing"@.len() != "all"@.len());
    }
    assert("queued"@ != "all"@) by {
        assert("queued"@.len() != "all"@.len());
    }
    assert("queued"@ != "processing"@) by {
        assert("queued"@.len() != "processing"@.len());
    }
    assert("running"@ != "all"@) by {
        assert("running"@.len() != "all"@.len());
    }
    assert("running"@ != "processing"@) by {
        assert("running"@.len() != "processing"@.len());
    }
    assert("running"@ != "queued"@) by {
        assert("running"@.len() != "queued"@.len());
    }
    assert("failed"@ != "all"@) by {
        assert("failed"@.len() != "all"@.len());
    }
    assert("failed"@ != "processing"@) by {
        assert("failed"@.len() != "processing"@.len());
    }
    assert("failed"@ != "queued"@) by {
        assert("failed"@[0] != "queued"@[0]);
    }
    assert("failed"@ != "running"@) by {
        assert("failed"@.len() != "running"@.len());
    }
    assert("error"@ != "all"@) by {
        assert("error"@.len() != "all"@.len());
    }
    assert("error"@ != "processing"@) by {
        assert("error"@.len() != "processing"@.len());
    }
    assert("error"@ != "queued"@) by {
        assert("error"@.len() != "queued"@.len());
    }
    assert("error"@ != "running"@) by {
        assert("error"@.len() != "running"@.len());
    }
    assert("error"@ != "failed"@) by {
        assert("error"@.len() != "failed"@.len());
    }
    assert("idle"@ != "all"@) by {
        assert("idle"@.len() != "all"@.len());
    }
    assert("idle"@ != "processing"@) by {
        assert("idle"@.len() != "processing"@.len());
    }
    assert("idle"@ != "queued"@) by {
        assert("idle"@.len() != "queued"@.len());
    }
    assert("idle"@ != "running"@) by {
        assert("idle"@.len() != "running"@.len());
    }
    assert("idle"@ != "failed"@) by {
        assert("idle"@.len() != "failed"@.len());
    }
    assert("idle"@ != "error"@) by {
        assert("idle"@.len() != "error"@.len());
    }
    assert("succeeded"@ != "all"@) by {
        assert("succeeded"@.len() != "all"@.len());
    }
    assert("succeeded"@ != "processing"@) by {
        assert("succeeded"@.len() != "processing"@.len());
    }
    assert("succeeded"@ != "queued"@) by {
        assert("succeeded"@.len() != "queued"@.len());
    }
    assert("succeeded"@ != "running"@) by {
        assert("succeeded"@.len() != "running"@.len());
    }
    assert("succeeded"@ != "failed"@) by {
        assert("succeeded"@.len() != "failed"@.len());
    }
    assert("succeeded"@ != "error"@) by {
        assert("succeeded"@.len() != "error"@.len());
    }
    assert("succeeded"@ != "idle"@) by {
        assert("succeeded"@.len() != "idle"@.len());
    }
    assert("success"@ != "all"@) by {
        assert("success"@.len() != "all"@.len());
    }
    assert("success"@ != "processing"@) by {
        assert("success"@.len() != "processing"@.len());
    }
    assert("success"@ != "queued"@) by {
        assert("success"@.len() != "queued"@.len());
    }
    assert("success"@ != "running"@) by {
        assert("success"@[0] != "running"@[0]);
    }
    assert("success"@ != "failed"@) by {
        assert("success"@.len() != "failed"@.len());
    }
    assert("success"@ != "error"@) by {
        assert("success"@.len() != "error"@.len());
    }
    assert("success"@ != "idle"@) by {
        assert("success"@.len() != "idle"@.len());
    }
    assert("success"@ != "succeeded"@) by {
        assert("success"@.len() != "succeeded"@.len());
    }
    assert("all"@ != "root"@) by {
        assert("all"@.len() != "root"@.len());
    }
    assert("discovered"@ != "root"@) by {
        assert("discovered"@.len() != "root"@.len());
    }
    assert("discovered"@ != "all"@) by {
        assert("discovered"@.len() != "all"@.len());
    }
    assert("sublinks"@ != "root"@) by {
        assert("sublinks"@.len() != "root"@.len());
    }
    assert("sublinks"@ != "all"@) by {
        assert("sublinks"@.len() != "all"@.len());
    }
    assert("sublinks"@ != "discovered"@) by {
        assert("sublinks"@.len() != "discovered"@.len());
    }
    assert("pdf"@ != "all"@) by {
        assert("pdf"@[0] != "all"@[0]);
    }
    assert("non-pdf"@ != "all"@) by {
        assert("non-pdf"@.len() != "all"@.len());
    }
    assert("non-pdf"@ != "pdf"@) by {
        assert("non-pdf"@.len() != "pdf"@.len());
    }
    assert("nonpdf"@ != "all"@) by {
        assert("nonpdf"@.len() != "all"@.len());
    }
    assert("nonpdf"@ != "pdf"@) by {
        assert("nonpdf"@.len() != "pdf"@.len());
    }
    assert("nonpdf"@ != "non-pdf"@) by {
        assert("nonpdf"@.len() != "non-pdf"@.len());
    }
    assert("zero"@ != "unclicked"@) by {
        assert("zero"@.len() != "unclicked"@.len());
    }
    assert("none"@ != "unclicked"@) by {
        assert("none"@.len() != "unclicked"@.len());
    }
    assert("none"@ != "zero"@) by {
        assert("none"@[0] != "zero"@[0]);
    }
}

fn status_token_from(v: &Vec<char>) -> (r: Option<StatusToken>)
    ensures
        r == status_token_of(v@),
{
    if eq_lit(v, "all") {
        Some(StatusToken::All)
    } else if eq_lit(v, "processing") || eq_lit(v, "queued") || eq_lit(v, "running") {
        Some(StatusToken::Processing)
    } else if eq_lit(v, "failed") || eq_lit(v, "error") {
        Some(StatusToken::Failed)
    } else if eq_lit(v, "idle") {
        Some(StatusToken::Idle)
    } else if eq_lit(v, "succeeded") || eq_lit(v, "success") {
        Some(StatusToken::Succeeded)
    } else {
        None
    }
}

fn scope_token_from(v: &Vec<char>) -> (r: Option<ScopeToken>)
    ensures
        r == scope_token_of(v@),
{
    if eq_lit(v, "root") {
        Some(ScopeToken::Root)
    } else if eq_lit(v, "all") {
        Some(ScopeToken::All)
    } else if eq_lit(v, "discovered") || eq_lit(v, "sublinks") {
        Some(ScopeToken::Discovered)
    } else {
        None
    }
}

fn with_token_from(v: &Vec<char>) -> (r: Option<ScopeToken>)
    ensures
        r == with_token_of(v@),
{
    if eq_lit(v, "discovered") {
        Some(ScopeToken::All)
    } else {
        None
    }
}

fn type_token_from(v: &Vec<char>) -> (r: Option<TypeToken>)
    ensures
        r == type_token_of(v@),
{
    if eq_lit(v, "all") {
        Some(TypeToken::All)
    } else if eq_lit(v, "pdf") {
        Some(TypeToken::Pdf)
    } else if eq_lit(v, "non-pdf") || eq_lit(v, "nonpdf") {
        Some(TypeToken::NonPdf)
    } else {
        None
    }
}

fn click_token_from(v: &Vec<char>) -> (r: Option<ClickToken>)
    ensures
        r == click_token_of(v@),
{
    if eq_lit(v, "unclicked") || eq_lit(v, "zero") || eq_lit(v, "none") {
        Some(ClickToken::Unclicked)
    } else {
        None
    }
}

fn order_token_from(v: &Vec<char>) -> (r: Option<OrderToken>)
    ensures
        r == order_token_of(v@),
{
    if eq_lit(v, "newest") || eq_lit(v, "new") {
        Some(OrderToken::Newest)
    } else if eq_lit(v, "oldest") || eq_lit(v, "old") {
        Some(OrderToken::Oldest)
    } else if eq_lit(v, "most-clicked") || eq_lit(v, "top") {
        Some(OrderToken::MostClicked)
    } else if eq_lit(v, "recently-clicked") || eq_lit(v, "recent") {
        Some(OrderToken::RecentlyClicked)
    } else if eq_lit(v, "random") {
        Some(OrderToken::Random)
    } else if eq_lit(v, "relevance") || eq_lit(v, "rank") {
        Some(OrderToken::Relevance)
    } else {
        None
    }
}

pub fn parse_status_token(value: &str) -> (r: Option<StatusToken>)
    ensures
        r == status_token_of(value@),
{
    status_token_from(&chars_of(value))
}

pub fn parse_scope_token(value: &str) -> (r: Option<ScopeToken>)
    ensures
        r == scope_token_of(value@),
{
    scope_token_from(&chars_of(value))
}

pub fn parse_with_token(value: &str) -> (r: Option<ScopeToken>)
    ensures
        r == with_token_of(value@),
{
    with_token_from(&chars_of(value))
}

pub fn parse_type_token(value: &str) -> (r: Option<TypeToken>)
    ensures
        r == type_token_of(value@),
{
    type_token_from(&chars_of(value))
}

pub fn parse_click_token(value: &str) -> (r: Option<ClickToken>)
    ensures
        r == click_token_of(value@),
{
    click_token_from(&chars_of(value))
}

pub fn parse_order_token(value: &str) -> (r: Option<OrderToken>)
    ensures
        r == order_token_of(value@),
{
    order_token_from(&chars_of(value))
}

/// Key aliases: `kind:` means `scope:`, `is:` means `type:`; keys are
/// compared ASCII case-insensitively.
pub open spec fn normalized_key(raw_key: Seq<char>) -> Seq<char> {
    let k = lower_ascii(raw_key);
    if k == "kind"@ {
        "scope"@
    } else if k == "is"@ {
        "type"@
    } else {
        k
    }
}

pub fn normalize_key(raw_key: &str) -> (r: String)
    ensures
        r@ == normalized_key(raw_key@),
{
    let k = to_ascii_lowercase(&chars_of(raw_key));
    if eq_lit(&k, "kind") {
        "scope".to_string()
    } else if eq_lit(&k, "is") {
        "type".to_string()
    } else {
        string_from_chars(&k)
    }
}


// ---------------------------------------------------------------------------
// Query parsing
// ---------------------------------------------------------------------------

/// What a query says, token by token.
pub struct QuerySpec {
    pub statuses: Seq<StatusToken>,
    pub scopes: Seq<ScopeToken>,
    pub types: Seq<TypeToken>,
    pub clicks: Seq<ClickToken>,
    pub orders: Seq<OrderToken>,
    pub ignored: Seq<Seq<char>>,
    pub free: Seq<Seq<char>>,
}

pub open spec fn empty_query_spec() -> QuerySpec {
    QuerySpec {
        statuses: Seq::empty(),
        scopes: Seq::empty(),
        types: Seq::empty(),
        clicks: Seq::empty(),
        orders: Seq::empty(),
        ignored: Seq::empty(),
        free: Seq::empty(),
    }
}

/// Applies a `key:value` filter; `None` when the key or value is not known.
pub open spec fn apply_filter(st: QuerySpec, key: Seq<char>, value: Seq<char>) -> Option<QuerySpec> {
    if key == "status"@ {
        match status_token_of(value) {
            Some(t) => Some(QuerySpec { statuses: push_unique_spec(st.statuses, t), ..st }),
            None => None,
        }
    } else if key == "scope"@ {
        match scope_token_of(value) {
            Some(t) => Some(QuerySpec { scopes: push_unique_spec(st.scopes, t), ..st }),
            None => None,
        }
    } else if key == "with"@ {
        match with_token_of(value) {
            Some(t) => Some(QuerySpec { scopes: push_unique_spec(st.scopes, t), ..st }),
            None => None,
        }
    } else if key == "type"@ {
        match type_token_of(value) {
            Some(t) => Some(QuerySpec { types: push_unique_spec(st.types, t), ..st }),
            None => None,
        }
    } else if key == "clicks"@ {
        match click_token_of(value) {
            Some(t) => Some(QuerySpec { clicks: push_unique_spec(st.clicks, t), ..st }),
            None => None,
        }
    } else if key == "order"@ {
        match order_token_of(value) {
            Some(t) => Some(QuerySpec { orders: st.orders.push(t), ..st }),
            None => None,
        }
    } else {
        None
    }
}

/// One whitespace-separated token: free text without a `:`, a filter when
/// both sides of the first `:` are non-empty and known, else ignored.
pub open spec fn apply_query_token(st: QuerySpec, tok: Seq<char>) -> QuerySpec {
    match split_once(tok, ':') {
        None => QuerySpec { free: st.free.push(tok), ..st },
        Some((k, v)) => if k.len() == 0 || v.len() == 0 {
            QuerySpec { ignored: st.ignored.push(tok), ..st }
        } else {
            match apply_filter(st, normalized_key(k), replace_char(lower_ascii(v), '_', '-')) {
                Some(next) => next,
                None => QuerySpec { ignored: st.ignored.push(tok), ..st },
            }
        },
    }
}

pub open spec fn parse_tokens(toks: Seq<Seq<char>>) -> QuerySpec
    decreases toks.len(),
{
    if toks.len() == 0 {
        empty_query_spec()
    } else {
        apply_query_token(parse_tokens(toks.drop_last()), toks.last())
    }
}

/// The parsed form of a raw query string.
pub struct ParseQueryOutput {
    pub parsed_query: ParsedHyperlinkQuery,
    pub ignored_tokens: Vec<String>,
    pub free_text: String,
    pub raw_q: String,
}

pub open spec fn strings_view(v: Seq<String>) -> Seq<Seq<char>> {
    v.map_values(|s: String| s@)
}

impl ParsedHyperlinkQuery {
    pub open spec fn agrees_with(&self, st: QuerySpec) -> bool {
        &&& self.statuses@ == st.statuses
        &&& self.scopes@ == st.scopes
        &&& self.types@ == st.types
        &&& self.clicks@ == st.clicks
        &&& self.orders@ == st.orders
    }
}

pub open spec fn opt_str_view(raw: Option<&str>) -> Option<Seq<char>> {
    match raw {
        Some(r) => Some(r@),
        None => None,
    }
}

/// The spec of the query that `raw` holds.
pub open spec fn query_spec_of(raw: Option<Seq<char>>) -> QuerySpec {
    let raw_q = match raw {
        Some(r) => trim(r),
        None => Seq::empty(),
    };
    parse_tokens(words(raw_q))
}

fn apply_filter_exec(q: &mut ParsedHyperlinkQuery, key: &Vec<char>, value: &Vec<char>) -> (valid:
    bool)
    ensures
        match apply_filter(
            QuerySpec {
                statuses: old(q).statuses@,
                scopes: old(q).scopes@,
                types: old(q).types@,
                clicks: old(q).clicks@,
                orders: old(q).orders@,
                ignored: Seq::empty(),
                free: Seq::empty(),
            },
            key@,
            value@,
        ) {
            Some(st) => valid && final(q).agrees_with(st),
            None => !valid && *final(q) == *old(q),
        },
{
    if eq_lit(key, "status") {
        match status_token_from(value) {
            Some(t) => {
                push_unique(&mut q.statuses, t);
                true
            },
            None => false,
        }
    } else if eq_lit(key, "scope") {
        match scope_token_from(value) {
            Some(t) => {
                push_unique(&mut q.scopes, t);
                true
            },
            None => false,
        }
    } else if eq_lit(key, "with") {
        match with_token_from(value) {
            Some(t) => {
                push_unique(&mut q.scopes, t);
                true
            },
            None => false,
        }
    } else if eq_lit(key, "type") {
        match type_token_from(value) {
            Some(t) => {
                push_unique(&mut q.types, t);
                true
            },
            None => false,
        }
    } else if eq_lit(key, "clicks") {
        match click_token_from(value) {
            Some(t) => {
                push_unique(&mut q.clicks, t);
                true
            },
            None => false,
        }
    } else if eq_lit(key, "order") {
        match order_token_from(value) {
            Some(t) => {
                q.orders.push(t);
                true
            },
            None => false,
        }
    } else {
        false
    }
}

/// What `parse_query` gives back for a raw query: the trimmed query, the
/// filters of its query spec, its ignored tokens, its free tokens joined by
/// single spaces; no status, scope, type or click twice.
pub open spec fn parse_query_result(raw: Option<Seq<char>>, out: ParseQueryOutput) -> bool {
    &&& out.raw_q@ == (match raw {
        Some(r) => trim(r),
        None => Seq::empty(),
    })
    &&& out.parsed_query.agrees_with(query_spec_of(raw))
    &&& strings_view(out.ignored_tokens@) == query_spec_of(raw).ignored
    &&& out.free_text@ == join(query_spec_of(raw).free, seq![' '])
    &&& out.parsed_query.statuses@.no_duplicates()
    &&& out.parsed_query.scopes@.no_duplicates()
    &&& out.parsed_query.types@.no_duplicates()
    &&& out.parsed_query.clicks@.no_duplicates()
}

/// Splits a raw query into filter tokens, ignored tokens and free text.
pub fn parse_query(raw_q: Option<&str>) -> (out: ParseQueryOutput)
    ensures
        parse_query_result(opt_str_view(raw_q), out),
{
    let raw: Vec<char> = match raw_q {
        Some(r) => trim_exec(&chars_of(r)),
        None => Vec::new(),
    };
    let tokens = split_whitespace(&raw);
    let mut parsed = ParsedHyperlinkQuery::default();
    let mut ignored: Vec<Vec<char>> = Vec::new();
    let mut free: Vec<Vec<char>> = Vec::new();
    let ghost toks = words(raw@);
    let mut i: usize = 0;
    assert(toks.take(0) =~= Seq::<Seq<char>>::empty());
    assert(views(ignored@) =~= Seq::<Seq<char>>::empty());
    assert(views(free@) =~= Seq::<Seq<char>>::empty());
    assert(parsed.statuses@ =~= Seq::<StatusToken>::empty());
    assert(parsed.scopes@ =~= Seq::<ScopeToken>::empty());
    assert(parsed.types@ =~= Seq::<TypeToken>::empty());
    assert(parsed.clicks@ =~= Seq::<ClickToken>::empty());
    assert(parsed.orders@ =~= Seq::<OrderToken>::empty());
    while i < tokens.len()
        invariant
            i <= tokens.len(),
            views(tokens@) == toks,
            ({
                let st = parse_tokens(toks.take(i as int));
                &&& parsed.agrees_with(st)
                &&& views(ignored@) == st.ignored
                &&& views(free@) == st.free
            }),
        decreases tokens.len() - i,
    {
        let token = &tokens[i];
        let ghost st = parse_tokens(toks.take(i as int));
        assert(toks.take(i + 1).drop_last() =~= toks.take(i as int));
        assert(toks.take(i + 1).last() == token@);
        match split_once_exec(token, ':') {
            None => {
                let ghost old_free = free@;
                free.push(token.clone());
                assert(views(free@) =~= views(old_free).push(token@));
            },
            Some((k, v)) => {
                if k.len() == 0 || v.len() == 0 {
                    let ghost old_ig = ignored@;
                    ignored.push(token.clone());
                    assert(views(ignored@) =~= views(old_ig).push(token@));
                } else {
                    let key = chars_of(normalize_key(&string_from_chars(&k)).as_str());
                    let value = replace_char_exec(&to_ascii_lowercase(&v), '_', '-');
                    let ghost before = parsed;
                    let valid = apply_filter_exec(&mut parsed, &key, &value);
                    if !valid {
                        let ghost old_ig = ignored@;
                        ignored.push(token.clone());
                        assert(views(ignored@) =~= views(old_ig).push(token@));
                    }
                }
            },
        }
        i += 1;
    }
    assert(toks.take(i as int) =~= toks);
    let raw_out = string_from_chars(&raw);
    let sp: Vec<char> = vec![' '];
    assert(sp@ =~= seq![' ']);
    let free_text = string_from_chars(&join_exec(&free, &sp));
    let ignored_tokens = strings_from(&ignored);
    assert(strings_view(ignored_tokens@) =~= views(ignored@));
    proof {
        law_parsed_filters_are_unique(opt_str_view(raw_q));
    }
    ParseQueryOutput { parsed_query: parsed, ignored_tokens, free_text, raw_q: raw_out }
}


// ---------------------------------------------------------------------------
// Effective selections
// ---------------------------------------------------------------------------

#[derive(Clone, Copy, Debug, PartialEq, Eq, Structural)]
pub enum ScopeSelection {
    RootOnly,
    DiscoveredOnly,
    All,
}

#[derive(Clone, Copy, Debug, PartialEq, Eq, Structural)]
pub enum TypeSelection {
    All,
    PdfOnly,
    NonPdfOnly,
}

#[derive(Clone, Copy, Debug, PartialEq, Eq, Structural)]
pub enum ClickSelection {
    All,
    UnclickedOnly,
}

/// Either no status filter, or the (duplicate-free) statuses to keep.
#[derive(Clone, Debug)]
pub enum StatusSelection {
    All,
    Selected(Vec<StatusToken>),
}

pub open spec fn effective_scope_spec(scopes: Seq<ScopeToken>) -> ScopeSelection {
    if scopes.contains(ScopeToken::All) || (scopes.contains(ScopeToken::Root) && scopes.contains(
        ScopeToken::Discovered,
    )) {
        ScopeSelection::All
    } else if scopes.contains(ScopeToken::Discovered) {
        ScopeSelection::DiscoveredOnly
    } else {
        ScopeSelection::RootOnly
    }
}

pub open spec fn effective_type_spec(types: Seq<TypeToken>) -> TypeSelection {
    if types.contains(TypeToken::All) || (types.contains(TypeToken::Pdf) && types.contains(
        TypeToken::NonPdf,
    )) || types.len() == 0 {
        TypeSelection::All
    } else if types.contains(TypeToken::Pdf) {
        TypeSelection::PdfOnly
    } else {
        TypeSelection::NonPdfOnly
    }
}

/// The order a listing uses: the last `order:` token wins; relevance needs
/// free text and falls back to newest; without a token, free text ranks by
/// relevance and everything else lists newest first.
pub open spec fn effective_order_spec(orders: Seq<OrderToken>, has_free_text: bool) -> OrderToken {
    if orders.len() == 0 {
        if has_free_text {
            OrderToken::Relevance
        } else {
            OrderToken::Newest
        }
    } else if orders.last() == OrderToken::Relevance && !has_free_text {
        OrderToken::Newest
    } else {
        orders.last()
    }
}

impl ParsedHyperlinkQuery {
    pub fn effective_scope(&self) -> (r: ScopeSelection)
        ensures
            r == effective_scope_spec(self.scopes@),
    {
        let has_all = contains_token(&self.scopes, &ScopeToken::All);
        let has_root = contains_token(&self.scopes, &ScopeToken::Root);
        let has_discovered = contains_token(&self.scopes, &ScopeToken::Discovered);
        if has_all || (has_root && has_discovered) {
            ScopeSelection::All
        } else if has_discovered {
            ScopeSelection::DiscoveredOnly
        } else {
            ScopeSelection::RootOnly
        }
    }

    pub fn effective_type(&self) -> (r: TypeSelection)
        ensures
            r == effective_type_spec(self.types@),
    {
        let has_all = contains_token(&self.types, &TypeToken::All);
        let has_pdf = contains_token(&self.types, &TypeToken::Pdf);
        let has_non_pdf = contains_token(&self.types, &TypeToken::NonPdf);
        if has_all || (has_pdf && has_non_pdf) || self.types.len() == 0 {
            TypeSelection::All
        } else if has_pdf {
            TypeSelection::PdfOnly
        } else {
            TypeSelection::NonPdfOnly
        }
    }

    pub fn effective_clicks(&self) -> (r: ClickSelection)
        ensures
            r == (if self.clicks@.contains(ClickToken::Unclicked) {
                ClickSelection::UnclickedOnly
            } else {
                ClickSelection::All
            }),
    {
        if contains_token(&self.clicks, &ClickToken::Unclicked) {
            ClickSelection::UnclickedOnly
        } else {
            ClickSelection::All
        }
    }

    /// No filter when no status was given or `status:all` was; otherwise
    /// the given statuses, each once.
    pub fn effective_status(&self) -> (r: StatusSelection)
        ensures
            (self.statuses@.len() == 0 || self.statuses@.contains(StatusToken::All)) <==> r
                is All,
            r matches StatusSelection::Selected(v) ==> v@.no_duplicates() && forall|t: StatusToken|
                v@.contains(t) <==> self.statuses@.contains(t),
    {
        if self.statuses.len() == 0 || contains_token(&self.statuses, &StatusToken::All) {
            return StatusSelection::All;
        }
        let mut selected: Vec<StatusToken> = Vec::new();
        let mut i: usize = 0;
        while i < self.statuses.len()
            invariant
                i <= self.statuses.len(),
                selected@.no_duplicates(),
                forall|t: StatusToken|
                    selected@.contains(t) <==> self.statuses@.take(i as int).contains(t),
            decreases self.statuses.len() - i,
        {
            let ghost before = selected@;
            let t = self.statuses[i];
            push_unique(&mut selected, t);
            assert(self.statuses@.take(i + 1) =~= self.statuses@.take(i as int).push(t));
            proof {
                lemma_push_unique_no_dup(before, t);
                assert forall|u: StatusToken|
                    selected@.contains(u) <==> self.statuses@.take(i + 1).contains(u) by {
                    if self.statuses@.take(i as int).contains(u) {
                        let k = choose|k: int| 0 <= k < i && #[trigger] self.statuses@.take(i as int)[k] == u;
                        assert(self.statuses@.take(i + 1)[k] == u);
                    }
                    if self.statuses@.take(i + 1).contains(u) && u != t {
                        let k = choose|k: int| 0 <= k < i + 1 && #[trigger] self.statuses@.take(i + 1)[k] == u;
                        assert(self.statuses@.take(i as int)[k] == u);
                    }
                    if selected@.contains(u) && u != t && !before.contains(u) {
                        let k = choose|k: int| 0 <= k < selected@.len() && #[trigger] selected@[k] == u;
                        assert(before.push(t)[k] == u);
                        assert(k < before.len());
                        assert(before[k] == u);
                    }
                    if u == t {
                        assert(self.statuses@.take(i + 1)[i as int] == t);
                    }
                    if before.contains(u) {
                        let k = choose|k: int| 0 <= k < before.len() && #[trigger] before[k] == u;
                        assert(selected@[k] == u);
                    }
                }
            }
            i += 1;
        }
        assert(self.statuses@.take(i as int) =~= self.statuses@);
        StatusSelection::Selected(selected)
    }

    pub fn effective_order(&self, has_free_text: bool) -> (r: OrderToken)
        ensures
            r == effective_order_spec(self.orders@, has_free_text),
    {
        if self.orders.len() == 0 {
            if has_free_text {
                OrderToken::Relevance
            } else {
                OrderToken::Newest
            }
        } else {
            let last = self.orders[self.orders.len() - 1];
            if last == OrderToken::Relevance && !has_free_text {
                OrderToken::Newest
            } else {
                last
            }
        }
    }
}

// ---------------------------------------------------------------------------
// Laws
// ---------------------------------------------------------------------------

pub proof fn lemma_push_unique_no_dup<T>(items: Seq<T>, item: T)
    requires
        items.no_duplicates(),
    ensures
        push_unique_spec(items, item).no_duplicates(),
        push_unique_spec(items, item).contains(item),
{
    if !items.contains(item) {
        assert(items.push(item)[items.len() as int] == item);
    }
}

proof fn lemma_parse_tokens_no_duplicates(toks: Seq<Seq<char>>)
    ensures
        parse_tokens(toks).statuses.no_duplicates(),
        parse_tokens(toks).scopes.no_duplicates(),
        parse_tokens(toks).types.no_duplicates(),
        parse_tokens(toks).clicks.no_duplicates(),
    decreases toks.len(),
{
    if toks.len() > 0 {
        let st = parse_tokens(toks.drop_last());
        lemma_parse_tokens_no_duplicates(toks.drop_last());
        let tok = toks.last();
        match split_once(tok, ':') {
            None => {},
            Some((k, v)) => {
                let value = replace_char(lower_ascii(v), '_', '-');
                if let Some(t) = status_token_of(value) {
                    lemma_push_unique_no_dup(st.statuses, t);
                }
                if let Some(t) = scope_token_of(value) {
                    lemma_push_unique_no_dup(st.scopes, t);
                }
                if let Some(t) = with_token_of(value) {
                    lemma_push_unique_no_dup(st.scopes, t);
                }
                if let Some(t) = type_token_of(value) {
                    lemma_push_unique_no_dup(st.types, t);
                }
                if let Some(t) = click_token_of(value) {
                    lemma_push_unique_no_dup(st.clicks, t);
                }
            },
        }
    }
}

/// A parsed query never lists a status, scope, type or click filter twice,
/// however often the raw query repeats it (or one of its aliases).
pub proof fn law_parsed_filters_are_unique(raw: Option<Seq<char>>)
    ensures
        query_spec_of(raw).statuses.no_duplicates(),
        query_spec_of(raw).scopes.no_duplicates(),
        query_spec_of(raw).types.no_duplicates(),
        query_spec_of(raw).clicks.no_duplicates(),
{
    let raw_q = match raw {
        Some(r) => trim(r),
        None => Seq::empty(),
    };
    lemma_parse_tokens_no_duplicates(words(raw_q));
}

/// Relevance ordering is only ever effective when there is free text.
pub proof fn law_relevance_needs_free_text(orders: Seq<OrderToken>)
    ensures
        effective_order_spec(orders, false) != OrderToken::Relevance,
        orders.len() == 0 ==> effective_order_spec(orders, true) == OrderToken::Relevance,
{
}


/// A token without a `:` is free text.
pub open spec fn is_free_token(t: Seq<char>) -> bool {
    split_once(t, ':') is None
}

/// The value side of a filter token as it is compared: ASCII lower case,
/// `_` read as `-`.
pub open spec fn filter_value(v: Seq<char>) -> Seq<char> {
    replace_char(lower_ascii(v), '_', '-')
}

/// A `key:value` token with both sides non-empty and a known key and value.
pub open spec fn is_filter_token(t: Seq<char>) -> bool {
    match split_once(t, ':') {
        Some((k, v)) => k.len() > 0 && v.len() > 0 && apply_filter(
            empty_query_spec(),
            normalized_key(k),
            filter_value(v),
        ) is Some,
        None => false,
    }
}

/// A token with a `:` that is no filter: it is ignored.
pub open spec fn is_ignored_token(t: Seq<char>) -> bool {
    split_once(t, ':') is Some && !is_filter_token(t)
}

pub open spec fn free_token_pred() -> spec_fn(Seq<char>) -> bool {
    |t: Seq<char>| is_free_token(t)
}

pub open spec fn ignored_token_pred() -> spec_fn(Seq<char>) -> bool {
    |t: Seq<char>| is_ignored_token(t)
}

proof fn lemma_apply_filter_any_state(st: QuerySpec, key: Seq<char>, value: Seq<char>)
    ensures
        apply_filter(st, key, value) is Some <==> apply_filter(empty_query_spec(), key, value) is Some,
        apply_filter(st, key, value) matches Some(n) ==> n.free == st.free && n.ignored == st.ignored,
{
}

/// The value side of a `key:value` token (empty without a `:`).
pub open spec fn token_value(t: Seq<char>) -> Seq<char> {
    match split_once(t, ':') {
        Some((_, v)) => v,
        None => Seq::empty(),
    }
}

/// The filter that a filter token names is in the parsed lists.
pub open spec fn filter_recorded(st: QuerySpec, t: Seq<char>) -> bool {
    match split_once(t, ':') {
        Some((k, v)) => {
            let key = normalized_key(k);
            let value = filter_value(v);
            if key == "status"@ {
                st.statuses.contains(status_token_of(value)->0)
            } else if key == "scope"@ {
                st.scopes.contains(scope_token_of(value)->0)
            } else if key == "with"@ {
                st.scopes.contains(with_token_of(value)->0)
            } else if key == "type"@ {
                st.types.contains(type_token_of(value)->0)
            } else if key == "clicks"@ {
                st.clicks.contains(click_token_of(value)->0)
            } else {
                st.orders.contains(order_token_of(value)->0)
            }
        },
        None => false,
    }
}

proof fn lemma_push_unique_keeps<T>(items: Seq<T>, item: T, x: T)
    requires
        items.contains(x),
    ensures
        push_unique_spec(items, item).contains(x),
{
    if !items.contains(item) {
        let k = choose|k: int| 0 <= k < items.len() && items[k] == x;
        assert(items.push(item)[k] == x);
    }
}

proof fn lemma_push_keeps<T>(items: Seq<T>, item: T, x: T)
    requires
        items.contains(x),
    ensures
        items.push(item).contains(x),
{
    let k = choose|k: int| 0 <= k < items.len() && items[k] == x;
    assert(items.push(item)[k] == x);
}

proof fn lemma_push_contains<T>(items: Seq<T>, item: T)
    ensures
        items.push(item).contains(item),
{
    assert(items.push(item)[items.len() as int] == item);
}

proof fn lemma_apply_token_keeps(st: QuerySpec, tok: Seq<char>, t: Seq<char>)
    requires
        filter_recorded(st, t),
    ensures
        filter_recorded(apply_query_token(st, tok), t),
{
    let tv = filter_value(token_value(t));
    match split_once(tok, ':') {
        None => {},
        Some((k, v)) => {
            let value = filter_value(v);
            if let Some(x) = status_token_of(value) {
                if st.statuses.contains(status_token_of(tv)->0) {
                    lemma_push_unique_keeps(st.statuses, x, status_token_of(tv)->0);
                }
            }
            if let Some(x) = scope_token_of(value) {
                if st.scopes.contains(scope_token_of(tv)->0) {
                    lemma_push_unique_keeps(st.scopes, x, scope_token_of(tv)->0);
                }
                if st.scopes.contains(with_token_of(tv)->0) {
                    lemma_push_unique_keeps(st.scopes, x, with_token_of(tv)->0);
                }
            }
            if let Some(x) = with_token_of(value) {
                if st.scopes.contains(scope_token_of(tv)->0) {
                    lemma_push_unique_keeps(st.scopes, x, scope_token_of(tv)->0);
                }
                if st.scopes.contains(with_token_of(tv)->0) {
                    lemma_push_unique_keeps(st.scopes, x, with_token_of(tv)->0);
                }
            }
            if let Some(x) = type_token_of(value) {
                if st.types.contains(type_token_of(tv)->0) {
                    lemma_push_unique_keeps(st.types, x, type_token_of(tv)->0);
                }
            }
            if let Some(x) = click_token_of(value) {
                if st.clicks.contains(click_token_of(tv)->0) {
                    lemma_push_unique_keeps(st.clicks, x, click_token_of(tv)->0);
                }
            }
            if let Some(x) = order_token_of(value) {
                if st.orders.contains(order_token_of(tv)->0) {
                    lemma_push_keeps(st.orders, x, order_token_of(tv)->0);
                }
            }
        },
    }
}

proof fn lemma_apply_token_records(st: QuerySpec, tok: Seq<char>)
    requires
        is_filter_token(tok),
    ensures
        filter_recorded(apply_query_token(st, tok), tok),
        apply_query_token(st, tok).free == st.free,
        apply_query_token(st, tok).ignored == st.ignored,
{
    let (k, v) = split_once(tok, ':')->0;
    let value = filter_value(v);
    if let Some(x) = status_token_of(value) {
        lemma_push_unique_no_dup_contains(st.statuses, x);
    }
    if let Some(x) = scope_token_of(value) {
        lemma_push_unique_no_dup_contains(st.scopes, x);
    }
    if let Some(x) = with_token_of(value) {
        lemma_push_unique_no_dup_contains(st.scopes, x);
    }
    if let Some(x) = type_token_of(value) {
        lemma_push_unique_no_dup_contains(st.types, x);
    }
    if let Some(x) = click_token_of(value) {
        lemma_push_unique_no_dup_contains(st.clicks, x);
    }
    if let Some(x) = order_token_of(value) {
        lemma_push_contains(st.orders, x);
    }
}

proof fn lemma_push_unique_no_dup_contains<T>(items: Seq<T>, item: T)
    ensures
        push_unique_spec(items, item).contains(item),
{
    if !items.contains(item) {
        assert(items.push(item)[items.len() as int] == item);
    }
}

proof fn lemma_parse_tokens_sorts(toks: Seq<Seq<char>>)
    ensures
        parse_tokens(toks).free == toks.filter(free_token_pred()),
        parse_tokens(toks).ignored == toks.filter(ignored_token_pred()),
        forall|i: int|
            0 <= i < toks.len() && is_filter_token(#[trigger] toks[i]) ==> filter_recorded(
                parse_tokens(toks),
                toks[i],
            ),
    decreases toks.len(),
{
    if toks.len() > 0 {
        let prev = toks.drop_last();
        lemma_parse_tokens_sorts(prev);
        let st = parse_tokens(prev);
        let tok = toks.last();
        let n = toks.len() - 1;
        if is_filter_token(tok) {
            lemma_apply_token_records(st, tok);
        }
        if let Some((k, v)) = split_once(tok, ':') {
            lemma_apply_filter_any_state(st, normalized_key(k), filter_value(v));
        }
        assert(parse_tokens(toks) == apply_query_token(st, tok));
        reveal(Seq::filter);
        assert(toks.filter(free_token_pred()) == (if is_free_token(tok) {
            prev.filter(free_token_pred()).push(tok)
        } else {
            prev.filter(free_token_pred())
        }));
        assert(toks.filter(ignored_token_pred()) == (if is_ignored_token(tok) {
            prev.filter(ignored_token_pred()).push(tok)
        } else {
            prev.filter(ignored_token_pred())
        }));
        assert forall|i: int| 0 <= i < toks.len() && is_filter_token(#[trigger] toks[i]) implies filter_recorded(
            parse_tokens(toks),
            toks[i],
        ) by {
            if i < n {
                assert(toks[i] == prev[i]);
                lemma_apply_token_keeps(st, tok, toks[i]);
            }
        }
    }
}

/// What `parse_query` gives back, token by token: the raw query trimmed;
/// as free text, the whitespace-separated tokens without a `:`, in order,
/// joined by single spaces; as ignored tokens, the tokens with a `:` that
/// name no known filter, in order; every other token's filter recorded in
/// the parsed query; and no status, scope, type or click twice.
pub proof fn law_parse_query_output(raw: Option<Seq<char>>, out: ParseQueryOutput)
    requires
        parse_query_result(raw, out),
    ensures
        ({
            let raw_q = match raw {
                Some(r) => trim(r),
                None => Seq::empty(),
            };
            let toks = words(raw_q);
            &&& out.raw_q@ == raw_q
            &&& out.free_text@ == join(toks.filter(free_token_pred()), seq![' '])
            &&& strings_view(out.ignored_tokens@) == toks.filter(ignored_token_pred())
            &&& out.parsed_query.agrees_with(query_spec_of(raw))
            &&& forall|i: int|
                0 <= i < toks.len() && is_filter_token(#[trigger] toks[i]) ==> filter_recorded(
                    query_spec_of(raw),
                    toks[i],
                )
            &&& out.parsed_query.statuses@.no_duplicates() && out.parsed_query.scopes@.no_duplicates()
                && out.parsed_query.types@.no_duplicates() && out.parsed_query.clicks@.no_duplicates()
        }),
{
    let raw_q = match raw {
        Some(r) => trim(r),
        None => Seq::empty(),
    };
    let toks = words(raw_q);
    assert(query_spec_of(raw) == parse_tokens(toks));
    lemma_parse_tokens_sorts(toks);
}

} // verus!
