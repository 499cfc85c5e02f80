use hyperlinked::query::{
    parse_query, ClickToken, OrderToken, ParsedHyperlinkQuery, ScopeSelection, ScopeToken,
    StatusSelection, StatusToken, TypeSelection, TypeToken,
};

#[test]
fn parse_query_collects_tokens_free_text_and_ignored_tokens() {
    let parsed = parse_query(Some(
        "status:failed order:random kind:all is:pdf clicks:unclicked gibberish nonsense:123",
    ));
    assert_eq!(
        parsed.raw_q,
        "status:failed order:random kind:all is:pdf clicks:unclicked gibberish nonsense:123"
    );
    assert_eq!(parsed.parsed_query.statuses, vec![StatusToken::Failed]);
    assert_eq!(parsed.parsed_query.orders, vec![OrderToken::Random]);
    assert_eq!(parsed.parsed_query.scopes, vec![ScopeToken::All]);
    assert_eq!(parsed.parsed_query.types, vec![TypeToken::Pdf]);
    assert_eq!(parsed.parsed_query.clicks, vec![ClickToken::Unclicked]);
    assert_eq!(parsed.free_text, "gibberish");
    assert_eq!(parsed.ignored_tokens, vec!["nonsense:123".to_string()]);
}

#[test]
fn parse_query_merges_status_aliases_and_avoids_duplicates() {
    let parsed = parse_query(Some("status:running status:processing status:queued"));
    assert_eq!(parsed.parsed_query.statuses, vec![StatusToken::Processing]);
}

#[test]
fn parse_query_supports_with_discovered_alias() {
    let parsed = parse_query(Some("with:discovered"));
    assert_eq!(parsed.parsed_query.scopes, vec![ScopeToken::All]);
    assert!(parsed.ignored_tokens.is_empty());
}

#[test]
fn parse_query_rejects_unknown_with_tokens() {
    let parsed = parse_query(Some("with:unknown"));
    assert_eq!(parsed.ignored_tokens, vec!["with:unknown".to_string()]);
}

#[test]
fn parse_query_supports_clicks_unclicked() {
    let parsed = parse_query(Some("clicks:unclicked"));
    assert_eq!(parsed.parsed_query.clicks, vec![ClickToken::Unclicked]);
}

#[test]
fn parse_query_rejects_unknown_click_tokens() {
    let parsed = parse_query(Some("clicks:popular"));
    assert_eq!(parsed.parsed_query.clicks, Vec::<ClickToken>::new());
    assert_eq!(parsed.ignored_tokens, vec!["clicks:popular".to_string()]);
}

#[test]
fn effective_scope_defaults_to_root_and_supports_all_semantics() {
    let mut parsed = ParsedHyperlinkQuery::default();
    assert!(matches!(parsed.effective_scope(), ScopeSelection::RootOnly));

    parsed.scopes.push(ScopeToken::Discovered);
    assert!(matches!(
        parsed.effective_scope(),
        ScopeSelection::DiscoveredOnly
    ));

    parsed.scopes.push(ScopeToken::Root);
    assert!(matches!(parsed.effective_scope(), ScopeSelection::All));
}

#[test]
fn parse_query_keeps_last_order_token() {
    let parsed = parse_query(Some("order:newest order:random"));
    assert_eq!(
        parsed.parsed_query.effective_order(false),
        OrderToken::Random
    );
}

#[test]
fn parse_query_supports_relevance_order() {
    let parsed = parse_query(Some("order:relevance"));
    assert_eq!(parsed.parsed_query.orders, vec![OrderToken::Relevance]);
}

#[test]
fn effective_order_defaults_to_relevance_when_free_text_exists() {
    let parsed = ParsedHyperlinkQuery::default();
    assert_eq!(parsed.effective_order(true), OrderToken::Relevance);
}

#[test]
fn effective_order_falls_back_from_relevance_without_text() {
    let mut parsed = ParsedHyperlinkQuery::default();
    parsed.orders.push(OrderToken::Relevance);
    assert_eq!(parsed.effective_order(false), OrderToken::Newest);
}

#[test]
fn parse_query_trims_and_keys_ignore_ascii_case() {
    let parsed = parse_query(Some("  STATUS:Error  Is:Non_PDF hello  world  "));
    assert_eq!(parsed.raw_q, "STATUS:Error  Is:Non_PDF hello  world");
    assert_eq!(parsed.parsed_query.statuses, vec![StatusToken::Failed]);
    assert_eq!(parsed.parsed_query.types, vec![TypeToken::NonPdf]);
    assert_eq!(parsed.free_text, "hello world");
    assert!(parsed.ignored_tokens.is_empty());
}

#[test]
fn parse_query_ignores_tokens_with_empty_sides() {
    let parsed = parse_query(Some(":pdf status: a:b:c"));
    assert_eq!(
        parsed.ignored_tokens,
        vec![":pdf".to_string(), "status:".to_string(), "a:b:c".to_string()]
    );
    let none = parse_query(None);
    assert_eq!(none.raw_q, "");
    assert_eq!(none.free_text, "");
}

#[test]
fn repeated_filters_are_listed_once() {
    let parsed = parse_query(Some("kind:sublinks scope:discovered type:pdf is:pdf clicks:zero clicks:none"));
    assert_eq!(parsed.parsed_query.scopes, vec![ScopeToken::Discovered]);
    assert_eq!(parsed.parsed_query.types, vec![TypeToken::Pdf]);
    assert_eq!(parsed.parsed_query.clicks, vec![ClickToken::Unclicked]);
}

#[test]
fn effective_type_status_and_clicks() {
    let mut parsed = ParsedHyperlinkQuery::default();
    assert!(matches!(parsed.effective_type(), TypeSelection::All));
    parsed.types.push(TypeToken::NonPdf);
    assert!(matches!(parsed.effective_type(), TypeSelection::NonPdfOnly));
    parsed.types.push(TypeToken::Pdf);
    assert!(matches!(parsed.effective_type(), TypeSelection::All));

    assert!(matches!(parsed.effective_status(), StatusSelection::All));
    parsed.statuses.push(StatusToken::Failed);
    parsed.statuses.push(StatusToken::Idle);
    match parsed.effective_status() {
        StatusSelection::Selected(v) => assert_eq!(v, vec![StatusToken::Failed, StatusToken::Idle]),
        StatusSelection::All => panic!("expected selected statuses"),
    }
    parsed.statuses.push(StatusToken::All);
    assert!(matches!(parsed.effective_status(), StatusSelection::All));

    assert!(matches!(parsed.effective_clicks(), hyperlinked::query::ClickSelection::All));
    parsed.clicks.push(ClickToken::Unclicked);
    assert!(matches!(
        parsed.effective_clicks(),
        hyperlinked::query::ClickSelection::UnclickedOnly
    ));
}
