use hyperlinked::markdown::{markdown_to_plain_text, replace_markdown_links, strip_markdown_line_prefix};
use hyperlinked::search::{
    build_match_snippet_html_from_text, escape_html, first_match_range, highlight_plain_text_html,
    normalize_exact_search_term, normalize_unquoted_search_term, parse_search_terms, SearchTerm,
};

fn fuzzy(value: &str) -> SearchTerm {
    SearchTerm {
        value: value.to_string(),
        exact: false,
    }
}

fn exact(value: &str) -> SearchTerm {
    SearchTerm {
        value: value.to_string(),
        exact: true,
    }
}

#[test]
fn parse_search_terms_supports_quoted_exact_terms() {
    let terms = parse_search_terms(r#"parser "talk talk" "rust""#);
    assert_eq!(
        terms,
        vec![fuzzy("parser"), exact("talk talk"), exact("rust")]
    );
}

#[test]
fn snippet_builder_extracts_context_for_matching_term() {
    let snippet = build_match_snippet_html_from_text(
        "one two three four rust five six seven",
        &[fuzzy("rust")],
    );
    assert_eq!(
        snippet.as_deref(),
        Some("one two three four <em>rust</em> five six seven")
    );
}

#[test]
fn snippet_builder_returns_none_when_no_term_matches() {
    let snippet = build_match_snippet_html_from_text(
        "one two three four",
        &[fuzzy("rust"), fuzzy("golang")],
    );
    assert!(snippet.is_none());
}

#[test]
fn exact_term_highlighting_uses_word_boundaries() {
    let snippet = highlight_plain_text_html("parsers parser", &[exact("parser")]);
    assert_eq!(snippet.as_deref(), Some("parsers <em>parser</em>"));
}

#[test]
fn markdown_to_plain_text_strips_link_markup() {
    let plain = markdown_to_plain_text("Read [parser docs](https://example.com/docs) now");
    assert_eq!(plain, "Read parser docs now");
}

#[test]
fn search_terms_normalize_case_and_punctuation() {
    assert_eq!(normalize_unquoted_search_term("Rust!"), Some("rust".to_string()));
    assert_eq!(normalize_unquoted_search_term("--"), None);
    assert_eq!(normalize_unquoted_search_term("ÉCOLE"), Some("école".to_string()));
    assert_eq!(
        normalize_exact_search_term("  Hello--World / Again "),
        Some("hello world again".to_string())
    );
    assert_eq!(normalize_exact_search_term(" - "), None);
    let terms = parse_search_terms("\"unclosed quote words");
    assert_eq!(terms, vec![fuzzy("unclosed"), fuzzy("quote"), fuzzy("words")]);
    assert!(parse_search_terms("   \"\" ").is_empty());
}

#[test]
fn highlighting_merges_touching_matches_and_escapes() {
    let out = highlight_plain_text_html("<b>rustrust</b> & co", &[fuzzy("rust")]);
    assert_eq!(out.as_deref(), Some("&lt;b&gt;<em>rustrust</em>&lt;/b&gt; &amp; co"));
    let overlapping = highlight_plain_text_html("abcdef", &[fuzzy("bcd"), fuzzy("cde")]);
    assert_eq!(overlapping.as_deref(), Some("a<em>bcde</em>f"));
    let case = highlight_plain_text_html("Rust and RUST", &[fuzzy("rust")]);
    assert_eq!(case.as_deref(), Some("<em>Rust</em> and <em>RUST</em>"));
    assert!(highlight_plain_text_html("nothing here", &[fuzzy("rust")]).is_none());
    assert!(highlight_plain_text_html("anything", &[]).is_none());
}

#[test]
fn escape_html_escapes_all_five_characters() {
    assert_eq!(escape_html(r#"<a href="x">'&'</a>"#), "&lt;a href=&quot;x&quot;&gt;&#39;&amp;&#39;&lt;/a&gt;");
}

#[test]
fn first_match_prefers_earliest_start_then_earlier_term() {
    let text: Vec<char> = "xx beta alpha beta".chars().collect();
    let r = first_match_range(&text, &[fuzzy("alpha"), fuzzy("beta")]);
    assert_eq!(r, Some((3, 4)));
    let tie: Vec<char> = "alphabet".chars().collect();
    assert_eq!(first_match_range(&tie, &[fuzzy("alpha"), fuzzy("alp")]), Some((0, 5)));
    let words: Vec<char> = "alphabet alpha".chars().collect();
    assert_eq!(first_match_range(&words, &[exact("alpha")]), Some((9, 5)));
}

#[test]
fn snippet_keeps_seventy_two_bytes_of_context_and_marks_cuts() {
    let before = "a".repeat(100);
    let after = "b".repeat(100);
    let text = format!("{before} needle {after}");
    let snippet = build_match_snippet_html_from_text(&text, &[fuzzy("needle")]).unwrap();
    let expected = format!("...{} <em>needle</em> {}...", "a".repeat(71), "b".repeat(71));
    assert_eq!(snippet, expected);
}

#[test]
fn snippet_context_respects_multibyte_boundaries() {
    let before = "é".repeat(50);
    let text = format!("{before} needle");
    let snippet = build_match_snippet_html_from_text(&text, &[fuzzy("needle")]).unwrap();
    // 72 bytes before the match fall inside a two-byte character; the cut
    // moves back to the boundary before it.
    let expected = format!("...{} <em>needle</em>", "é".repeat(36));
    assert_eq!(snippet, expected);
    assert!(build_match_snippet_html_from_text("   ", &[fuzzy("x")]).is_none());
}

#[test]
fn markdown_line_prefixes_and_inline_markup() {
    assert_eq!(strip_markdown_line_prefix("  > > ## Title"), "Title");
    assert_eq!(strip_markdown_line_prefix("12. item"), "item");
    assert_eq!(strip_markdown_line_prefix("12.item"), "12.item");
    assert_eq!(strip_markdown_line_prefix("- bullet"), "bullet");
    assert_eq!(strip_markdown_line_prefix("#hashtag"), "#hashtag");
    assert_eq!(replace_markdown_links("see ![img](a.png) and [x] (y) and [unclosed(z"), "see img and [x] (y) and [unclosed(z");
    assert_eq!(replace_markdown_links("[a](b"), "[a](b");
    assert_eq!(
        markdown_to_plain_text("# Head\n\n**bold** `code` ~~gone~~ *em*\n```\nblock\n```\n- [link](u)"),
        "Head bold code gone em block link"
    );
}

#[test]
fn highlighting_only_adds_marks_to_escaped_text() {
    let terms = parse_search_terms("rust");
    let value = "Rust & <rust> \"rusty\"";
    let html = highlight_plain_text_html(value, &terms).expect("the term matches");
    assert!(html.contains("<em>Rust</em>"));
    assert_eq!(html.replace("<em>", "").replace("</em>", ""), escape_html(value));
}
