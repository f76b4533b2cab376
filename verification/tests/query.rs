use better_im::query::{parse_date_boundary, parse_query};
use chrono::{TimeZone, Utc};

fn ts(date: &str) -> i64 {
    parse_date_boundary(date).unwrap()
}

#[test]
fn plain_free_text_becomes_anded_phrases() {
    let q = parse_query("hello world");
    assert_eq!(q.fts.as_deref(), Some("\"hello\" \"world\""));
    assert!(q.filters.is_empty());
}

#[test]
fn quoted_phrase_is_preserved() {
    let q = parse_query("\"exact phrase\"");
    assert_eq!(q.fts.as_deref(), Some("\"exact phrase\""));
}

#[test]
fn from_operator_extracts_sender_and_leaves_free_text() {
    let q = parse_query("from:alice dinner");
    assert_eq!(q.filters.from, vec!["alice".to_string()]);
    assert_eq!(q.fts.as_deref(), Some("\"dinner\""));
}

#[test]
fn quoted_operator_value() {
    let q = parse_query("from:\"John Doe\" pizza");
    assert_eq!(q.filters.from, vec!["John Doe".to_string()]);
    assert_eq!(q.fts.as_deref(), Some("\"pizza\""));
}

#[test]
fn multiple_operators_and_flags() {
    let q = parse_query("has:photo is:from-me from:bob after:2023-01-01 before:2023-12-31 beach");
    assert!(q.filters.has_photo);
    assert_eq!(q.filters.is_from_me, Some(true));
    assert_eq!(q.filters.from, vec!["bob".to_string()]);
    assert_eq!(q.filters.after, Some(ts("2023-01-01")));
    assert_eq!(q.filters.before, Some(ts("2023-12-31")));
    assert_eq!(q.fts.as_deref(), Some("\"beach\""));
}

#[test]
fn has_variants_and_is_from_them() {
    let q = parse_query("has:attachment has:link is:from-them");
    assert!(q.filters.has_attachment);
    assert!(q.filters.has_link);
    assert_eq!(q.filters.is_from_me, Some(false));
    assert!(q.fts.is_none());
}

#[test]
fn filters_only_query_has_no_fts() {
    let q = parse_query("in:Family is:from-me");
    assert_eq!(q.filters.in_chat, vec!["Family".to_string()]);
    assert_eq!(q.filters.is_from_me, Some(true));
    assert!(q.fts.is_none());
}

#[test]
fn url_with_colon_is_free_text_not_operator() {
    let q = parse_query("https://example.com/path");
    assert!(q.filters.is_empty());
    assert_eq!(q.fts.as_deref(), Some("\"https://example.com/path\""));
}

#[test]
fn unknown_operatorish_token_is_free_text() {
    let q = parse_query("foo:bar");
    assert!(q.filters.is_empty());
    assert_eq!(q.fts.as_deref(), Some("\"foo:bar\""));
}

#[test]
fn datetime_boundaries_parse() {
    assert_eq!(
        parse_date_boundary("2023-06-15"),
        Some(Utc.with_ymd_and_hms(2023, 6, 15, 0, 0, 0).unwrap().timestamp_millis())
    );
    assert_eq!(
        parse_date_boundary("2023-06-15T12:30:00"),
        Some(Utc.with_ymd_and_hms(2023, 6, 15, 12, 30, 0).unwrap().timestamp_millis())
    );
    assert_eq!(
        parse_date_boundary("2023-06-15T12:30:00Z"),
        Some(Utc.with_ymd_and_hms(2023, 6, 15, 12, 30, 0).unwrap().timestamp_millis())
    );
    assert!(parse_date_boundary("not-a-date").is_none());
}

#[test]
fn embedded_quote_is_escaped() {
    let q = parse_query("say \"hi\"\"there\"");
    assert!(q.fts.as_deref().unwrap().contains("\"\""));
}

#[test]
fn operator_with_empty_value_is_ignored_as_operator() {
    let q = parse_query("from: hello");
    assert!(q.filters.from.is_empty());
}

#[test]
fn operator_keys_are_case_insensitive_and_values_kept() {
    let q = parse_query("FROM:Alice HAS:Photo IS:Sent");
    assert_eq!(q.filters.from, vec!["Alice".to_string()]);
    assert!(q.filters.has_photo);
    assert_eq!(q.filters.is_from_me, Some(true));
    assert!(q.fts.is_none());
}

#[test]
fn unknown_has_and_is_values_fall_back_to_free_text() {
    let q = parse_query("has:pizza is:weird");
    assert!(q.filters.is_empty());
    assert_eq!(q.fts.as_deref(), Some("\"pizza\" \"weird\""));
}

#[test]
fn unparsable_date_clears_the_bound() {
    let q = parse_query("after:2023-01-01 after:someday");
    assert_eq!(q.filters.after, None);
    let q = parse_query("before:2023-06-15T12:30 in:42");
    assert_eq!(
        q.filters.before,
        Some(Utc.with_ymd_and_hms(2023, 6, 15, 12, 30, 0).unwrap().timestamp_millis())
    );
    assert_eq!(q.filters.in_chat, vec!["42".to_string()]);
}

#[test]
fn raw_query_is_kept_and_whitespace_inside_quotes_is_one_token() {
    let q = parse_query("  \"a  b\"\tc ");
    assert_eq!(q.raw, "  \"a  b\"\tc ");
    assert_eq!(q.fts.as_deref(), Some("\"a  b\" \"c\""));
}

#[test]
fn empty_query_has_nothing() {
    let q = parse_query("   ");
    assert!(q.fts.is_none());
    assert!(q.filters.is_empty());
}

#[test]
fn quote_only_token_is_dropped() {
    let q = parse_query("\"\" word");
    assert_eq!(q.fts.as_deref(), Some("\"word\""));
}
