use better_im::index_model::IndexedMessage;
use better_im::index_sql::{
    assemble_context, build_filter_clauses, contains, context_scope, link_fetch_count,
    links_from_rows, next_watermark, plain_snippet, to_indexed, upsert_params, ContextScope,
    LinkSource, SqlValue,
};
use better_im::models::{Message, ScannedMessage};
use better_im::query::parse_query;
use better_im::time::UtcTime;

fn indexed(id: i64) -> IndexedMessage {
    IndexedMessage {
        id,
        guid: format!("g{id}"),
        chat_id: Some(1),
        canonical_chat_id: None,
        chat_identifier: Some("+1555".to_string()),
        chat_name: Some("Family".to_string()),
        handle_id: Some(3),
        sender: Some("+1555".to_string()),
        is_from_me: true,
        text: Some("hello".to_string()),
        timestamp_millis: 1_652_832_000_000,
        timestamp: UtcTime::from_timestamp(1_652_832_000, 0),
        has_attachment: false,
        has_photo: true,
        has_link: false,
        service: Some("iMessage".to_string()),
        msg_type: 2,
    }
}

#[test]
fn like_pattern_is_lowercased() {
    assert_eq!(contains("Alice"), "%alice%");
    assert_eq!(contains(""), "%%");
}

#[test]
fn like_pattern_escapes_wildcards() {
    assert_eq!(contains("A_b"), "%a\\_b%");
    assert_eq!(contains("50%"), "%50\\%%");
    assert_eq!(contains("x\\y"), "%x\\\\y%");
}

#[test]
fn filter_clauses_follow_the_operators() {
    let q = parse_query("from:Alice in:42 in:Work has:photo is:from-me before:2023-01-01");
    let (sql, params) = build_filter_clauses(&q.filters);
    assert_eq!(
        sql,
        " AND m.sender IS NOT NULL AND lower(m.sender) LIKE ? ESCAPE '\\' AND (lower(COALESCE(m.chat_name,'')) LIKE ? ESCAPE '\\' OR lower(COALESCE(m.chat_identifier,'')) LIKE ? ESCAPE '\\' OR m.chat_id = ? OR m.canonical_chat_id = ?) AND (lower(COALESCE(m.chat_name,'')) LIKE ? ESCAPE '\\' OR lower(COALESCE(m.chat_identifier,'')) LIKE ? ESCAPE '\\' OR m.chat_id = ? OR m.canonical_chat_id = ?) AND m.ts_millis > 0 AND m.ts_millis < ? AND m.has_photo = 1 AND m.is_from_me = ?"
    );
    assert_eq!(
        params,
        vec![
            SqlValue::Text("%alice%".to_string()),
            SqlValue::Text("%42%".to_string()),
            SqlValue::Text("%42%".to_string()),
            SqlValue::Integer(42),
            SqlValue::Integer(42),
            SqlValue::Text("%work%".to_string()),
            SqlValue::Text("%work%".to_string()),
            SqlValue::Integer(i64::MIN),
            SqlValue::Integer(i64::MIN),
            SqlValue::Integer(1_672_531_200_000),
            SqlValue::Integer(1),
        ]
    );
    let (sql, params) = build_filter_clauses(&parse_query("plain words").filters);
    assert_eq!(sql, "");
    assert!(params.is_empty());
}

#[test]
fn upsert_binds_seventeen_values_in_order() {
    let p = upsert_params(&indexed(9));
    assert_eq!(p.len(), 17);
    assert_eq!(p[0], SqlValue::Integer(9));
    assert_eq!(p[1], SqlValue::Text("g9".to_string()));
    assert_eq!(p[3], SqlValue::Null);
    assert_eq!(p[9], SqlValue::Integer(1_652_832_000_000));
    assert_eq!(p[10], SqlValue::Text("2022-05-18T00:00:00+00:00".to_string()));
    assert_eq!(p[11], SqlValue::Integer(1));
    assert_eq!(p[13], SqlValue::Integer(1));
    assert_eq!(p[14], SqlValue::Integer(0));
    assert_eq!(p[16], SqlValue::Integer(2));
}

#[test]
fn scanned_message_becomes_an_index_row() {
    let message = Message {
        id: 4,
        guid: "g4".to_string(),
        chat_id: Some(2),
        sender: None,
        is_from_me: true,
        service: None,
        handle_id: None,
        item_type: 0,
        text: Some("see https://example.com/x".to_string()),
        timestamp: UtcTime::from_timestamp(1_652_832_000, 250_000_000),
        date_read: None,
        num_attachments: 1,
        attachments: vec![],
        is_edited: false,
        is_reply: false,
        thread_originator_guid: None,
    };
    let scanned = ScannedMessage {
        message,
        canonical_chat_id: Some(0),
        chat_identifier: Some("+1555".to_string()),
        chat_name: None,
        has_photo: false,
    };
    let row = to_indexed(&scanned);
    assert_eq!(row.id, 4);
    assert_eq!(row.canonical_chat_id, Some(0));
    assert!(row.has_link);
    assert!(row.has_attachment);
    assert_eq!(row.timestamp_millis, 1_652_832_000_250);
    let mut plain = scanned.clone();
    plain.message.text = None;
    plain.message.timestamp = None;
    plain.message.num_attachments = 0;
    let row = to_indexed(&plain);
    assert!(!row.has_link);
    assert!(!row.has_attachment);
    assert_eq!(row.timestamp_millis, 0);
}

#[test]
fn watermark_never_goes_back() {
    assert_eq!(next_watermark(&[5, 9, 3], 7), 9);
    assert_eq!(next_watermark(&[1, 2], 7), 7);
    assert_eq!(next_watermark(&[], 7), 7);
}

#[test]
fn plain_snippet_takes_160_chars() {
    let long = "é".repeat(200);
    assert_eq!(plain_snippet(Some(&long)).chars().count(), 160);
    assert_eq!(plain_snippet(Some("short")), "short");
    assert_eq!(plain_snippet(None), "");
}

fn source(id: i64, text: Option<&str>) -> LinkSource {
    LinkSource {
        id,
        chat_id: Some(1),
        text: text.map(str::to_string),
        ts_millis: 1_652_832_000_000,
        sender: None,
        is_from_me: true,
        chat_name: Some("Family".to_string()),
    }
}

#[test]
fn links_paginate_per_url() {
    let rows = vec![
        source(3, Some("https://a.example and https://b.example")),
        source(2, None),
        source(1, Some("www.c.example")),
    ];
    let all = links_from_rows(&rows, 0, 10);
    let urls: Vec<&str> = all.iter().map(|l| l.url.as_str()).collect();
    assert_eq!(urls, vec!["https://a.example", "https://b.example", "https://www.c.example"]);
    assert_eq!(all[2].message_id, 1);
    assert_eq!(all[0].timestamp.unwrap().timestamp(), 1_652_832_000);
    let page = links_from_rows(&rows, 1, 1);
    assert_eq!(page.len(), 1);
    assert_eq!(page[0].url, "https://b.example");
    assert!(links_from_rows(&rows, 5, 10).is_empty());
    assert_eq!(link_fetch_count(5, 10), 15);
    assert_eq!(link_fetch_count(usize::MAX, 1), usize::MAX);
}

#[test]
fn fetched_link_messages_cover_the_url_window() {
    let rows = vec![
        source(5, Some("https://a.x https://b.x")),
        source(4, Some("go httpſ://c.x")),
        source(3, Some("www.d.x")),
        source(2, Some("http://e.x")),
    ];
    let (offset, limit) = (1usize, 2usize);
    let fetched = link_fetch_count(offset, limit);
    let window = links_from_rows(&rows[..fetched].to_vec(), offset, limit);
    let full = links_from_rows(&rows, offset, limit);
    assert_eq!(window, full);
    let urls: Vec<&str> = window.iter().map(|l| l.url.as_str()).collect();
    assert_eq!(urls, vec!["https://b.x", "httpſ://c.x"]);
}

#[test]
fn incremental_watermark_is_the_largest_new_id() {
    assert_eq!(next_watermark(&[9], 8), 9);
    assert_eq!(next_watermark(&[], 8), 8);
    assert_eq!(next_watermark(&[9, 12, 10], 8), 12);
}

#[test]
fn context_is_chronological_around_the_target() {
    let out = assemble_context(vec![indexed(4), indexed(3)], indexed(5), vec![indexed(6), indexed(7)]);
    let ids: Vec<i64> = out.iter().map(|m| m.id).collect();
    assert_eq!(ids, vec![3, 4, 5, 6, 7]);
}

#[test]
fn context_scope_prefers_the_canonical_chat() {
    let mut m = indexed(1);
    assert_eq!(context_scope(&m), Some(ContextScope::Chat(1)));
    m.canonical_chat_id = Some(8);
    assert_eq!(context_scope(&m), Some(ContextScope::CanonicalChat(8)));
    m.canonical_chat_id = None;
    m.chat_id = None;
    assert_eq!(context_scope(&m), None);
    assert_eq!(ContextScope::CanonicalChat(8).column(), "canonical_chat_id");
    assert_eq!(ContextScope::Chat(1).column(), "chat_id");
}
