use better_im::index_model::{ContactCount, DayCount, HourCount, IndexedMessage, SearchOpts};
use better_im::index_sql::{upsert_params, ContextScope, SqlValue, MESSAGE_SELECT};
use better_im::query::parse_query;
use better_im::statements::{
    assemble_insights, context_params, context_sql, insights_queries, links_statement,
    message_by_id_sql, row_to_message, rrf_pool, search_statement, semantic_statement,
    timeline_statement, vector_columns_to_add, InsightTotals, MessageColumns, RRF_POOL,
};

fn msg(id: i64, ts: i64) -> IndexedMessage {
    IndexedMessage {
        id,
        guid: format!("g{id}"),
        chat_id: Some(1),
        canonical_chat_id: Some(0),
        chat_identifier: None,
        chat_name: None,
        handle_id: None,
        sender: None,
        is_from_me: false,
        text: None,
        timestamp_millis: ts,
        timestamp: None,
        has_attachment: false,
        has_photo: false,
        has_link: false,
        service: None,
        msg_type: 0,
    }
}

#[test]
fn keyword_search_binds_match_filters_and_page() {
    let q = parse_query("from:alice dinner");
    let (sql, params) = search_statement(&q, SearchOpts { limit: 20, offset: 40 });
    let expected = format!(
        "SELECT {MESSAGE_SELECT}, snippet(messages_fts, 0, '[', ']', '…', 12) AS snip, bm25(messages_fts) AS score FROM messages_fts JOIN messages m ON m.id = messages_fts.rowid WHERE messages_fts MATCH ?1  AND m.sender IS NOT NULL AND lower(m.sender) LIKE ? ESCAPE '\\' ORDER BY score LIMIT ? OFFSET ?"
    );
    assert_eq!(sql, expected);
    assert_eq!(
        params,
        vec![
            SqlValue::Text("\"dinner\"".to_string()),
            SqlValue::Text("%alice%".to_string()),
            SqlValue::Integer(20),
            SqlValue::Integer(40),
        ]
    );
}

#[test]
fn filter_only_search_lists_newest_first() {
    let q = parse_query("is:from-me");
    let (sql, params) = search_statement(&q, SearchOpts::default());
    assert!(sql.contains("substr(COALESCE(m.text, ''), 1, 160) AS snip"));
    assert!(sql.ends_with("WHERE 1 = 1  AND m.is_from_me = ? ORDER BY m.ts_millis DESC LIMIT ? OFFSET ?"));
    assert_eq!(params, vec![SqlValue::Integer(1), SqlValue::Integer(50), SqlValue::Integer(0)]);
}

#[test]
fn hybrid_pool_covers_the_page() {
    assert_eq!(rrf_pool(SearchOpts { limit: 20, offset: 0 }), RRF_POOL);
    assert_eq!(rrf_pool(SearchOpts { limit: 150, offset: 100 }), 250);
    assert_eq!(rrf_pool(SearchOpts { limit: usize::MAX, offset: 1 }), usize::MAX);
}

#[test]
fn vector_arm_applies_the_same_filters() {
    let (sql, params) = semantic_statement(&parse_query("has:link dinner"));
    assert_eq!(
        sql,
        "SELECT v.id, v.embedding FROM message_vectors v JOIN messages m ON m.id = v.id WHERE v.embedding IS NOT NULL  AND m.has_link = 1"
    );
    assert!(params.is_empty());
}

#[test]
fn single_message_lookup() {
    assert_eq!(message_by_id_sql(), format!("SELECT {MESSAGE_SELECT} FROM messages m WHERE m.id = ?1"));
}

#[test]
fn context_queries_walk_both_directions() {
    let before = context_sql(ContextScope::CanonicalChat(3), true);
    assert!(before.contains("WHERE m.canonical_chat_id = ?1 AND (m.ts_millis < ?2 OR (m.ts_millis = ?2 AND m.id < ?3)) ORDER BY m.ts_millis DESC, m.id DESC LIMIT ?4"));
    let after = context_sql(ContextScope::Chat(3), false);
    assert!(after.contains("WHERE m.chat_id = ?1 AND (m.ts_millis > ?2 OR (m.ts_millis = ?2 AND m.id > ?3)) ORDER BY m.ts_millis ASC, m.id ASC LIMIT ?4"));
    let params = context_params(ContextScope::Chat(3), &msg(9, 1000), 5);
    assert_eq!(
        params,
        vec![SqlValue::Integer(3), SqlValue::Integer(1000), SqlValue::Integer(9), SqlValue::Integer(5)]
    );
}

#[test]
fn timeline_is_keyset_paginated() {
    let (sql, params) = timeline_statement(Some(5000), 10);
    assert!(sql.ends_with("WHERE m.ts_millis > 0 AND m.ts_millis < ? ORDER BY m.ts_millis DESC, m.id DESC LIMIT ?"));
    assert_eq!(params, vec![SqlValue::Integer(5000), SqlValue::Integer(10)]);
    let (sql, params) = timeline_statement(None, 10);
    assert!(sql.ends_with("WHERE m.ts_millis > 0 ORDER BY m.ts_millis DESC, m.id DESC LIMIT ?"));
    assert_eq!(params, vec![SqlValue::Integer(10)]);
}

#[test]
fn links_statement_overfetches_the_url_window() {
    let (sql, params) = links_statement(Some(4), 10, 5);
    assert!(sql.ends_with("AND m.text IS NOT NULL AND m.chat_id = ? ORDER BY m.ts_millis DESC, m.id DESC LIMIT ?"));
    assert_eq!(params, vec![SqlValue::Integer(4), SqlValue::Integer(15)]);
    let (_, params) = links_statement(None, usize::MAX, 5);
    assert_eq!(params, vec![SqlValue::Integer(usize::MAX as i64)]);
}

#[test]
fn insights_queries_share_the_chat_clause() {
    let q = insights_queries(Some(7));
    assert!(q.totals.ends_with("FROM messages m WHERE 1 = 1 AND m.chat_id = ?1"));
    assert!(q.by_day.ends_with("WHERE m.ts_millis > 0 AND m.chat_id = ?1 GROUP BY day ORDER BY day"));
    assert!(q.by_hour.ends_with("WHERE m.ts_millis > 0 AND m.chat_id = ?1 GROUP BY hour ORDER BY hour"));
    assert!(q.top_contacts.ends_with("AND m.sender IS NOT NULL AND m.chat_id = ?1 GROUP BY m.sender ORDER BY c DESC, m.sender ASC LIMIT 10"));
    assert_eq!(q.params, vec![SqlValue::Integer(7)]);
    let all = insights_queries(None);
    assert!(all.totals.ends_with("WHERE 1 = 1"));
    assert!(all.params.is_empty());
}

#[test]
fn insights_turn_extremes_into_instants() {
    let data = assemble_insights(
        InsightTotals { total_messages: 3, sent_count: 1, received_count: 2, min_ts: Some(1_652_832_000_000), max_ts: None },
        vec![DayCount { date: "2022-05-18".to_string(), count: 3 }],
        vec![HourCount { hour: 9, count: 3 }],
        vec![ContactCount { handle: "+1555".to_string(), count: 2 }],
    );
    assert_eq!(data.total_messages, 3);
    assert_eq!(data.sent_count, 1);
    assert_eq!(data.received_count, 2);
    assert_eq!(data.first_message.unwrap().timestamp(), 1_652_832_000);
    assert_eq!(data.last_message, None);
    assert_eq!(data.by_day.len(), 1);
    assert_eq!(data.top_contacts[0].handle, "+1555");
}

#[test]
fn vector_migration_adds_only_missing_columns() {
    assert_eq!(vector_columns_to_add(&vec!["id".to_string(), "embedding".to_string()]), (true, true));
    assert_eq!(vector_columns_to_add(&vec!["id".to_string(), "dim".to_string(), "model".to_string()]), (false, false));
    assert_eq!(vector_columns_to_add(&vec!["model".to_string()]), (true, false));
}

#[test]
fn row_decoding_reads_flags_and_time() {
    let m = row_to_message(MessageColumns {
        id: 5,
        guid: "g5".to_string(),
        chat_id: Some(1),
        canonical_chat_id: None,
        chat_identifier: Some("+1555".to_string()),
        chat_name: None,
        handle_id: Some(2),
        sender: Some("+1555".to_string()),
        is_from_me: 0,
        text: Some("hi".to_string()),
        ts_millis: 1_652_832_000_500,
        has_attachment: 1,
        has_photo: 0,
        has_link: 2,
        service: None,
        msg_type: 4_294_967_297,
    });
    assert!(!m.is_from_me);
    assert!(m.has_attachment);
    assert!(!m.has_photo);
    assert!(m.has_link);
    assert_eq!(m.msg_type, 1);
    assert_eq!(m.timestamp.unwrap().timestamp_millis(), 1_652_832_000_500);
    let zero = row_to_message(MessageColumns { ts_millis: 0, ..MessageColumns {
        id: 1, guid: String::new(), chat_id: None, canonical_chat_id: None, chat_identifier: None,
        chat_name: None, handle_id: None, sender: None, is_from_me: 1, text: None, ts_millis: 0,
        has_attachment: 0, has_photo: 0, has_link: 0, service: None, msg_type: 0 } });
    assert_eq!(zero.timestamp, None);
    assert!(zero.is_from_me);
}

fn int_value(v: &SqlValue) -> i64 {
    match v {
        SqlValue::Integer(i) => *i,
        other => panic!("not an integer: {other:?}"),
    }
}

fn opt_int(v: &SqlValue) -> Option<i64> {
    match v {
        SqlValue::Null => None,
        other => Some(int_value(other)),
    }
}

fn opt_text(v: &SqlValue) -> Option<String> {
    match v {
        SqlValue::Null => None,
        SqlValue::Text(t) => Some(t.clone()),
        other => panic!("not text: {other:?}"),
    }
}

#[test]
fn a_stored_message_reads_back_unchanged() {
    let mut m = msg(12, 1_652_832_000_250);
    m.timestamp = better_im::time::UtcTime::from_timestamp(1_652_832_000, 250_000_000);
    m.chat_identifier = Some("+1555".to_string());
    m.sender = Some("+1555".to_string());
    m.text = Some("hello".to_string());
    m.has_photo = true;
    m.msg_type = -3;
    let v = upsert_params(&m);
    // Columns by name, as the upsert lists them: id, guid, chat_id,
    // canonical_chat_id, chat_identifier, chat_name, handle_id, sender, text,
    // ts_millis, ts_utc, is_from_me, has_attachment, has_photo, has_link,
    // service, msg_type.
    let cols = MessageColumns {
        id: int_value(&v[0]),
        guid: opt_text(&v[1]).unwrap(),
        chat_id: opt_int(&v[2]),
        canonical_chat_id: opt_int(&v[3]),
        chat_identifier: opt_text(&v[4]),
        chat_name: opt_text(&v[5]),
        handle_id: opt_int(&v[6]),
        sender: opt_text(&v[7]),
        text: opt_text(&v[8]),
        ts_millis: int_value(&v[9]),
        is_from_me: int_value(&v[11]),
        has_attachment: int_value(&v[12]),
        has_photo: int_value(&v[13]),
        has_link: int_value(&v[14]),
        service: opt_text(&v[15]),
        msg_type: int_value(&v[16]),
    };
    assert_eq!(row_to_message(cols), m);
}

#[test]
fn watermark_update_stamps_full_reindexes() {
    assert!(better_im::statements::watermark_update_sql(true).contains("last_full_reindex_at = ?2"));
    assert!(!better_im::statements::watermark_update_sql(false).contains("last_full_reindex_at"));
}
