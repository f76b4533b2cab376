//! The statements the search index runs: keyword and filter search, the
//! timeline, the links hub, message context, vector storage and insights,
//! each with the values it binds, and the decoding of a message row.

use vstd::prelude::*;
use crate::contacts::opt_view;
use crate::index_model::{ContactCount, DayCount, HourCount, IndexedMessage, InsightsData, SearchOpts};
use crate::index_sql::{
    build_filter_clauses, filter_params, filter_sql, flag, link_fetch_count, opt_int, opt_text,
    params_view, upsert_row, ContextScope, SqlParam, SqlValue, MESSAGE_SELECT,
};
use crate::query::{FiltersView, ParsedQuery};
use crate::sql_model::{all_hold, and_conditions, condition_holds, count_column, count_column_value, count_rows, lemma_and_condition_one, lemma_and_conditions_concat, lemma_count_rows_agree, where_clause};
use crate::urls::url_matches;
use crate::text::{chars_eq_str, chars_of, contains, occurs_at, push_str, starts_with, string_from_chars};
use crate::time::{datetime_from_millis, instant_from_millis, UtcTime};

verus! {

// ---------------------------------------------------------------------------
// Search
// ---------------------------------------------------------------------------

/// The search statement: FTS5 ranking (BM25, highlighted snippet) when there
/// is free text, else a newest-first filter-only listing with a plain
/// 160-character excerpt; the filters apply in both.
pub open spec fn search_sql_spec(has_fts: bool, f: FiltersView) -> Seq<char> {
    if has_fts {
        "SELECT "@ + MESSAGE_SELECT@
            + ", snippet(messages_fts, 0, '[', ']', '…', 12) AS snip, bm25(messages_fts) AS score FROM messages_fts JOIN messages m ON m.id = messages_fts.rowid WHERE messages_fts MATCH ?1 "@
            + filter_sql(f) + " ORDER BY score LIMIT ? OFFSET ?"@
    } else {
        "SELECT "@ + MESSAGE_SELECT@
            + ", substr(COALESCE(m.text, ''), 1, 160) AS snip, 0.0 AS score FROM messages m WHERE 1 = 1 "@
            + filter_sql(f) + " ORDER BY m.ts_millis DESC LIMIT ? OFFSET ?"@
    }
}

/// The values the search statement binds: the match expression (when there
/// is one), the filter values, then the page size and offset.
pub open spec fn search_params_spec(fts: Option<Seq<char>>, f: FiltersView, limit: usize, offset: usize) -> Seq<SqlParam> {
    (match fts {
        Some(t) => seq![SqlParam::Text(t)],
        None => Seq::empty(),
    }) + filter_params(f) + seq![SqlParam::Integer(limit as i64), SqlParam::Integer(offset as i64)]
}

/// Build the search statement of a parsed query and the values it binds.
pub fn search_statement(query: &ParsedQuery, opts: SearchOpts) -> (r: (String, Vec<SqlValue>))
    ensures
        r.0@ == search_sql_spec(query.fts is Some, query.filters@),
        params_view(r.1@) == search_params_spec(opt_view(query.fts), query.filters@, opts.limit, opts.offset),
{
    let (filters, filter_values) = build_filter_clauses(&query.filters);
    let mut sql: Vec<char> = Vec::new();
    let mut params: Vec<SqlValue> = Vec::new();
    push_str(&mut sql, "SELECT ");
    push_str(&mut sql, MESSAGE_SELECT);
    match &query.fts {
        Some(fts) => {
            push_str(
                &mut sql,
                ", snippet(messages_fts, 0, '[', ']', '…', 12) AS snip, bm25(messages_fts) AS score FROM messages_fts JOIN messages m ON m.id = messages_fts.rowid WHERE messages_fts MATCH ?1 ",
            );
            push_str(&mut sql, filters.as_str());
            push_str(&mut sql, " ORDER BY score LIMIT ? OFFSET ?");
            params.push(SqlValue::Text(fts.clone()));
        },
        None => {
            push_str(
                &mut sql,
                ", substr(COALESCE(m.text, ''), 1, 160) AS snip, 0.0 AS score FROM messages m WHERE 1 = 1 ",
            );
            push_str(&mut sql, filters.as_str());
            push_str(&mut sql, " ORDER BY m.ts_millis DESC LIMIT ? OFFSET ?");
        },
    }
    let ghost head = params@;
    let mut rest = filter_values;
    params.append(&mut rest);
    params.push(SqlValue::Integer(opts.limit as i64));
    params.push(SqlValue::Integer(opts.offset as i64));
    assert(sql@ =~= search_sql_spec(query.fts is Some, query.filters@));
    assert(params_view(params@) =~= search_params_spec(opt_view(query.fts), query.filters@, opts.limit, opts.offset));
    (string_from_chars(sql.as_slice()), params)
}

/// The operator filters apply to both arms of a hybrid search: the keyword
/// statement and the vector statement carry the same filter clauses, and
/// bind the same filter values in the same order.
pub proof fn lemma_filters_apply_to_both_arms(fts: Seq<char>, f: FiltersView, limit: usize, offset: usize)
    ensures
        contains(search_sql_spec(true, f), filter_sql(f)),
        contains(semantic_sql_spec(f), filter_sql(f)),
        search_params_spec(Some(fts), f, limit, offset).subrange(1, 1 + filter_params(f).len() as int) == filter_params(f),
{
    let head = "SELECT "@ + MESSAGE_SELECT@
        + ", snippet(messages_fts, 0, '[', ']', '…', 12) AS snip, bm25(messages_fts) AS score FROM messages_fts JOIN messages m ON m.id = messages_fts.rowid WHERE messages_fts MATCH ?1 "@;
    let tail = " ORDER BY score LIMIT ? OFFSET ?"@;
    let fs = filter_sql(f);
    assert((head + fs + tail).subrange(head.len() as int, (head.len() + fs.len()) as int) =~= fs);
    assert(occurs_at(search_sql_spec(true, f), fs, head.len() as int));
    let shead = "SELECT v.id, v.embedding FROM message_vectors v JOIN messages m ON m.id = v.id WHERE v.embedding IS NOT NULL "@;
    assert((shead + fs).subrange(shead.len() as int, (shead.len() + fs.len()) as int) =~= fs);
    assert(occurs_at(semantic_sql_spec(f), fs, shead.len() as int));
    let fp = filter_params(f);
    let all = search_params_spec(Some(fts), f, limit, offset);
    assert(all.subrange(1, 1 + fp.len() as int) =~= fp);
}

/// Per-arm candidate pool of hybrid search: each arm contributes this many
/// ranked hits before fusion.
pub const RRF_POOL: usize = 200;

/// The candidate pool of one hybrid search: enough to cover the requested
/// page, and never below [`RRF_POOL`].
pub fn rrf_pool(opts: SearchOpts) -> (r: usize)
    ensures
        r == (if opts.offset + opts.limit <= usize::MAX {
            if opts.offset + opts.limit > RRF_POOL {
                (opts.offset + opts.limit) as usize
            } else {
                RRF_POOL
            }
        } else {
            usize::MAX
        }),
{
    let want = opts.offset.saturating_add(opts.limit);
    if want > RRF_POOL {
        want
    } else {
        RRF_POOL
    }
}

/// The vector arm's candidate statement: every stored vector of a message
/// that passes the filters.
pub open spec fn semantic_sql_spec(f: FiltersView) -> Seq<char> {
    "SELECT v.id, v.embedding FROM message_vectors v JOIN messages m ON m.id = v.id WHERE v.embedding IS NOT NULL "@
        + filter_sql(f)
}

/// Build the vector arm's candidate statement and the values it binds.
pub fn semantic_statement(query: &ParsedQuery) -> (r: (String, Vec<SqlValue>))
    ensures
        r.0@ == semantic_sql_spec(query.filters@),
        params_view(r.1@) == filter_params(query.filters@),
{
    let (filters, values) = build_filter_clauses(&query.filters);
    let mut sql: Vec<char> = Vec::new();
    push_str(
        &mut sql,
        "SELECT v.id, v.embedding FROM message_vectors v JOIN messages m ON m.id = v.id WHERE v.embedding IS NOT NULL ",
    );
    push_str(&mut sql, filters.as_str());
    assert(sql@ =~= semantic_sql_spec(query.filters@));
    (string_from_chars(sql.as_slice()), values)
}

// ---------------------------------------------------------------------------
// Single messages, context, timeline, links
// ---------------------------------------------------------------------------

/// The lookup of one indexed message by source `message.ROWID` (`?1`).
pub open spec fn message_by_id_spec() -> Seq<char> {
    "SELECT "@ + MESSAGE_SELECT@ + " FROM messages m WHERE m.id = ?1"@
}

/// Build the lookup of one indexed message by id.
pub fn message_by_id_sql() -> (r: String)
    ensures
        r@ == message_by_id_spec(),
{
    let mut sql: Vec<char> = Vec::new();
    push_str(&mut sql, "SELECT ");
    push_str(&mut sql, MESSAGE_SELECT);
    push_str(&mut sql, " FROM messages m WHERE m.id = ?1");
    string_from_chars(sql.as_slice())
}

pub open spec fn scope_column(scope: ContextScope) -> Seq<char> {
    match scope {
        ContextScope::CanonicalChat(_) => "canonical_chat_id"@,
        ContextScope::Chat(_) => "chat_id"@,
    }
}

pub open spec fn scope_value(scope: ContextScope) -> i64 {
    match scope {
        ContextScope::CanonicalChat(c) => c,
        ContextScope::Chat(c) => c,
    }
}

/// The neighbours of a message in its chat scope (`?1`): with `preceding`,
/// those strictly before it in (timestamp, id) order (`?2`, `?3`), nearest
/// first; else those strictly after it, nearest first; at most `?4`.
pub open spec fn context_sql_spec(scope: ContextScope, preceding: bool) -> Seq<char> {
    "SELECT "@ + MESSAGE_SELECT@ + " FROM messages m WHERE m."@ + scope_column(scope) + (if preceding {
        " = ?1 AND (m.ts_millis < ?2 OR (m.ts_millis = ?2 AND m.id < ?3)) ORDER BY m.ts_millis DESC, m.id DESC LIMIT ?4"@
    } else {
        " = ?1 AND (m.ts_millis > ?2 OR (m.ts_millis = ?2 AND m.id > ?3)) ORDER BY m.ts_millis ASC, m.id ASC LIMIT ?4"@
    })
}

/// Build one of the two context queries.
pub fn context_sql(scope: ContextScope, preceding: bool) -> (r: String)
    ensures
        r@ == context_sql_spec(scope, preceding),
{
    let mut sql: Vec<char> = Vec::new();
    push_str(&mut sql, "SELECT ");
    push_str(&mut sql, MESSAGE_SELECT);
    push_str(&mut sql, " FROM messages m WHERE m.");
    push_str(&mut sql, scope.column());
    if preceding {
        push_str(
            &mut sql,
            " = ?1 AND (m.ts_millis < ?2 OR (m.ts_millis = ?2 AND m.id < ?3)) ORDER BY m.ts_millis DESC, m.id DESC LIMIT ?4",
        );
    } else {
        push_str(
            &mut sql,
            " = ?1 AND (m.ts_millis > ?2 OR (m.ts_millis = ?2 AND m.id > ?3)) ORDER BY m.ts_millis ASC, m.id ASC LIMIT ?4",
        );
    }
    assert(sql@ =~= context_sql_spec(scope, preceding));
    string_from_chars(sql.as_slice())
}

/// The values a context query binds: the scope's chat, the target's
/// timestamp and id, and how many neighbours to take.
pub fn context_params(scope: ContextScope, target: &IndexedMessage, count: usize) -> (r: Vec<SqlValue>)
    ensures
        params_view(r@) == seq![
            SqlParam::Integer(scope_value(scope)),
            SqlParam::Integer(target.timestamp_millis),
            SqlParam::Integer(target.id),
            SqlParam::Integer(count as i64),
        ],
{
    let chat = match scope {
        ContextScope::CanonicalChat(c) => c,
        ContextScope::Chat(c) => c,
    };
    let r = vec![
        SqlValue::Integer(chat),
        SqlValue::Integer(target.timestamp_millis),
        SqlValue::Integer(target.id),
        SqlValue::Integer(count as i64),
    ];
    assert(params_view(r@) =~= seq![
        SqlParam::Integer(scope_value(scope)),
        SqlParam::Integer(target.timestamp_millis),
        SqlParam::Integer(target.id),
        SqlParam::Integer(count as i64),
    ]);
    r
}

/// The merged newest-first feed across every conversation, keyset-paginated
/// on an exclusive cursor.
pub open spec fn timeline_sql_spec(has_before: bool) -> Seq<char> {
    "SELECT "@ + MESSAGE_SELECT@ + " FROM messages m WHERE m.ts_millis > 0"@ + (if has_before {
        " AND m.ts_millis < ?"@
    } else {
        Seq::empty()
    }) + " ORDER BY m.ts_millis DESC, m.id DESC LIMIT ?"@
}

/// Build the timeline statement and the values it binds (the cursor, when
/// there is one, then the page size).
pub fn timeline_statement(before_millis: Option<i64>, limit: usize) -> (r: (String, Vec<SqlValue>))
    ensures
        r.0@ == timeline_sql_spec(before_millis is Some),
        params_view(r.1@) == (match before_millis {
            Some(b) => seq![SqlParam::Integer(b)],
            None => Seq::empty(),
        }) + seq![SqlParam::Integer(limit as i64)],
{
    let mut sql: Vec<char> = Vec::new();
    let mut params: Vec<SqlValue> = Vec::new();
    push_str(&mut sql, "SELECT ");
    push_str(&mut sql, MESSAGE_SELECT);
    push_str(&mut sql, " FROM messages m WHERE m.ts_millis > 0");
    match before_millis {
        Some(b) => {
            push_str(&mut sql, " AND m.ts_millis < ?");
            params.push(SqlValue::Integer(b));
        },
        None => {},
    }
    push_str(&mut sql, " ORDER BY m.ts_millis DESC, m.id DESC LIMIT ?");
    params.push(SqlValue::Integer(limit as i64));
    assert(sql@ =~= timeline_sql_spec(before_millis is Some));
    assert(params_view(params@) =~= (match before_millis {
        Some(b) => seq![SqlParam::Integer(b)],
        None => Seq::empty(),
    }) + seq![SqlParam::Integer(limit as i64)]);
    (string_from_chars(sql.as_slice()), params)
}

/// The `has_link` messages of one chat (or all), newest first, enough of
/// them to cover a URL window.
pub open spec fn links_sql_spec(has_chat: bool) -> Seq<char> {
    "SELECT m.id, m.chat_id, m.text, m.ts_millis, m.sender, m.is_from_me, m.chat_name FROM messages m WHERE m.has_link = 1 AND m.text IS NOT NULL"@
        + (if has_chat {
        " AND m.chat_id = ?"@
    } else {
        Seq::empty()
    }) + " ORDER BY m.ts_millis DESC, m.id DESC LIMIT ?"@
}

/// Build the links-hub statement and the values it binds (the chat, when
/// there is one, then the number of messages to fetch for the URL window).
pub fn links_statement(chat_id: Option<i64>, limit: usize, offset: usize) -> (r: (String, Vec<SqlValue>))
    ensures
        r.0@ == links_sql_spec(chat_id is Some),
        params_view(r.1@) == (match chat_id {
            Some(c) => seq![SqlParam::Integer(c)],
            None => Seq::empty(),
        }) + seq![
            SqlParam::Integer(
                (if offset + limit <= usize::MAX {
                    (offset + limit) as usize
                } else {
                    usize::MAX
                }) as i64,
            ),
        ],
{
    let mut sql: Vec<char> = Vec::new();
    let mut params: Vec<SqlValue> = Vec::new();
    push_str(
        &mut sql,
        "SELECT m.id, m.chat_id, m.text, m.ts_millis, m.sender, m.is_from_me, m.chat_name FROM messages m WHERE m.has_link = 1 AND m.text IS NOT NULL",
    );
    match chat_id {
        Some(c) => {
            push_str(&mut sql, " AND m.chat_id = ?");
            params.push(SqlValue::Integer(c));
        },
        None => {},
    }
    push_str(&mut sql, " ORDER BY m.ts_millis DESC, m.id DESC LIMIT ?");
    let n = link_fetch_count(offset, limit);
    params.push(SqlValue::Integer(n as i64));
    assert(sql@ =~= links_sql_spec(chat_id is Some));
    assert(params_view(params@) =~= (match chat_id {
        Some(c) => seq![SqlParam::Integer(c)],
        None => Seq::empty(),
    }) + seq![SqlParam::Integer(n as i64)]);
    (string_from_chars(sql.as_slice()), params)
}

/// The update that records a new watermark (`?1`) and the time of the sync
/// (`?2`); after a full reindex it stamps that time as the last full
/// reindex too.
pub fn watermark_update_sql(full: bool) -> (r: &'static str)
    ensures
        r@ == (if full {
            "UPDATE sync_state SET last_rowid = ?1, last_full_reindex_at = ?2, last_sync_at = ?2 WHERE id = 1"@
        } else {
            "UPDATE sync_state SET last_rowid = ?1, last_sync_at = ?2 WHERE id = 1"@
        }),
{
    if full {
        "UPDATE sync_state SET last_rowid = ?1, last_full_reindex_at = ?2, last_sync_at = ?2 WHERE id = 1"
    } else {
        "UPDATE sync_state SET last_rowid = ?1, last_sync_at = ?2 WHERE id = 1"
    }
}

// ---------------------------------------------------------------------------
// Row decoding
// ---------------------------------------------------------------------------

/// The leading columns of a message row (`MESSAGE_SELECT` order), as read.
#[derive(Debug, Clone)]
pub struct MessageColumns {
    pub id: i64,
    pub guid: String,
    pub chat_id: Option<i64>,
    pub canonical_chat_id: Option<i64>,
    pub chat_identifier: Option<String>,
    pub chat_name: Option<String>,
    pub handle_id: Option<i64>,
    pub sender: Option<String>,
    pub is_from_me: i64,
    pub text: Option<String>,
    pub ts_millis: i64,
    pub has_attachment: i64,
    pub has_photo: i64,
    pub has_link: i64,
    pub service: Option<String>,
    pub msg_type: i64,
}

/// `m` is the message a row decodes to: flags are the non-zero columns, the
/// type code is cut to 32 bits, the instant is rebuilt from the milliseconds.
pub open spec fn decoded_from(c: MessageColumns, m: IndexedMessage) -> bool {
    &&& m.id == c.id
    &&& m.guid@ == c.guid@
    &&& m.chat_id == c.chat_id
    &&& m.canonical_chat_id == c.canonical_chat_id
    &&& opt_view(m.chat_identifier) == opt_view(c.chat_identifier)
    &&& opt_view(m.chat_name) == opt_view(c.chat_name)
    &&& m.handle_id == c.handle_id
    &&& opt_view(m.sender) == opt_view(c.sender)
    &&& m.is_from_me == (c.is_from_me != 0)
    &&& opt_view(m.text) == opt_view(c.text)
    &&& m.timestamp_millis == c.ts_millis
    &&& m.timestamp == instant_from_millis(c.ts_millis)
    &&& m.has_attachment == (c.has_attachment != 0)
    &&& m.has_photo == (c.has_photo != 0)
    &&& m.has_link == (c.has_link != 0)
    &&& opt_view(m.service) == opt_view(c.service)
    &&& m.msg_type == c.msg_type as i32
}

/// Decode the leading columns of a row into a message.
pub fn row_to_message(c: MessageColumns) -> (r: IndexedMessage)
    ensures
        decoded_from(c, r),
{
    IndexedMessage {
        id: c.id,
        guid: c.guid,
        chat_id: c.chat_id,
        canonical_chat_id: c.canonical_chat_id,
        chat_identifier: c.chat_identifier,
        chat_name: c.chat_name,
        handle_id: c.handle_id,
        sender: c.sender,
        is_from_me: c.is_from_me != 0,
        text: c.text,
        timestamp_millis: c.ts_millis,
        timestamp: datetime_from_millis(c.ts_millis),
        has_attachment: c.has_attachment != 0,
        has_photo: c.has_photo != 0,
        has_link: c.has_link != 0,
        service: c.service,
        msg_type: c.msg_type as i32,
    }
}


/// The row stored for a message holds, in each column the decoder reads, the
/// value the upsert bound for that column (by name: the upsert lists the
/// columns in its own order, the decoder in `MESSAGE_SELECT` order).
pub open spec fn stored_columns(row: Seq<SqlParam>, c: MessageColumns) -> bool {
    &&& row.len() == 17
    &&& row[0] == SqlParam::Integer(c.id)
    &&& row[1] == SqlParam::Text(c.guid@)
    &&& row[2] == opt_int(c.chat_id)
    &&& row[3] == opt_int(c.canonical_chat_id)
    &&& row[4] == opt_text(c.chat_identifier)
    &&& row[5] == opt_text(c.chat_name)
    &&& row[6] == opt_int(c.handle_id)
    &&& row[7] == opt_text(c.sender)
    &&& row[8] == opt_text(c.text)
    &&& row[9] == SqlParam::Integer(c.ts_millis)
    &&& row[11] == SqlParam::Integer(c.is_from_me)
    &&& row[12] == SqlParam::Integer(c.has_attachment)
    &&& row[13] == SqlParam::Integer(c.has_photo)
    &&& row[14] == SqlParam::Integer(c.has_link)
    &&& row[15] == opt_text(c.service)
    &&& row[16] == SqlParam::Integer(c.msg_type)
}

/// Two index rows with the same content.
pub open spec fn same_message(a: IndexedMessage, b: IndexedMessage) -> bool {
    &&& a.id == b.id
    &&& a.guid@ == b.guid@
    &&& a.chat_id == b.chat_id
    &&& a.canonical_chat_id == b.canonical_chat_id
    &&& opt_view(a.chat_identifier) == opt_view(b.chat_identifier)
    &&& opt_view(a.chat_name) == opt_view(b.chat_name)
    &&& a.handle_id == b.handle_id
    &&& opt_view(a.sender) == opt_view(b.sender)
    &&& a.is_from_me == b.is_from_me
    &&& opt_view(a.text) == opt_view(b.text)
    &&& a.timestamp_millis == b.timestamp_millis
    &&& a.timestamp == b.timestamp
    &&& a.has_attachment == b.has_attachment
    &&& a.has_photo == b.has_photo
    &&& a.has_link == b.has_link
    &&& opt_view(a.service) == opt_view(b.service)
    &&& a.msg_type == b.msg_type
}

proof fn lemma_opt_text_injective(a: Option<String>, b: Option<String>)
    requires
        opt_text(a) == opt_text(b),
    ensures
        opt_view(a) == opt_view(b),
{
}

/// What the index gives back of a write: a message stored through
/// [`upsert_params`](crate::index_sql::upsert_params) and read back through
/// [`row_to_message`] is the same message, provided its instant is the one
/// its milliseconds denote (the stored instant keeps only milliseconds).
pub proof fn lemma_stored_message_reads_back(m: IndexedMessage, c: MessageColumns, r: IndexedMessage)
    requires
        stored_columns(upsert_row(m), c),
        decoded_from(c, r),
        m.timestamp == instant_from_millis(m.timestamp_millis),
    ensures
        same_message(r, m),
{
    let row = upsert_row(m);
    assert(row[0] == SqlParam::Integer(m.id));
    assert(row[1] == SqlParam::Text(m.guid@));
    assert(c.guid@ == m.guid@);
    lemma_opt_text_injective(c.chat_identifier, m.chat_identifier);
    lemma_opt_text_injective(c.chat_name, m.chat_name);
    lemma_opt_text_injective(c.sender, m.sender);
    lemma_opt_text_injective(c.text, m.text);
    lemma_opt_text_injective(c.service, m.service);
    assert(row[11] == flag(m.is_from_me));
    assert(row[12] == flag(m.has_attachment));
    assert(row[13] == flag(m.has_photo));
    assert(row[14] == flag(m.has_link));
    assert(row[16] == SqlParam::Integer(m.msg_type as i64));
    assert(c.msg_type == m.msg_type as i64);
}

// ---------------------------------------------------------------------------
// Insights
// ---------------------------------------------------------------------------

/// The aggregate queries of the insights view, with the values they share.
#[derive(Debug, Clone)]
pub struct InsightsQueries {
    /// Total, sent and received counts, and the first and last timestamps.
    pub totals: String,
    /// Messages per local calendar day.
    pub by_day: String,
    /// Messages per local hour of day.
    pub by_hour: String,
    /// The ten top inbound correspondents.
    pub top_contacts: String,
    /// The values each of the four binds.
    pub params: Vec<SqlValue>,
}

/// The clause that narrows every aggregate to one chat, when one is asked.
pub open spec fn chat_clause(chat: bool) -> Seq<char> {
    if chat {
        " AND m.chat_id = ?1"@
    } else {
        Seq::empty()
    }
}

pub open spec fn totals_sql_spec(chat: bool) -> Seq<char> {
    "SELECT COUNT(*), COALESCE(SUM(CASE WHEN m.is_from_me = 1 THEN 1 ELSE 0 END), 0), COALESCE(SUM(CASE WHEN m.is_from_me = 0 THEN 1 ELSE 0 END), 0), MIN(CASE WHEN m.ts_millis > 0 THEN m.ts_millis END), MAX(CASE WHEN m.ts_millis > 0 THEN m.ts_millis END) FROM messages m WHERE 1 = 1"@
        + chat_clause(chat)
}

pub open spec fn by_day_sql_spec(chat: bool) -> Seq<char> {
    "SELECT strftime('%Y-%m-%d', m.ts_millis / 1000, 'unixepoch', 'localtime') AS day, COUNT(*) FROM messages m WHERE m.ts_millis > 0"@
        + chat_clause(chat) + " GROUP BY day ORDER BY day"@
}

pub open spec fn by_hour_sql_spec(chat: bool) -> Seq<char> {
    "SELECT CAST(strftime('%H', m.ts_millis / 1000, 'unixepoch', 'localtime') AS INTEGER) AS hour, COUNT(*) FROM messages m WHERE m.ts_millis > 0"@
        + chat_clause(chat) + " GROUP BY hour ORDER BY hour"@
}

pub open spec fn top_contacts_sql_spec(chat: bool) -> Seq<char> {
    "SELECT m.sender, COUNT(*) AS c FROM messages m WHERE m.is_from_me = 0 AND m.sender IS NOT NULL"@
        + chat_clause(chat) + " GROUP BY m.sender ORDER BY c DESC, m.sender ASC LIMIT 10"@
}

fn append_chat_clause(out: &mut Vec<char>, chat: bool)
    ensures
        final(out)@ == old(out)@ + chat_clause(chat),
{
    if chat {
        push_str(out, " AND m.chat_id = ?1");
    } else {
        assert(old(out)@ + chat_clause(chat) =~= old(out)@);
    }
}

/// Build the insights queries for one conversation (`Some`) or the whole
/// corpus (`None`).
pub fn insights_queries(chat_id: Option<i64>) -> (r: InsightsQueries)
    ensures
        r.totals@ == totals_sql_spec(chat_id is Some),
        r.by_day@ == by_day_sql_spec(chat_id is Some),
        r.by_hour@ == by_hour_sql_spec(chat_id is Some),
        r.top_contacts@ == top_contacts_sql_spec(chat_id is Some),
        params_view(r.params@) == (match chat_id {
            Some(c) => seq![SqlParam::Integer(c)],
            None => Seq::empty(),
        }),
{
    let chat = chat_id.is_some();
    let mut totals: Vec<char> = Vec::new();
    push_str(
        &mut totals,
        "SELECT COUNT(*), COALESCE(SUM(CASE WHEN m.is_from_me = 1 THEN 1 ELSE 0 END), 0), COALESCE(SUM(CASE WHEN m.is_from_me = 0 THEN 1 ELSE 0 END), 0), MIN(CASE WHEN m.ts_millis > 0 THEN m.ts_millis END), MAX(CASE WHEN m.ts_millis > 0 THEN m.ts_millis END) FROM messages m WHERE 1 = 1",
    );
    append_chat_clause(&mut totals, chat);

    let mut by_day: Vec<char> = Vec::new();
    push_str(
        &mut by_day,
        "SELECT strftime('%Y-%m-%d', m.ts_millis / 1000, 'unixepoch', 'localtime') AS day, COUNT(*) FROM messages m WHERE m.ts_millis > 0",
    );
    append_chat_clause(&mut by_day, chat);
    push_str(&mut by_day, " GROUP BY day ORDER BY day");

    let mut by_hour: Vec<char> = Vec::new();
    push_str(
        &mut by_hour,
        "SELECT CAST(strftime('%H', m.ts_millis / 1000, 'unixepoch', 'localtime') AS INTEGER) AS hour, COUNT(*) FROM messages m WHERE m.ts_millis > 0",
    );
    append_chat_clause(&mut by_hour, chat);
    push_str(&mut by_hour, " GROUP BY hour ORDER BY hour");

    let mut top: Vec<char> = Vec::new();
    push_str(
        &mut top,
        "SELECT m.sender, COUNT(*) AS c FROM messages m WHERE m.is_from_me = 0 AND m.sender IS NOT NULL",
    );
    append_chat_clause(&mut top, chat);
    push_str(&mut top, " GROUP BY m.sender ORDER BY c DESC, m.sender ASC LIMIT 10");

    let mut params: Vec<SqlValue> = Vec::new();
    match chat_id {
        Some(c) => params.push(SqlValue::Integer(c)),
        None => {},
    }
    assert(params_view(params@) =~= (match chat_id {
        Some(c) => seq![SqlParam::Integer(c)],
        None => Seq::empty(),
    }));
    InsightsQueries {
        totals: string_from_chars(totals.as_slice()),
        by_day: string_from_chars(by_day.as_slice()),
        by_hour: string_from_chars(by_hour.as_slice()),
        top_contacts: string_from_chars(top.as_slice()),
        params,
    }
}

/// The row the totals query returns: total, sent, received, and the first
/// and last positive timestamps (none when there is no such message).
#[derive(Debug, Clone, Copy, PartialEq, Eq)]
pub struct InsightTotals {
    pub total_messages: i64,
    pub sent_count: i64,
    pub received_count: i64,
    pub min_ts: Option<i64>,
    pub max_ts: Option<i64>,
}

pub open spec fn instant_of_opt(ms: Option<i64>) -> Option<UtcTime> {
    match ms {
        Some(v) => instant_from_millis(v),
        None => None,
    }
}

/// Assemble the insights from the four aggregates: the counts as read, the
/// first and last timestamps as instants, the histograms and the ranking as
/// returned.
pub fn assemble_insights(
    totals: InsightTotals,
    by_day: Vec<DayCount>,
    by_hour: Vec<HourCount>,
    top_contacts: Vec<ContactCount>,
) -> (r: InsightsData)
    ensures
        r.total_messages == totals.total_messages,
        r.sent_count == totals.sent_count,
        r.received_count == totals.received_count,
        r.first_message == instant_of_opt(totals.min_ts),
        r.last_message == instant_of_opt(totals.max_ts),
        r.by_day@ == by_day@,
        r.by_hour@ == by_hour@,
        r.top_contacts@ == top_contacts@,
{
    let first_message = match totals.min_ts {
        Some(v) => datetime_from_millis(v),
        None => None,
    };
    let last_message = match totals.max_ts {
        Some(v) => datetime_from_millis(v),
        None => None,
    };
    InsightsData {
        total_messages: totals.total_messages,
        sent_count: totals.sent_count,
        received_count: totals.received_count,
        first_message,
        last_message,
        by_day,
        by_hour,
        top_contacts,
    }
}

// ---------------------------------------------------------------------------
// Vectors
// ---------------------------------------------------------------------------

/// Upsert of one stored embedding: id, little-endian `f32` blob, its
/// dimensionality and the model tag.
pub const VECTOR_UPSERT_SQL: &'static str = "INSERT INTO message_vectors (id, embedding, dim, model) VALUES (?1, ?2, ?3, ?4) ON CONFLICT(id) DO UPDATE SET embedding = excluded.embedding, dim = excluded.dim, model = excluded.model";

/// The messages with embeddable text and no stored vector yet, oldest source
/// row first, at most `?1`.
pub const MISSING_VECTORS_SQL: &'static str = "SELECT m.id, m.text FROM messages m LEFT JOIN message_vectors v ON v.id = m.id WHERE v.id IS NULL AND m.text IS NOT NULL AND m.text <> '' ORDER BY m.id ASC LIMIT ?1";

/// How many messages with embeddable text still lack a vector.
pub const MISSING_VECTOR_COUNT_SQL: &'static str = "SELECT COUNT(*) FROM messages m LEFT JOIN message_vectors v ON v.id = m.id WHERE v.id IS NULL AND m.text IS NOT NULL AND m.text <> ''";

/// Whether a column of this name is among the existing ones.
pub open spec fn has_column(existing: Seq<String>, name: Seq<char>) -> bool {
    exists|i: int| 0 <= i < existing.len() && existing[i]@ == name
}

fn column_present(existing: &Vec<String>, name: &str) -> (r: bool)
    ensures
        r == has_column(existing@, name@),
{
    let mut i: usize = 0;
    while i < existing.len()
        invariant
            i <= existing@.len(),
            forall|j: int| 0 <= j < i ==> existing@[j]@ != name@,
        decreases existing@.len() - i,
    {
        let c = chars_of(existing[i].as_str());
        if chars_eq_str(c.as_slice(), name) {
            return true;
        }
        i = i + 1;
    }
    false
}

/// The migration of a vector table made before dimensionality and model
/// were recorded: which of the `dim` and `model` columns must be added,
/// given the columns it has (nothing, on a current table).
pub fn vector_columns_to_add(existing: &Vec<String>) -> (r: (bool, bool))
    ensures
        r.0 == !has_column(existing@, "dim"@),
        r.1 == !has_column(existing@, "model"@),
{
    (!column_present(existing, "dim"), !column_present(existing, "model"))
}


// ---------------------------------------------------------------------------
// What the links and totals statements read
// ---------------------------------------------------------------------------

/// The links statement reads only messages flagged `has_link` that have a
/// text (of the asked chat, when there is one), newest first: its conditions
/// are `m.has_link = 1`, `m.text IS NOT NULL` and, for one chat,
/// `m.chat_id = ?`, so every message it returns has a stored link flag, and
/// for a message indexed with that flag set exactly when its text holds a
/// URL (as `to_indexed` sets it) the text holds one, which is what covering
/// the URL window needs.
pub proof fn lemma_links_query_reads_only_link_messages(has_chat: bool, m: IndexedMessage, chat: Option<i64>)
    ensures
        ({
            let conds = seq!["m.has_link = 1"@, "m.text IS NOT NULL"@] + (if has_chat {
                seq!["m.chat_id = ?"@]
            } else {
                Seq::<Seq<char>>::empty()
            });
            &&& links_sql_spec(has_chat)
                == "SELECT m.id, m.chat_id, m.text, m.ts_millis, m.sender, m.is_from_me, m.chat_name FROM messages m"@
                + where_clause(conds) + " ORDER BY m.ts_millis DESC, m.id DESC LIMIT ?"@
            &&& all_hold(conds, m, chat) ==> m.has_link && m.text is Some && (has_chat ==> chat is Some
                && m.chat_id == chat)
            &&& (all_hold(conds, m, chat) && m.has_link == (match m.text {
                Some(t) => url_matches(t@).len() > 0,
                None => false,
            })) ==> (m.text matches Some(t) && url_matches(t@).len() > 0)
        }),
{
    reveal_strlit("m.has_link = 1");
    reveal_strlit("m.text IS NOT NULL");
    reveal_strlit("m.chat_id = ?");
    reveal_strlit("m.has_attachment = 1");
    reveal_strlit("m.has_photo = 1");
    reveal_strlit("m.is_from_me = 1");
    reveal_strlit("m.is_from_me = 0");
    reveal_strlit("m.is_from_me = ?");
    reveal_strlit(" WHERE ");
    reveal_strlit(" AND ");
    reveal_strlit(" AND m.chat_id = ?");
    reveal_strlit(" ORDER BY m.ts_millis DESC, m.id DESC LIMIT ?");
    reveal_strlit("SELECT m.id, m.chat_id, m.text, m.ts_millis, m.sender, m.is_from_me, m.chat_name FROM messages m");
    reveal_strlit("SELECT m.id, m.chat_id, m.text, m.ts_millis, m.sender, m.is_from_me, m.chat_name FROM messages m WHERE m.has_link = 1 AND m.text IS NOT NULL");
    let tail = if has_chat { seq!["m.chat_id = ?"@] } else { Seq::<Seq<char>>::empty() };
    let conds = seq!["m.has_link = 1"@, "m.text IS NOT NULL"@] + tail;
    assert(conds[0] == "m.has_link = 1"@);
    assert(conds[1] == "m.text IS NOT NULL"@);
    assert(conds.drop_first() =~= seq!["m.text IS NOT NULL"@] + tail);
    lemma_and_conditions_concat(seq!["m.text IS NOT NULL"@], tail);
    lemma_and_condition_one("m.text IS NOT NULL"@);
    if has_chat {
        lemma_and_condition_one("m.chat_id = ?"@);
        assert(conds[2] == "m.chat_id = ?"@);
    } else {
        assert(and_conditions(tail) =~= Seq::<char>::empty());
    }
    assert(links_sql_spec(has_chat)
        =~= "SELECT m.id, m.chat_id, m.text, m.ts_millis, m.sender, m.is_from_me, m.chat_name FROM messages m"@
        + where_clause(conds) + " ORDER BY m.ts_millis DESC, m.id DESC LIMIT ?"@);
    if all_hold(conds, m, chat) {
        assert(condition_holds(conds[0], m, chat));
        assert(condition_holds(conds[1], m, chat));
        assert(("m.text IS NOT NULL"@).len() != ("m.has_attachment = 1"@).len());
        if has_chat {
            assert(condition_holds(conds[2], m, chat));
        }
    }
}

/// The totals query counts what its columns are read as: it selects the
/// number of messages, then a count of the messages on which
/// `m.is_from_me = 1` holds, then a count of those on which
/// `m.is_from_me = 0` holds; over any messages it reads, those two counts are
/// the numbers of messages the owner sent and of messages received.
pub proof fn lemma_totals_count_sent_and_received(chat: bool, rows: Seq<IndexedMessage>)
    ensures
        ({
            let sent = "m.is_from_me = 1"@;
            let received = "m.is_from_me = 0"@;
            &&& starts_with(
                totals_sql_spec(chat),
                "SELECT COUNT(*), "@ + count_column(sent) + ", "@ + count_column(received) + ", "@,
            )
            &&& count_column_value(sent, rows) == count_rows(rows, |m: IndexedMessage| m.is_from_me)
            &&& count_column_value(received, rows) == count_rows(rows, |m: IndexedMessage| !m.is_from_me)
        }),
{
    reveal_strlit("m.is_from_me = 1");
    reveal_strlit("m.is_from_me = 0");
    reveal_strlit("m.has_attachment = 1");
    reveal_strlit("m.has_photo = 1");
    reveal_strlit("m.has_link = 1");
    reveal_strlit("SELECT COUNT(*), ");
    reveal_strlit("COALESCE(SUM(CASE WHEN ");
    reveal_strlit(" THEN 1 ELSE 0 END), 0)");
    reveal_strlit(", ");
    reveal_strlit("SELECT COUNT(*), COALESCE(SUM(CASE WHEN m.is_from_me = 1 THEN 1 ELSE 0 END), 0), COALESCE(SUM(CASE WHEN m.is_from_me = 0 THEN 1 ELSE 0 END), 0), MIN(CASE WHEN m.ts_millis > 0 THEN m.ts_millis END), MAX(CASE WHEN m.ts_millis > 0 THEN m.ts_millis END) FROM messages m WHERE 1 = 1");
    let sent = "m.is_from_me = 1"@;
    let received = "m.is_from_me = 0"@;
    let prefix = "SELECT COUNT(*), "@ + count_column(sent) + ", "@ + count_column(received) + ", "@;
    let t = totals_sql_spec(chat);
    assert(prefix.len() <= t.len());
    assert(t.subrange(0, prefix.len() as int) =~= prefix);
    let ps = |m: IndexedMessage| condition_holds(sent, m, None);
    let pr = |m: IndexedMessage| condition_holds(received, m, None);
    assert forall|m: IndexedMessage| #[trigger] ps(m) == m.is_from_me by {}
    assert forall|m: IndexedMessage| #[trigger] pr(m) == !m.is_from_me by {
        assert(received[15] != sent[15]);
    }
    lemma_count_rows_agree(rows, ps, |m: IndexedMessage| m.is_from_me);
    lemma_count_rows_agree(rows, pr, |m: IndexedMessage| !m.is_from_me);
}

} // verus!
