//! The search index's query-building and row-shaping logic: the SQL filter
//! clauses and their bound values, the upsert row of a message, and the
//! shaping of link, context and watermark results. Running the statements is
//! the caller's business; everything decided here is verified.

use vstd::prelude::*;
use crate::contacts::{clone_opt_string, opt_view};
use crate::index_model::{IndexedMessage, LinkRow};
use crate::models::ScannedMessage;
use crate::query::{Filters, FiltersView, strings_view};
use crate::text::{chars_of, parse_i64, parse_i64_spec, push_chars, push_str, string_from_chars, to_lowercase, unicode_lower};
use crate::time::{datetime_from_millis, instant_from_millis, rfc3339_text, UtcTime};
use crate::sql_model::{all_hold, and_conditions, condition_holds, lemma_and_condition_one, lemma_and_conditions_concat};
use crate::urls::{extract_urls, lemma_detection_agrees_with_extraction, url_match_shape, url_matches, urls_of};

verus! {

/// A value bound to a `?` placeholder.
#[derive(Debug, Clone, PartialEq)]
pub enum SqlValue {
    Null,
    Integer(i64),
    Text(String),
}

/// The content of a [`SqlValue`].
pub enum SqlParam {
    Null,
    Integer(i64),
    Text(Seq<char>),
}

impl View for SqlValue {
    type V = SqlParam;

    open spec fn view(&self) -> SqlParam {
        match self {
            SqlValue::Null => SqlParam::Null,
            SqlValue::Integer(i) => SqlParam::Integer(*i),
            SqlValue::Text(s) => SqlParam::Text(s@),
        }
    }
}

pub open spec fn params_view(v: Seq<SqlValue>) -> Seq<SqlParam> {
    v.map_values(|x: SqlValue| x@)
}

/// The columns selected (in order) for decoding an indexed message row.
pub const MESSAGE_SELECT: &'static str = "m.id, m.guid, m.chat_id, m.canonical_chat_id, m.chat_identifier, m.chat_name, m.handle_id, m.sender, m.is_from_me, m.text, m.ts_millis, m.ts_utc, m.has_attachment, m.has_photo, m.has_link, m.service, m.msg_type";

/// Upsert statement for the denormalized `messages` table (17 bound values,
/// in the order of [`upsert_params`]).
pub const UPSERT_SQL: &'static str = "INSERT INTO messages (id, guid, chat_id, canonical_chat_id, chat_identifier, chat_name, handle_id, sender, text, ts_millis, ts_utc, is_from_me, has_attachment, has_photo, has_link, service, msg_type) VALUES (?1,?2,?3,?4,?5,?6,?7,?8,?9,?10,?11,?12,?13,?14,?15,?16,?17) ON CONFLICT(id) DO UPDATE SET guid=excluded.guid, chat_id=excluded.chat_id, canonical_chat_id=excluded.canonical_chat_id, chat_identifier=excluded.chat_identifier, chat_name=excluded.chat_name, handle_id=excluded.handle_id, sender=excluded.sender, text=excluded.text, ts_millis=excluded.ts_millis, ts_utc=excluded.ts_utc, is_from_me=excluded.is_from_me, has_attachment=excluded.has_attachment, has_photo=excluded.has_photo, has_link=excluded.has_link, service=excluded.service, msg_type=excluded.msg_type";

// ---------------------------------------------------------------------------
// Filter clauses
// ---------------------------------------------------------------------------

/// A character that `LIKE` gives a meaning of its own: the two wildcards,
/// and `\`, the escape character the filter clauses declare.
pub open spec fn is_like_special(c: char) -> bool {
    c == '%' || c == '_' || c == '\\'
}

/// `s` with each `%`, `_` and `\` preceded by `\`, so that
/// `LIKE ? ESCAPE '\'` matches it literally.
pub open spec fn escape_like(s: Seq<char>) -> Seq<char>
    decreases s.len(),
{
    if s.len() == 0 {
        Seq::empty()
    } else if is_like_special(s.last()) {
        escape_like(s.drop_last()) + seq!['\\', s.last()]
    } else {
        escape_like(s.drop_last()).push(s.last())
    }
}

/// `%value%`, lowercased and with `LIKE`'s wildcards escaped, for a
/// case-insensitive contains-match.
pub open spec fn like_contains(v: Seq<char>) -> Seq<char> {
    seq!['%'] + escape_like(unicode_lower(v)) + seq!['%']
}

/// `%value%` (lowercased, wildcards escaped) for a case-insensitive `LIKE`
/// contains-match: a `%` or `_` in the value matches only itself.
pub fn contains(value: &str) -> (r: String)
    ensures
        r@ == like_contains(value@),
{
    let lower = to_lowercase(value);
    let v = chars_of(lower.as_str());
    let mut out: Vec<char> = Vec::new();
    out.push('%');
    let mut i: usize = 0;
    assert(v@.take(0) =~= Seq::<char>::empty());
    while i < v.len()
        invariant
            i <= v@.len(),
            out@ == seq!['%'] + escape_like(v@.take(i as int)),
        decreases v@.len() - i,
    {
        let c = v[i];
        assert(v@.take(i + 1).drop_last() =~= v@.take(i as int));
        if c == '%' || c == '_' || c == '\\' {
            out.push('\\');
            out.push(c);
            assert(out@ =~= seq!['%'] + escape_like(v@.take(i + 1)));
        } else {
            out.push(c);
            assert(out@ =~= seq!['%'] + escape_like(v@.take(i + 1)));
        }
        i = i + 1;
    }
    assert(v@.take(v@.len() as int) =~= v@);
    out.push('%');
    assert(out@ =~= like_contains(value@));
    string_from_chars(out.as_slice())
}

pub open spec fn from_clause() -> Seq<char> {
    " AND m.sender IS NOT NULL AND lower(m.sender) LIKE ? ESCAPE '\\'"@
}

pub open spec fn in_clause() -> Seq<char> {
    " AND (lower(COALESCE(m.chat_name,'')) LIKE ? ESCAPE '\\' OR lower(COALESCE(m.chat_identifier,'')) LIKE ? ESCAPE '\\' OR m.chat_id = ? OR m.canonical_chat_id = ?)"@
}

pub open spec fn before_clause() -> Seq<char> {
    " AND m.ts_millis > 0 AND m.ts_millis < ?"@
}

pub open spec fn after_clause() -> Seq<char> {
    " AND m.ts_millis >= ?"@
}

pub open spec fn has_attachment_clause() -> Seq<char> {
    " AND m.has_attachment = 1"@
}

pub open spec fn has_photo_clause() -> Seq<char> {
    " AND m.has_photo = 1"@
}

pub open spec fn has_link_clause() -> Seq<char> {
    " AND m.has_link = 1"@
}

pub open spec fn from_me_clause() -> Seq<char> {
    " AND m.is_from_me = ?"@
}

/// `s` repeated `n` times.
pub open spec fn repeat(s: Seq<char>, n: nat) -> Seq<char>
    decreases n,
{
    if n == 0 {
        Seq::empty()
    } else {
        repeat(s, (n - 1) as nat) + s
    }
}

/// The numeric reading of an `in:` value (its chat id), or `i64::MIN` (which
/// matches no chat) when it is not a number.
pub open spec fn chat_number(v: Seq<char>) -> i64 {
    match parse_i64_spec(v) {
        Some(n) => n,
        None => i64::MIN,
    }
}

/// The values bound by the `from:` clauses.
pub open spec fn from_params(vs: Seq<Seq<char>>) -> Seq<SqlParam> {
    vs.map_values(|v: Seq<char>| SqlParam::Text(like_contains(v)))
}

/// The values bound by the `in:` clauses: name and identifier patterns, then
/// the chat id twice, for each value.
pub open spec fn in_params(vs: Seq<Seq<char>>) -> Seq<SqlParam>
    decreases vs.len(),
{
    if vs.len() == 0 {
        Seq::empty()
    } else {
        let v = vs.last();
        in_params(vs.drop_last()) + seq![
            SqlParam::Text(like_contains(v)),
            SqlParam::Text(like_contains(v)),
            SqlParam::Integer(chat_number(v)),
            SqlParam::Integer(chat_number(v)),
        ]
    }
}

/// The ` AND …` SQL of a filter set, in a fixed order.
pub open spec fn filter_sql(f: FiltersView) -> Seq<char> {
    repeat(from_clause(), f.from.len()) + repeat(in_clause(), f.in_chat.len()) + (if f.before is Some {
        before_clause()
    } else {
        Seq::empty()
    }) + (if f.after is Some {
        after_clause()
    } else {
        Seq::empty()
    }) + (if f.has_attachment {
        has_attachment_clause()
    } else {
        Seq::empty()
    }) + (if f.has_photo {
        has_photo_clause()
    } else {
        Seq::empty()
    }) + (if f.has_link {
        has_link_clause()
    } else {
        Seq::empty()
    }) + (if f.is_from_me is Some {
        from_me_clause()
    } else {
        Seq::empty()
    })
}

/// The values bound by [`filter_sql`], in placeholder order.
pub open spec fn filter_params(f: FiltersView) -> Seq<SqlParam> {
    from_params(f.from) + in_params(f.in_chat) + (match f.before {
        Some(b) => seq![SqlParam::Integer(b)],
        None => Seq::empty(),
    }) + (match f.after {
        Some(a) => seq![SqlParam::Integer(a)],
        None => Seq::empty(),
    }) + (match f.is_from_me {
        Some(b) => seq![SqlParam::Integer(if b { 1 } else { 0 })],
        None => Seq::empty(),
    })
}

proof fn lemma_params_push(v: Seq<SqlValue>, x: SqlValue)
    ensures
        params_view(v.push(x)) == params_view(v).push(x@),
{
    assert(params_view(v.push(x)) =~= params_view(v).push(x@));
}

/// Build the ` AND …` filter SQL and its bound values from [`Filters`].
pub fn build_filter_clauses(filters: &Filters) -> (r: (String, Vec<SqlValue>))
    ensures
        r.0@ == filter_sql(filters@),
        params_view(r.1@) == filter_params(filters@),
{
    let ghost f = filters@;
    let mut sql: Vec<char> = Vec::new();
    let mut params: Vec<SqlValue> = Vec::new();

    let mut i: usize = 0;
    assert(params_view(params@) =~= Seq::<SqlParam>::empty());
    assert(f.from.take(0) =~= Seq::<Seq<char>>::empty());
    while i < filters.from.len()
        invariant
            i <= filters.from@.len(),
            f == filters@,
            sql@ == repeat(from_clause(), i as nat),
            params_view(params@) == from_params(f.from.take(i as int)),
        decreases filters.from@.len() - i,
    {
        push_str(&mut sql, " AND m.sender IS NOT NULL AND lower(m.sender) LIKE ? ESCAPE '\\'");
        let v = SqlValue::Text(contains(filters.from[i].as_str()));
        proof {
            lemma_params_push(params@, v);
        }
        params.push(v);
        i = i + 1;
        assert(from_params(f.from.take(i as int)) =~= from_params(f.from.take(i - 1)).push(
            SqlParam::Text(like_contains(f.from[i - 1])),
        ));
    }
    assert(f.from.take(f.from.len() as int) =~= f.from);

    let ghost p0 = params_view(params@);
    let ghost s0 = sql@;
    let mut j: usize = 0;
    assert(f.in_chat.take(0) =~= Seq::<Seq<char>>::empty());
    assert(p0 + in_params(f.in_chat.take(0)) =~= p0);
    assert(s0 + repeat(in_clause(), 0) =~= s0);
    while j < filters.in_chat.len()
        invariant
            j <= filters.in_chat@.len(),
            f == filters@,
            sql@ == s0 + repeat(in_clause(), j as nat),
            params_view(params@) == p0 + in_params(f.in_chat.take(j as int)),
        decreases filters.in_chat@.len() - j,
    {
        let chat = filters.in_chat[j].as_str();
        push_str(
            &mut sql,
            " AND (lower(COALESCE(m.chat_name,'')) LIKE ? ESCAPE '\\' OR lower(COALESCE(m.chat_identifier,'')) LIKE ? ESCAPE '\\' OR m.chat_id = ? OR m.canonical_chat_id = ?)",
        );
        let like = contains(chat);
        let numeric = match parse_i64(chat) {
            Some(n) => n,
            None => i64::MIN,
        };
        let ghost before = params@;
        let a = SqlValue::Text(like.clone());
        let b = SqlValue::Text(like);
        params.push(a);
        params.push(b);
        params.push(SqlValue::Integer(numeric));
        params.push(SqlValue::Integer(numeric));
        j = j + 1;
        proof {
            let t = f.in_chat.take(j as int);
            assert(t.drop_last() =~= f.in_chat.take(j - 1));
            assert(t.last() == chat@);
            assert(params_view(params@) =~= params_view(before) + seq![
                SqlParam::Text(like_contains(chat@)),
                SqlParam::Text(like_contains(chat@)),
                SqlParam::Integer(chat_number(chat@)),
                SqlParam::Integer(chat_number(chat@)),
            ]);
            assert(sql@ =~= s0 + repeat(in_clause(), j as nat));
        }
    }
    assert(f.in_chat.take(f.in_chat.len() as int) =~= f.in_chat);

    let ghost p1 = params_view(params@);
    let ghost s1 = sql@;
    match filters.before {
        Some(b) => {
            push_str(&mut sql, " AND m.ts_millis > 0 AND m.ts_millis < ?");
            proof {
                lemma_params_push(params@, SqlValue::Integer(b));
            }
            params.push(SqlValue::Integer(b));
        },
        None => {},
    }
    match filters.after {
        Some(a) => {
            push_str(&mut sql, " AND m.ts_millis >= ?");
            proof {
                lemma_params_push(params@, SqlValue::Integer(a));
            }
            params.push(SqlValue::Integer(a));
        },
        None => {},
    }
    let ghost s2 = sql@;
    if filters.has_attachment {
        push_str(&mut sql, " AND m.has_attachment = 1");
    }
    if filters.has_photo {
        push_str(&mut sql, " AND m.has_photo = 1");
    }
    if filters.has_link {
        push_str(&mut sql, " AND m.has_link = 1");
    }
    let ghost p2 = params_view(params@);
    match filters.is_from_me {
        Some(from_me) => {
            push_str(&mut sql, " AND m.is_from_me = ?");
            let v = SqlValue::Integer(if from_me { 1 } else { 0 });
            proof {
                lemma_params_push(params@, v);
            }
            params.push(v);
        },
        None => {},
    }
    assert(sql@ =~= filter_sql(f));
    assert(params_view(params@) =~= filter_params(f));
    (string_from_chars(sql.as_slice()), params)
}

} // verus!

verus! {

/// The number of `?` placeholders in `s`.
pub open spec fn placeholders(s: Seq<char>) -> nat
    decreases s.len(),
{
    if s.len() == 0 {
        0
    } else {
        placeholders(s.drop_first()) + (if s[0] == '?' {
            1nat
        } else {
            0nat
        })
    }
}

proof fn lemma_placeholders_concat(a: Seq<char>, b: Seq<char>)
    ensures
        placeholders(a + b) == placeholders(a) + placeholders(b),
    decreases a.len(),
{
    if a.len() == 0 {
        assert(a + b =~= b);
    } else {
        lemma_placeholders_concat(a.drop_first(), b);
        assert((a + b).drop_first() =~= a.drop_first() + b);
    }
}

proof fn lemma_placeholders_repeat(s: Seq<char>, n: nat)
    ensures
        placeholders(repeat(s, n)) == n * placeholders(s),
    decreases n,
{
    if n > 0 {
        lemma_placeholders_repeat(s, (n - 1) as nat);
        lemma_placeholders_concat(repeat(s, (n - 1) as nat), s);
        assert(n * placeholders(s) == (n - 1) * placeholders(s) + placeholders(s)) by (nonlinear_arith);
    } else {
        assert(repeat(s, 0) =~= Seq::<char>::empty());
    }
}

proof fn lemma_no_placeholder(s: Seq<char>)
    requires
        forall|i: int| 0 <= i < s.len() ==> s[i] != '?',
    ensures
        placeholders(s) == 0,
    decreases s.len(),
{
    if s.len() > 0 {
        assert forall|i: int| 0 <= i < s.drop_first().len() implies s.drop_first()[i] != '?' by {
            assert(s.drop_first()[i] == s[i + 1]);
        }
        lemma_no_placeholder(s.drop_first());
    }
}

#[verifier::rlimit(50)]
proof fn lemma_from_clause_placeholders()
    ensures
        placeholders(from_clause()) == 1,
{
    let head = " AND m.sender IS NOT NULL AND lower(m.sender) LIKE "@;
    let tail = " ESCAPE '\\'"@;
    reveal_strlit(" AND m.sender IS NOT NULL AND lower(m.sender) LIKE ");
    reveal_strlit(" ESCAPE '\\'");
    reveal_strlit(" AND m.sender IS NOT NULL AND lower(m.sender) LIKE ? ESCAPE '\\'");
    assert(from_clause() =~= head + seq!['?'] + tail);
    lemma_no_placeholder(head);
    lemma_no_placeholder(tail);
    lemma_placeholders_concat(head, seq!['?']);
    lemma_placeholders_concat(head + seq!['?'], tail);
    reveal_with_fuel(placeholders, 2);
}

#[verifier::rlimit(80)]
proof fn lemma_in_clause_placeholders()
    ensures
        placeholders(in_clause()) == 4,
{
    let a = " AND (lower(COALESCE(m.chat_name,'')) LIKE "@;
    let b = " ESCAPE '\\' OR lower(COALESCE(m.chat_identifier,'')) LIKE "@;
    let c = " ESCAPE '\\' OR m.chat_id = "@;
    let d = " OR m.canonical_chat_id = "@;
    let e = ")"@;
    reveal_strlit(" AND (lower(COALESCE(m.chat_name,'')) LIKE ");
    reveal_strlit(" ESCAPE '\\' OR lower(COALESCE(m.chat_identifier,'')) LIKE ");
    reveal_strlit(" ESCAPE '\\' OR m.chat_id = ");
    reveal_strlit(" OR m.canonical_chat_id = ");
    reveal_strlit(")");
    reveal_strlit(" AND (lower(COALESCE(m.chat_name,'')) LIKE ? ESCAPE '\\' OR lower(COALESCE(m.chat_identifier,'')) LIKE ? ESCAPE '\\' OR m.chat_id = ? OR m.canonical_chat_id = ?)");
    let q = seq!['?'];
    assert(in_clause() =~= a + q + b + q + c + q + d + q + e);
    lemma_no_placeholder(a);
    lemma_no_placeholder(b);
    lemma_no_placeholder(c);
    lemma_no_placeholder(d);
    lemma_no_placeholder(e);
    reveal_with_fuel(placeholders, 2);
    assert(placeholders(q) == 1);
    lemma_placeholders_concat(a, q);
    lemma_placeholders_concat(a + q, b);
    lemma_placeholders_concat(a + q + b, q);
    lemma_placeholders_concat(a + q + b + q, c);
    lemma_placeholders_concat(a + q + b + q + c, q);
    lemma_placeholders_concat(a + q + b + q + c + q, d);
    lemma_placeholders_concat(a + q + b + q + c + q + d, q);
    lemma_placeholders_concat(a + q + b + q + c + q + d + q, e);
}

#[verifier::rlimit(50)]
proof fn lemma_other_clause_placeholders()
    ensures
        placeholders(before_clause()) == 1,
        placeholders(after_clause()) == 1,
        placeholders(has_attachment_clause()) == 0,
        placeholders(has_photo_clause()) == 0,
        placeholders(has_link_clause()) == 0,
        placeholders(from_me_clause()) == 1,
{
    let q = seq!['?'];
    reveal_with_fuel(placeholders, 2);
    assert(placeholders(q) == 1);
    let b = " AND m.ts_millis > 0 AND m.ts_millis < "@;
    reveal_strlit(" AND m.ts_millis > 0 AND m.ts_millis < ");
    reveal_strlit(" AND m.ts_millis > 0 AND m.ts_millis < ?");
    assert(before_clause() =~= b + q);
    lemma_no_placeholder(b);
    lemma_placeholders_concat(b, q);
    let a = " AND m.ts_millis >= "@;
    reveal_strlit(" AND m.ts_millis >= ");
    reveal_strlit(" AND m.ts_millis >= ?");
    assert(after_clause() =~= a + q);
    lemma_no_placeholder(a);
    lemma_placeholders_concat(a, q);
    reveal_strlit(" AND m.has_attachment = 1");
    lemma_no_placeholder(has_attachment_clause());
    reveal_strlit(" AND m.has_photo = 1");
    lemma_no_placeholder(has_photo_clause());
    reveal_strlit(" AND m.has_link = 1");
    lemma_no_placeholder(has_link_clause());
    let m = " AND m.is_from_me = "@;
    reveal_strlit(" AND m.is_from_me = ");
    reveal_strlit(" AND m.is_from_me = ?");
    assert(from_me_clause() =~= m + q);
    lemma_no_placeholder(m);
    lemma_placeholders_concat(m, q);
}

proof fn lemma_in_params_len(vs: Seq<Seq<char>>)
    ensures
        in_params(vs).len() == 4 * vs.len(),
    decreases vs.len(),
{
    if vs.len() > 0 {
        lemma_in_params_len(vs.drop_last());
    }
}

/// The filter SQL and its values always agree: the clauses carry exactly as
/// many `?` placeholders as there are bound values, whatever the filters.
pub proof fn lemma_filter_placeholders_match_params(f: FiltersView)
    ensures
        placeholders(filter_sql(f)) == filter_params(f).len(),
{
    lemma_from_clause_placeholders();
    lemma_in_clause_placeholders();
    lemma_other_clause_placeholders();
    lemma_in_params_len(f.in_chat);
    let e: Seq<char> = Seq::empty();
    assert(placeholders(e) == 0);
    let p1 = repeat(from_clause(), f.from.len());
    let p2 = repeat(in_clause(), f.in_chat.len());
    let p3 = if f.before is Some { before_clause() } else { e };
    let p4 = if f.after is Some { after_clause() } else { e };
    let p5 = if f.has_attachment { has_attachment_clause() } else { e };
    let p6 = if f.has_photo { has_photo_clause() } else { e };
    let p7 = if f.has_link { has_link_clause() } else { e };
    let p8 = if f.is_from_me is Some { from_me_clause() } else { e };
    lemma_placeholders_repeat(from_clause(), f.from.len());
    lemma_placeholders_repeat(in_clause(), f.in_chat.len());
    lemma_placeholders_concat(p1, p2);
    lemma_placeholders_concat(p1 + p2, p3);
    lemma_placeholders_concat(p1 + p2 + p3, p4);
    lemma_placeholders_concat(p1 + p2 + p3 + p4, p5);
    lemma_placeholders_concat(p1 + p2 + p3 + p4 + p5, p6);
    lemma_placeholders_concat(p1 + p2 + p3 + p4 + p5 + p6, p7);
    lemma_placeholders_concat(p1 + p2 + p3 + p4 + p5 + p6 + p7, p8);
    assert(filter_sql(f) == p1 + p2 + p3 + p4 + p5 + p6 + p7 + p8);
}

} // verus!

verus! {

// ---------------------------------------------------------------------------
// Rows
// ---------------------------------------------------------------------------

pub open spec fn opt_int(o: Option<i64>) -> SqlParam {
    match o {
        Some(i) => SqlParam::Integer(i),
        None => SqlParam::Null,
    }
}

pub open spec fn opt_text(o: Option<String>) -> SqlParam {
    match o {
        Some(s) => SqlParam::Text(s@),
        None => SqlParam::Null,
    }
}

pub open spec fn flag(b: bool) -> SqlParam {
    SqlParam::Integer(if b { 1 } else { 0 })
}

/// The 17 values one upsert binds, in `UPSERT_SQL` order; the instant is
/// stored as RFC 3339 text.
pub open spec fn upsert_row(m: IndexedMessage) -> Seq<SqlParam> {
    seq![
        SqlParam::Integer(m.id),
        SqlParam::Text(m.guid@),
        opt_int(m.chat_id),
        opt_int(m.canonical_chat_id),
        opt_text(m.chat_identifier),
        opt_text(m.chat_name),
        opt_int(m.handle_id),
        opt_text(m.sender),
        opt_text(m.text),
        SqlParam::Integer(m.timestamp_millis),
        match m.timestamp {
            Some(t) => SqlParam::Text(rfc3339_text(t.spec_secs(), t.spec_nanos())),
            None => SqlParam::Null,
        },
        flag(m.is_from_me),
        flag(m.has_attachment),
        flag(m.has_photo),
        flag(m.has_link),
        opt_text(m.service),
        SqlParam::Integer(m.msg_type as i64),
    ]
}

fn opt_str_value(o: &Option<String>) -> (r: SqlValue)
    ensures
        r@ == opt_text(*o),
{
    match o {
        Some(s) => SqlValue::Text(s.clone()),
        None => SqlValue::Null,
    }
}

fn opt_i64_value(o: Option<i64>) -> (r: SqlValue)
    ensures
        r@ == opt_int(o),
{
    match o {
        Some(i) => SqlValue::Integer(i),
        None => SqlValue::Null,
    }
}

fn flag_value(b: bool) -> (r: SqlValue)
    ensures
        r@ == flag(b),
{
    SqlValue::Integer(if b { 1 } else { 0 })
}

/// Build the values for one upsert (matches `UPSERT_SQL` order).
pub fn upsert_params(m: &IndexedMessage) -> (r: Vec<SqlValue>)
    ensures
        params_view(r@) == upsert_row(*m),
{
    let ts = match m.timestamp {
        Some(t) => SqlValue::Text(t.to_rfc3339()),
        None => SqlValue::Null,
    };
    let r = vec![
        SqlValue::Integer(m.id),
        SqlValue::Text(m.guid.clone()),
        opt_i64_value(m.chat_id),
        opt_i64_value(m.canonical_chat_id),
        opt_str_value(&m.chat_identifier),
        opt_str_value(&m.chat_name),
        opt_i64_value(m.handle_id),
        opt_str_value(&m.sender),
        opt_str_value(&m.text),
        SqlValue::Integer(m.timestamp_millis),
        ts,
        flag_value(m.is_from_me),
        flag_value(m.has_attachment),
        flag_value(m.has_photo),
        flag_value(m.has_link),
        opt_str_value(&m.service),
        SqlValue::Integer(m.msg_type as i64),
    ];
    assert(params_view(r@) =~= upsert_row(*m));
    r
}

/// The index row of a decoded message: identity, chat metadata and flags
/// copied over, the instant also kept as Unix milliseconds (`0` when
/// unknown), `has_attachment` from the attachment count and `has_link` from a
/// URL in the body.
pub open spec fn indexed_of(s: ScannedMessage, r: IndexedMessage) -> bool {
    let m = s.message;
    &&& r.id == m.id
    &&& r.guid@ == m.guid@
    &&& r.chat_id == m.chat_id
    &&& r.canonical_chat_id == s.canonical_chat_id
    &&& opt_view(r.chat_identifier) == opt_view(s.chat_identifier)
    &&& opt_view(r.chat_name) == opt_view(s.chat_name)
    &&& r.handle_id == m.handle_id
    &&& opt_view(r.sender) == opt_view(m.sender)
    &&& r.is_from_me == m.is_from_me
    &&& opt_view(r.text) == opt_view(m.text)
    &&& r.timestamp_millis == (match m.timestamp {
        Some(t) => t.spec_millis(),
        None => 0,
    })
    &&& r.timestamp == m.timestamp
    &&& r.has_attachment == (m.num_attachments > 0)
    &&& r.has_photo == s.has_photo
    &&& r.has_link == (match m.text {
        Some(t) => url_matches(t@).len() > 0,
        None => false,
    })
    &&& opt_view(r.service) == opt_view(m.service)
    &&& r.msg_type == m.item_type
}

/// Convert a decoded [`ScannedMessage`] into an index row, computing the
/// `has_link` flag from the body text.
pub fn to_indexed(scanned: &ScannedMessage) -> (r: IndexedMessage)
    ensures
        indexed_of(*scanned, r),
{
    let m = &scanned.message;
    let has_link = match &m.text {
        Some(t) => crate::urls::has_url(t.as_str()),
        None => false,
    };
    let timestamp_millis = match m.timestamp {
        Some(t) => t.timestamp_millis(),
        None => 0,
    };
    IndexedMessage {
        id: m.id,
        guid: m.guid.clone(),
        chat_id: m.chat_id,
        canonical_chat_id: scanned.canonical_chat_id,
        chat_identifier: clone_opt_string(&scanned.chat_identifier),
        chat_name: clone_opt_string(&scanned.chat_name),
        handle_id: m.handle_id,
        sender: clone_opt_string(&m.sender),
        is_from_me: m.is_from_me,
        text: clone_opt_string(&m.text),
        timestamp_millis,
        timestamp: m.timestamp,
        has_attachment: m.num_attachments > 0,
        has_photo: scanned.has_photo,
        has_link,
        service: clone_opt_string(&m.service),
        msg_type: m.item_type,
    }
}

/// The next incremental-sync watermark: the highest of the current one and
/// the ids just indexed.
pub open spec fn watermark_after(ids: Seq<i64>, current: i64) -> i64
    decreases ids.len(),
{
    if ids.len() == 0 {
        current
    } else {
        let w = watermark_after(ids.drop_last(), current);
        if ids.last() > w {
            ids.last()
        } else {
            w
        }
    }
}

/// The watermark after indexing rows with these source ids: never below the
/// current one, and at least every id indexed.
pub fn next_watermark(ids: &[i64], current: i64) -> (r: i64)
    ensures
        r == watermark_after(ids@, current),
        r >= current,
        forall|i: int| 0 <= i < ids@.len() ==> ids@[i] <= r,
{
    let mut w = current;
    let mut i: usize = 0;
    assert(ids@.take(0) =~= Seq::<i64>::empty());
    while i < ids.len()
        invariant
            i <= ids@.len(),
            w == watermark_after(ids@.take(i as int), current),
            w >= current,
            forall|j: int| 0 <= j < i ==> ids@[j] <= w,
        decreases ids@.len() - i,
    {
        if ids[i] > w {
            w = ids[i];
        }
        i = i + 1;
        assert(ids@.take(i as int).drop_last() =~= ids@.take(i - 1));
    }
    assert(ids@.take(ids@.len() as int) =~= ids@);
    w
}

/// The first 160 characters of the text (empty when there is none): the plain
/// excerpt of a hit that has no highlighted FTS snippet.
pub open spec fn plain_snippet_spec(text: Option<Seq<char>>) -> Seq<char> {
    let t = match text {
        Some(t) => t,
        None => Seq::empty(),
    };
    if t.len() <= 160 {
        t
    } else {
        t.take(160)
    }
}

/// A plain, unhighlighted snippet (the first 160 characters).
pub fn plain_snippet(text: Option<&str>) -> (r: String)
    ensures
        r@ == plain_snippet_spec(match text {
            Some(t) => Some(t@),
            None => None,
        }),
{
    let chars = match text {
        Some(t) => chars_of(t),
        None => Vec::new(),
    };
    if chars.len() <= 160 {
        string_from_chars(chars.as_slice())
    } else {
        string_from_chars(crate::text::slice_chars(chars.as_slice(), 0, 160).as_slice())
    }
}

} // verus!

verus! {

// ---------------------------------------------------------------------------
// Links
// ---------------------------------------------------------------------------

/// One `has_link` message row as read for the links hub, newest first.
#[derive(Debug, Clone)]
pub struct LinkSource {
    pub id: i64,
    pub chat_id: Option<i64>,
    pub text: Option<String>,
    pub ts_millis: i64,
    pub sender: Option<String>,
    pub is_from_me: bool,
    pub chat_name: Option<String>,
}

/// The content of a [`LinkRow`].
pub struct LinkView {
    pub message_id: i64,
    pub chat_id: Option<i64>,
    pub url: Seq<char>,
    pub timestamp: Option<UtcTime>,
    pub sender: Option<Seq<char>>,
    pub is_from_me: bool,
    pub chat_name: Option<Seq<char>>,
}

impl View for LinkRow {
    type V = LinkView;

    open spec fn view(&self) -> LinkView {
        LinkView {
            message_id: self.message_id,
            chat_id: self.chat_id,
            url: self.url@,
            timestamp: self.timestamp,
            sender: opt_view(self.sender),
            is_from_me: self.is_from_me,
            chat_name: opt_view(self.chat_name),
        }
    }
}

/// The link rows of one source row: one per URL of its text, in order.
pub open spec fn row_links(s: LinkSource, urls: Seq<Seq<char>>) -> Seq<LinkView> {
    urls.map_values(|u: Seq<char>| LinkView {
        message_id: s.id,
        chat_id: s.chat_id,
        url: u,
        timestamp: instant_from_millis(s.ts_millis),
        sender: opt_view(s.sender),
        is_from_me: s.is_from_me,
        chat_name: opt_view(s.chat_name),
    })
}

/// All link rows of the source rows, flattened in order (rows without text
/// contribute nothing).
pub open spec fn all_links(rows: Seq<LinkSource>) -> Seq<LinkView>
    decreases rows.len(),
{
    if rows.len() == 0 {
        Seq::empty()
    } else {
        let s = rows.last();
        all_links(rows.drop_last()) + match s.text {
            Some(t) => row_links(s, urls_of(t@)),
            None => Seq::empty(),
        }
    }
}

/// The window `[offset, offset + limit)` of `s`, clamped to its length.
pub open spec fn page<T>(s: Seq<T>, offset: int, limit: int) -> Seq<T> {
    let lo = if offset < s.len() { offset } else { s.len() as int };
    let hi = if offset + limit < s.len() { offset + limit } else { s.len() as int };
    s.subrange(lo, hi)
}

pub open spec fn links_view(v: Seq<LinkRow>) -> Seq<LinkView> {
    v.map_values(|l: LinkRow| l@)
}

/// How many `has_link` messages to fetch to cover a URL window: every such
/// message yields at least one URL, so `offset + limit` messages suffice.
pub fn link_fetch_count(offset: usize, limit: usize) -> (r: usize)
    ensures
        r == (if offset + limit <= usize::MAX { offset + limit } else { usize::MAX as int }),
{
    offset.saturating_add(limit)
}

/// Flatten the fetched rows into one [`LinkRow`] per URL, newest first, and
/// cut the requested URL-level window.
pub fn links_from_rows(rows: &Vec<LinkSource>, offset: usize, limit: usize) -> (r: Vec<LinkRow>)
    ensures
        links_view(r@) == page(all_links(rows@), offset as int, limit as int),
{
    let mut all: Vec<LinkRow> = Vec::new();
    let mut i: usize = 0;
    assert(rows@.take(0) =~= Seq::<LinkSource>::empty());
    assert(links_view(all@) =~= Seq::<LinkView>::empty());
    while i < rows.len()
        invariant
            i <= rows@.len(),
            links_view(all@) == all_links(rows@.take(i as int)),
        decreases rows@.len() - i,
    {
        let row = &rows[i];
        let ghost before = links_view(all@);
        assert(rows@.take(i + 1).drop_last() =~= rows@.take(i as int));
        assert(rows@.take(i + 1).last() == *row);
        match &row.text {
            Some(text) => {
                let urls = extract_urls(text.as_str());
                let ghost uv = urls@.map_values(|s: String| s@);
                let timestamp = datetime_from_millis(row.ts_millis);
                let mut k: usize = 0;
                assert(uv.take(0) =~= Seq::<Seq<char>>::empty());
                assert(before + row_links(*row, uv.take(0)) =~= before);
                while k < urls.len()
                    invariant
                        k <= urls@.len(),
                        uv == urls@.map_values(|s: String| s@),
                        timestamp == instant_from_millis(row.ts_millis),
                        links_view(all@) == before + row_links(*row, uv.take(k as int)),
                    decreases urls@.len() - k,
                {
                    let link = LinkRow {
                        message_id: row.id,
                        chat_id: row.chat_id,
                        url: urls[k].clone(),
                        timestamp,
                        sender: clone_opt_string(&row.sender),
                        is_from_me: row.is_from_me,
                        chat_name: clone_opt_string(&row.chat_name),
                    };
                    let ghost prev = all@;
                    all.push(link);
                    k = k + 1;
                    assert(links_view(all@) =~= links_view(prev).push(link@));
                    assert(row_links(*row, uv.take(k as int)) =~= row_links(*row, uv.take(k - 1)).push(link@));
                    assert(links_view(all@) =~= before + row_links(*row, uv.take(k as int)));
                }
                assert(uv.take(urls@.len() as int) =~= uv);
            },
            None => {
                assert(links_view(all@) =~= before + Seq::<LinkView>::empty());
            },
        }
        i = i + 1;
    }
    assert(rows@.take(rows@.len() as int) =~= rows@);
    let n = all.len();
    let lo = if offset < n { offset } else { n };
    let hi = if limit < n - lo { lo + limit } else { n };
    let mut out: Vec<LinkRow> = Vec::new();
    let mut j = lo;
    let ghost av = links_view(all@);
    assert(links_view(out@) =~= av.subrange(lo as int, lo as int));
    while j < hi
        invariant
            lo <= j <= hi <= all@.len(),
            av == links_view(all@),
            links_view(out@) == av.subrange(lo as int, j as int),
        decreases hi - j,
    {
        let l = LinkRow {
            message_id: all[j].message_id,
            chat_id: all[j].chat_id,
            url: all[j].url.clone(),
            timestamp: all[j].timestamp,
            sender: clone_opt_string(&all[j].sender),
            is_from_me: all[j].is_from_me,
            chat_name: clone_opt_string(&all[j].chat_name),
        };
        let ghost prev = out@;
        out.push(l);
        j = j + 1;
        assert(links_view(out@) =~= links_view(prev).push(l@));
        assert(av.subrange(lo as int, j as int) =~= av.subrange(lo as int, j - 1).push(av[j - 1]));
    }
    out
}

/// URL-level pagination is seamless: the page at `offset` of length `a`
/// followed by the page right after it of length `b` is the page at `offset`
/// of length `a + b`, so paging through never skips or repeats a link.
pub proof fn lemma_link_pages_tile<T>(s: Seq<T>, offset: nat, a: nat, b: nat)
    ensures
        page(s, offset as int, a as int) + page(s, (offset + a) as int, b as int) == page(s, offset as int, (a + b) as int),
{
    assert(page(s, offset as int, a as int) + page(s, (offset + a) as int, b as int) =~= page(s, offset as int, (a + b) as int));
}

// ---------------------------------------------------------------------------
// Message context
// ---------------------------------------------------------------------------

/// Which chat grouping a context window is taken from.
#[derive(Debug, Clone, Copy, PartialEq, Eq)]
pub enum ContextScope {
    /// The deduplicated (canonical) chat group.
    CanonicalChat(i64),
    /// The raw chat row.
    Chat(i64),
}

impl ContextScope {
    /// The column the scope filters on.
    pub fn column(&self) -> (r: &'static str)
        ensures
            r@ == (match self {
                ContextScope::CanonicalChat(_) => "canonical_chat_id"@,
                ContextScope::Chat(_) => "chat_id"@,
            }),
    {
        match self {
            ContextScope::CanonicalChat(_) => "canonical_chat_id",
            ContextScope::Chat(_) => "chat_id",
        }
    }
}

/// The scope of a message's context: its canonical chat when known, else its
/// raw chat; `None` when it belongs to no chat (the context is the message
/// alone).
pub fn context_scope(target: &IndexedMessage) -> (r: Option<ContextScope>)
    ensures
        r == (match target.canonical_chat_id {
            Some(c) => Some(ContextScope::CanonicalChat(c)),
            None => match target.chat_id {
                Some(c) => Some(ContextScope::Chat(c)),
                None => None,
            },
        }),
{
    match target.canonical_chat_id {
        Some(c) => Some(ContextScope::CanonicalChat(c)),
        None => match target.chat_id {
            Some(c) => Some(ContextScope::Chat(c)),
            None => None,
        },
    }
}

/// Assemble a context window: the preceding messages (fetched newest first)
/// put back in chronological order, then the target, then the following
/// messages (fetched oldest first).
pub fn assemble_context(preceding: Vec<IndexedMessage>, target: IndexedMessage, following: Vec<IndexedMessage>) -> (r: Vec<IndexedMessage>)
    ensures
        r@ == preceding@.reverse() + seq![target] + following@,
{
    let mut out: Vec<IndexedMessage> = Vec::new();
    let mut pre = preceding;
    let ghost p = pre@;
    let ghost n = p.len();
    assert(out@ =~= p.reverse().take(0));
    while pre.len() > 0
        invariant
            pre@ == p.take(n - out@.len()),
            out@ == p.reverse().take(out@.len() as int),
            out@.len() <= n,
            n == p.len(),
        decreases pre@.len(),
    {
        let ghost before = out@;
        let m = pre.pop().unwrap();
        out.push(m);
        assert(p.reverse()[before.len() as int] == p[n - 1 - before.len()]);
        assert(out@ =~= p.reverse().take(out@.len() as int));
        assert(pre@ =~= p.take(n - out@.len()));
    }
    assert(out@ =~= p.reverse());
    out.push(target);
    let mut rest = following;
    let ghost f = rest@;
    let ghost mid = out@;
    out.append(&mut rest);
    assert(out@ =~= p.reverse() + seq![target] + f);
    out
}


// ---------------------------------------------------------------------------
// Links window and watermark laws
// ---------------------------------------------------------------------------

/// A message the index flags `has_link`: its text holds a match of the URL
/// pattern (what `has_url` detects), every match being of the pattern's
/// shape (which `extract_urls` states of every text).
pub open spec fn link_flagged(s: LinkSource) -> bool {
    match s.text {
        Some(t) => url_matches(t@).len() > 0 && forall|i: int|
            0 <= i < url_matches(t@).len() ==> url_match_shape(#[trigger] url_matches(t@)[i]),
        None => false,
    }
}

proof fn lemma_all_links_concat(a: Seq<LinkSource>, b: Seq<LinkSource>)
    ensures
        all_links(a + b) == all_links(a) + all_links(b),
    decreases b.len(),
{
    if b.len() == 0 {
        assert(a + b =~= a);
        assert(all_links(a) + all_links(b) =~= all_links(a));
    } else {
        lemma_all_links_concat(a, b.drop_last());
        assert((a + b).drop_last() =~= a + b.drop_last());
        assert((a + b).last() == b.last());
        let tail = match b.last().text {
            Some(t) => row_links(b.last(), urls_of(t@)),
            None => Seq::<LinkView>::empty(),
        };
        assert(all_links(a) + all_links(b.drop_last()) + tail =~= all_links(a) + (all_links(b.drop_last()) + tail));
    }
}

proof fn lemma_all_links_len(rows: Seq<LinkSource>)
    requires
        forall|i: int| 0 <= i < rows.len() ==> link_flagged(#[trigger] rows[i]),
    ensures
        all_links(rows).len() >= rows.len(),
    decreases rows.len(),
{
    if rows.len() > 0 {
        assert forall|i: int| 0 <= i < rows.drop_last().len() implies link_flagged(#[trigger] rows.drop_last()[i]) by {
            assert(rows.drop_last()[i] == rows[i]);
        }
        lemma_all_links_len(rows.drop_last());
        let s = rows.last();
        assert(link_flagged(rows[rows.len() - 1]));
        let t = s.text->Some_0;
        lemma_detection_agrees_with_extraction(t@);
    }
}

/// The links page is the URL window over all matching messages: every
/// `has_link` message yields at least one URL, so the first `fetched`
/// messages, with `fetched` at least `offset + limit` (what
/// `link_fetch_count` asks for when it fits) or every message, give the same
/// window of URLs as all of them.
pub proof fn lemma_link_window_covered(rows: Seq<LinkSource>, fetched: nat, offset: nat, limit: nat)
    requires
        forall|i: int| 0 <= i < rows.len() ==> link_flagged(#[trigger] rows[i]),
        fetched >= offset + limit || fetched >= rows.len(),
    ensures
        ({
            let k = if fetched < rows.len() { fetched as int } else { rows.len() as int };
            page(all_links(rows.take(k)), offset as int, limit as int) == page(all_links(rows), offset as int, limit as int)
        }),
{
    if fetched < rows.len() {
        let k = fetched as int;
        let a = rows.take(k);
        let b = rows.skip(k);
        assert(rows =~= a + b);
        lemma_all_links_concat(a, b);
        assert forall|i: int| 0 <= i < a.len() implies link_flagged(#[trigger] a[i]) by {
            assert(a[i] == rows[i]);
        }
        lemma_all_links_len(a);
        let la = all_links(a);
        let lb = all_links(b);
        assert(all_links(rows) == la + lb);
        assert(offset + limit <= la.len());
        assert(page(la + lb, offset as int, limit as int) =~= page(la, offset as int, limit as int));
    } else {
        assert(rows.take(rows.len() as int) =~= rows);
    }
}

/// The largest of `current` and `ids`.
proof fn lemma_watermark_is_max(ids: Seq<i64>, current: i64)
    ensures
        watermark_after(ids, current) >= current,
        forall|i: int| 0 <= i < ids.len() ==> ids[i] <= watermark_after(ids, current),
        watermark_after(ids, current) == current || exists|i: int| 0 <= i < ids.len() && ids[i] == watermark_after(ids, current),
    decreases ids.len(),
{
    if ids.len() > 0 {
        lemma_watermark_is_max(ids.drop_last(), current);
        let w = watermark_after(ids.drop_last(), current);
        assert forall|i: int| 0 <= i < ids.len() implies ids[i] <= watermark_after(ids, current) by {
            if i < ids.len() - 1 {
                assert(ids[i] == ids.drop_last()[i]);
            }
        }
        if watermark_after(ids, current) != current {
            if ids.last() > w {
                assert(ids[ids.len() - 1] == watermark_after(ids, current));
            } else {
                let j = choose|j: int| 0 <= j < ids.drop_last().len() && ids.drop_last()[j] == w;
                assert(ids[j] == w);
            }
        }
    }
}

/// An incremental sync's watermark: after indexing the source rows above the
/// stored watermark `w` (ids all above it), it stays `w` when there were none
/// and otherwise becomes the largest new id.
pub proof fn lemma_incremental_watermark(ids: Seq<i64>, w: i64)
    requires
        forall|i: int| 0 <= i < ids.len() ==> ids[i] > w,
    ensures
        ids.len() == 0 ==> watermark_after(ids, w) == w,
        ids.len() > 0 ==> (exists|i: int| 0 <= i < ids.len() && ids[i] == watermark_after(ids, w)),
        forall|i: int| 0 <= i < ids.len() ==> ids[i] <= watermark_after(ids, w),
{
    lemma_watermark_is_max(ids, w);
    if ids.len() > 0 {
        assert(ids[0] <= watermark_after(ids, w));
        assert(watermark_after(ids, w) != w);
    }
}


// ---------------------------------------------------------------------------
// What the filter clauses select
// ---------------------------------------------------------------------------

proof fn lemma_and_one_or_none(b: bool, c: Seq<char>)
    ensures
        and_conditions(if b { seq![c] } else { Seq::<Seq<char>>::empty() }) == (if b {
            " AND "@ + c
        } else {
            Seq::<char>::empty()
        }),
{
    if b {
        lemma_and_condition_one(c);
    }
}

/// Each flag filter tests its own stored column and nothing else, and the
/// `is:` filter binds the value that selects exactly the messages sent (or
/// received) by the owner: the filter SQL of `f` is that of `f` without its
/// flags and `is:` filter, followed by `m.has_attachment = 1` when it asks
/// for attachments, `m.has_photo = 1` for photos, `m.has_link = 1` for links
/// and `m.is_from_me = ?` for `is:`. A message passes the flag conditions
/// exactly when it has every flagged property, and passes the `is:` condition
/// with the bound value exactly when its sender side is the one asked for.
pub proof fn lemma_filter_flags_test_their_columns(f: FiltersView, m: IndexedMessage)
    ensures
        ({
            let base = FiltersView { has_attachment: false, has_photo: false, has_link: false, is_from_me: None, ..f };
            let flags = (if f.has_attachment {
                seq!["m.has_attachment = 1"@]
            } else {
                Seq::<Seq<char>>::empty()
            }) + (if f.has_photo {
                seq!["m.has_photo = 1"@]
            } else {
                Seq::<Seq<char>>::empty()
            }) + (if f.has_link {
                seq!["m.has_link = 1"@]
            } else {
                Seq::<Seq<char>>::empty()
            });
            let me = if f.is_from_me is Some {
                seq!["m.is_from_me = ?"@]
            } else {
                Seq::<Seq<char>>::empty()
            };
            &&& filter_sql(f) == filter_sql(base) + and_conditions(flags + me)
            &&& (all_hold(flags, m, None) <==> ((f.has_attachment ==> m.has_attachment) && (f.has_photo
                ==> m.has_photo) && (f.has_link ==> m.has_link)))
            &&& match f.is_from_me {
                Some(b) => {
                    &&& filter_params(f) == filter_params(base).push(SqlParam::Integer(if b { 1 } else { 0 }))
                    &&& (condition_holds("m.is_from_me = ?"@, m, Some(if b { 1i64 } else { 0i64 }))
                        <==> m.is_from_me == b)
                },
                None => filter_params(f) == filter_params(base),
            }
        }),
{
    reveal_strlit(" AND ");
    reveal_strlit("m.has_attachment = 1");
    reveal_strlit("m.has_photo = 1");
    reveal_strlit("m.has_link = 1");
    reveal_strlit("m.is_from_me = 1");
    reveal_strlit("m.is_from_me = 0");
    reveal_strlit("m.is_from_me = ?");
    reveal_strlit(" AND m.has_attachment = 1");
    reveal_strlit(" AND m.has_photo = 1");
    reveal_strlit(" AND m.has_link = 1");
    reveal_strlit(" AND m.is_from_me = ?");
    let base = FiltersView { has_attachment: false, has_photo: false, has_link: false, is_from_me: None, ..f };
    let a = if f.has_attachment { seq!["m.has_attachment = 1"@] } else { Seq::<Seq<char>>::empty() };
    let p = if f.has_photo { seq!["m.has_photo = 1"@] } else { Seq::<Seq<char>>::empty() };
    let l = if f.has_link { seq!["m.has_link = 1"@] } else { Seq::<Seq<char>>::empty() };
    let me = if f.is_from_me is Some { seq!["m.is_from_me = ?"@] } else { Seq::<Seq<char>>::empty() };
    lemma_and_one_or_none(f.has_attachment, "m.has_attachment = 1"@);
    lemma_and_one_or_none(f.has_photo, "m.has_photo = 1"@);
    lemma_and_one_or_none(f.has_link, "m.has_link = 1"@);
    lemma_and_one_or_none(f.is_from_me is Some, "m.is_from_me = ?"@);
    lemma_and_conditions_concat(a, p);
    lemma_and_conditions_concat(a + p, l);
    lemma_and_conditions_concat(a + p + l, me);
    assert(has_attachment_clause() =~= " AND "@ + "m.has_attachment = 1"@);
    assert(has_photo_clause() =~= " AND "@ + "m.has_photo = 1"@);
    assert(has_link_clause() =~= " AND "@ + "m.has_link = 1"@);
    assert(from_me_clause() =~= " AND "@ + "m.is_from_me = ?"@);
    let pre = repeat(from_clause(), f.from.len()) + repeat(in_clause(), f.in_chat.len()) + (if f.before is Some {
        before_clause()
    } else {
        Seq::empty()
    }) + (if f.after is Some {
        after_clause()
    } else {
        Seq::empty()
    });
    assert(filter_sql(base) =~= pre);
    assert(filter_sql(f) =~= filter_sql(base) + and_conditions(a + p + l + me));
    let flags = a + p + l;
    if all_hold(flags, m, None) {
        if f.has_attachment {
            assert(flags[0] == "m.has_attachment = 1"@);
            assert(condition_holds(flags[0], m, None));
        }
        if f.has_photo {
            let i = a.len() as int;
            assert(flags[i] == "m.has_photo = 1"@);
            assert(condition_holds(flags[i], m, None));
        }
        if f.has_link {
            let i = (a.len() + p.len()) as int;
            assert(flags[i] == "m.has_link = 1"@);
            assert(condition_holds(flags[i], m, None));
        }
    }
    if (f.has_attachment ==> m.has_attachment) && (f.has_photo ==> m.has_photo) && (f.has_link ==> m.has_link) {
        assert forall|i: int| 0 <= i < flags.len() implies condition_holds(#[trigger] flags[i], m, None) by {
            if i < a.len() {
                assert(flags[i] == "m.has_attachment = 1"@);
            } else if i < a.len() + p.len() {
                assert(flags[i] == "m.has_photo = 1"@);
            } else {
                assert(flags[i] == "m.has_link = 1"@);
            }
        }
    }
    match f.is_from_me {
        Some(b) => {
            assert(filter_params(f) =~= filter_params(base).push(SqlParam::Integer(if b { 1 } else { 0 })));
            assert("m.is_from_me = ?"@ != "m.has_attachment = 1"@);
            assert("m.is_from_me = ?"@ != "m.has_photo = 1"@);
            assert("m.is_from_me = ?"@ != "m.has_link = 1"@);
            assert(("m.is_from_me = ?"@)[15] != ("m.is_from_me = 1"@)[15]);
            assert(("m.is_from_me = ?"@)[15] != ("m.is_from_me = 0"@)[15]);
            assert(condition_holds("m.is_from_me = ?"@, m, Some(if b { 1i64 } else { 0i64 })) <==> m.is_from_me == b);
        },
        None => {
            assert(filter_params(f) =~= filter_params(base));
        },
    }
}

} // verus!
