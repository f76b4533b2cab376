//! A model of what SQLite makes of the conditions and aggregates the index
//! statements use, read against a stored message. Booleans are stored as `1`
//! and `0` (see `upsert_params`), so `m.has_link = 1` holds exactly on a
//! message whose `has_link` is true. The laws that the statements select and
//! count what their operations promise are stated over this model.

use vstd::prelude::*;
use crate::index_model::IndexedMessage;

verus! {

/// Whether SQLite finds the condition `cond` true of the stored message `m`,
/// with `param` bound to its one placeholder. A condition outside this model
/// may hold of any message.
pub open spec fn condition_holds(cond: Seq<char>, m: IndexedMessage, param: Option<i64>) -> bool {
    if cond == "m.has_attachment = 1"@ {
        m.has_attachment
    } else if cond == "m.has_photo = 1"@ {
        m.has_photo
    } else if cond == "m.has_link = 1"@ {
        m.has_link
    } else if cond == "m.is_from_me = 1"@ {
        m.is_from_me
    } else if cond == "m.is_from_me = 0"@ {
        !m.is_from_me
    } else if cond == "m.is_from_me = ?"@ {
        param == Some(if m.is_from_me { 1i64 } else { 0i64 })
    } else if cond == "m.text IS NOT NULL"@ {
        m.text is Some
    } else if cond == "m.chat_id = ?"@ {
        m.chat_id is Some && m.chat_id == param
    } else {
        true
    }
}

/// Every condition of `conds` holds of `m` (each placeholder bound to `param`).
pub open spec fn all_hold(conds: Seq<Seq<char>>, m: IndexedMessage, param: Option<i64>) -> bool {
    forall|i: int| 0 <= i < conds.len() ==> condition_holds(#[trigger] conds[i], m, param)
}

/// The conditions, each written as ` AND ` and the condition.
pub open spec fn and_conditions(conds: Seq<Seq<char>>) -> Seq<char>
    decreases conds.len(),
{
    if conds.len() == 0 {
        Seq::empty()
    } else {
        and_conditions(conds.drop_last()) + " AND "@ + conds.last()
    }
}

/// A `WHERE` clause of the conditions joined by `AND`.
pub open spec fn where_clause(conds: Seq<Seq<char>>) -> Seq<char> {
    if conds.len() == 0 {
        Seq::empty()
    } else {
        " WHERE "@ + conds[0] + and_conditions(conds.drop_first())
    }
}

/// The aggregate column that counts the messages on which `cond` holds.
pub open spec fn count_column(cond: Seq<char>) -> Seq<char> {
    "COALESCE(SUM(CASE WHEN "@ + cond + " THEN 1 ELSE 0 END), 0)"@
}

/// How many of `rows` satisfy `pred`.
pub open spec fn count_rows(rows: Seq<IndexedMessage>, pred: spec_fn(IndexedMessage) -> bool) -> nat
    decreases rows.len(),
{
    if rows.len() == 0 {
        0
    } else {
        count_rows(rows.drop_last(), pred) + (if pred(rows.last()) {
            1nat
        } else {
            0nat
        })
    }
}

/// What SQLite computes for `count_column(cond)` over the messages a query
/// reads.
pub open spec fn count_column_value(cond: Seq<char>, rows: Seq<IndexedMessage>) -> nat {
    count_rows(rows, |m: IndexedMessage| condition_holds(cond, m, None))
}

/// Counting by two predicates that agree on every message gives the same.
pub proof fn lemma_count_rows_agree(
    rows: Seq<IndexedMessage>,
    p: spec_fn(IndexedMessage) -> bool,
    q: spec_fn(IndexedMessage) -> bool,
)
    requires
        forall|m: IndexedMessage| #[trigger] p(m) == q(m),
    ensures
        count_rows(rows, p) == count_rows(rows, q),
    decreases rows.len(),
{
    if rows.len() > 0 {
        lemma_count_rows_agree(rows.drop_last(), p, q);
    }
}

/// Joining two lists of conditions joins their ` AND ` texts.
pub proof fn lemma_and_conditions_concat(a: Seq<Seq<char>>, b: Seq<Seq<char>>)
    ensures
        and_conditions(a + b) == and_conditions(a) + and_conditions(b),
    decreases b.len(),
{
    if b.len() == 0 {
        assert(a + b =~= a);
        assert(and_conditions(a) + and_conditions(b) =~= and_conditions(a));
    } else {
        lemma_and_conditions_concat(a, b.drop_last());
        assert((a + b).drop_last() =~= a + b.drop_last());
        assert(and_conditions(a) + and_conditions(b.drop_last()) + " AND "@ + b.last() =~= and_conditions(a) + (
        and_conditions(b.drop_last()) + " AND "@ + b.last()));
    }
}

/// One condition's ` AND ` text.
pub proof fn lemma_and_condition_one(c: Seq<char>)
    ensures
        and_conditions(seq![c]) == " AND "@ + c,
{
    let s = seq![c];
    assert(s.drop_last() =~= Seq::<Seq<char>>::empty());
    assert(and_conditions(s.drop_last()) == Seq::<char>::empty());
    assert(s.last() == c);
    assert(and_conditions(s) == and_conditions(s.drop_last()) + " AND "@ + s.last());
    assert(Seq::<char>::empty() + " AND "@ + c =~= " AND "@ + c);
}

} // verus!
