//! Operator mini-language parser.
//!
//! Splits a raw query string into structured [`Filters`] and a free-text FTS5
//! `MATCH` expression. Supported operators:
//!
//! | operator            | effect                                             |
//! |---------------------|----------------------------------------------------|
//! | `from:<who>`        | sender identifier contains `<who>`                 |
//! | `in:<chat>`         | chat name/identifier contains `<chat>` (or chat id)|
//! | `before:<date>`     | timestamp strictly before `<date>`                 |
//! | `after:<date>`      | timestamp at or after `<date>`                     |
//! | `has:photo`         | has an image/video attachment                      |
//! | `has:link`          | body contains a URL                                |
//! | `has:attachment`    | has any attachment                                 |
//! | `is:from-me`        | sent by the database owner                         |
//! | `is:from-them`      | received (not from me)                             |
//!
//! Everything else is free text. Double-quoted runs are kept whole, both as
//! operator values (`from:"John Doe"`) and as FTS phrases (`"exact phrase"`).
//! A bare `word` becomes a quoted FTS phrase; `word1 word2` ANDs them. Tokens
//! that merely contain a colon (e.g. a pasted `https://…` URL) are free text:
//! only the operator keys above are special.

use vstd::prelude::*;
use crate::text::{
    ascii_lower_seq, ascii_lowercase, chars_eq_str, chars_of, has_char, is_whitespace, is_ws,
    push_chars, slice_chars, string_from_chars, string_of, trim, trim_chars,
};
use crate::time::{
    chrono_parse_naive_date_millis, chrono_parse_naive_datetime_millis,
    parse_rfc3339_millis, naive_date_millis, naive_datetime_millis, rfc3339_millis,
};

verus! {

/// The views of a list of strings.
pub open spec fn strings_view(v: Seq<String>) -> Seq<Seq<char>> {
    v.map_values(|s: String| s@)
}

/// The views of a list of character vectors.
pub open spec fn chars_view(v: Seq<Vec<char>>) -> Seq<Seq<char>> {
    v.map_values(|s: Vec<char>| s@)
}

/// Structured filters extracted from a query, applied as SQL `WHERE` clauses
/// alongside the FTS match.
#[derive(Debug, Clone, Default, PartialEq, Eq)]
pub struct Filters {
    /// `from:` values; sender must contain each (case-insensitive).
    pub from: Vec<String>,
    /// `in:` values; chat name/identifier/id must match each.
    pub in_chat: Vec<String>,
    /// `before:`: exclusive upper bound, unix epoch millis.
    pub before: Option<i64>,
    /// `after:`: inclusive lower bound, unix epoch millis.
    pub after: Option<i64>,
    /// `has:attachment`.
    pub has_attachment: bool,
    /// `has:photo`.
    pub has_photo: bool,
    /// `has:link`.
    pub has_link: bool,
    /// `is:from-me` (`Some(true)`) / `is:from-them` (`Some(false)`).
    pub is_from_me: Option<bool>,
}

/// The mathematical content of [`Filters`].
pub struct FiltersView {
    pub from: Seq<Seq<char>>,
    pub in_chat: Seq<Seq<char>>,
    pub before: Option<i64>,
    pub after: Option<i64>,
    pub has_attachment: bool,
    pub has_photo: bool,
    pub has_link: bool,
    pub is_from_me: Option<bool>,
}

impl View for Filters {
    type V = FiltersView;

    open spec fn view(&self) -> FiltersView {
        FiltersView {
            from: strings_view(self.from@),
            in_chat: strings_view(self.in_chat@),
            before: self.before,
            after: self.after,
            has_attachment: self.has_attachment,
            has_photo: self.has_photo,
            has_link: self.has_link,
            is_from_me: self.is_from_me,
        }
    }
}

/// No filter at all.
pub open spec fn empty_filters() -> FiltersView {
    FiltersView {
        from: Seq::empty(),
        in_chat: Seq::empty(),
        before: None,
        after: None,
        has_attachment: false,
        has_photo: false,
        has_link: false,
        is_from_me: None,
    }
}

/// Whether no filter is active.
pub open spec fn filters_empty(f: FiltersView) -> bool {
    &&& f.from.len() == 0
    &&& f.in_chat.len() == 0
    &&& f.before is None
    &&& f.after is None
    &&& !f.has_attachment
    &&& !f.has_photo
    &&& !f.has_link
    &&& f.is_from_me is None
}

impl Filters {
    /// Filters that match everything.
    pub fn new() -> (r: Filters)
        ensures
            r@ == empty_filters(),
    {
        let r = Filters {
            from: Vec::new(),
            in_chat: Vec::new(),
            before: None,
            after: None,
            has_attachment: false,
            has_photo: false,
            has_link: false,
            is_from_me: None,
        };
        assert(r@.from =~= Seq::<Seq<char>>::empty());
        assert(r@.in_chat =~= Seq::<Seq<char>>::empty());
        r
    }

    /// Whether any filter is active.
    pub fn is_empty(&self) -> (r: bool)
        ensures
            r == filters_empty(self@),
    {
        self.from.len() == 0 && self.in_chat.len() == 0 && self.before.is_none()
            && self.after.is_none() && !self.has_attachment && !self.has_photo && !self.has_link
            && self.is_from_me.is_none()
    }
}

/// A parsed query: an optional FTS `MATCH` expression plus structured filters.
#[derive(Debug, Clone, PartialEq, Eq)]
pub struct ParsedQuery {
    /// FTS5 `MATCH` expression, or `None` when the query is filters-only.
    pub fts: Option<String>,
    /// Structured filters.
    pub filters: Filters,
    /// The raw query as typed, kept for display and debugging.
    pub raw: String,
}

// ---------------------------------------------------------------------------
// Tokenizing
// ---------------------------------------------------------------------------

/// Tokenizer state: finished tokens, the token being built, inside quotes.
pub type TokState = (Seq<Seq<char>>, Seq<char>, bool);

/// One character of input: a `"` toggles quoting and is kept; whitespace
/// outside quotes ends the current token; anything else is appended.
pub open spec fn tok_step(st: TokState, c: char) -> TokState {
    if c == '"' {
        (st.0, st.1.push(c), !st.2)
    } else if is_ws(c) && !st.2 {
        if st.1.len() > 0 {
            (st.0.push(st.1), Seq::empty(), st.2)
        } else {
            st
        }
    } else {
        (st.0, st.1.push(c), st.2)
    }
}

/// The tokenizer state after reading all of `s`.
pub open spec fn tok_fold(s: Seq<char>) -> TokState
    decreases s.len(),
{
    if s.len() == 0 {
        (Seq::empty(), Seq::empty(), false)
    } else {
        tok_step(tok_fold(s.drop_last()), s.last())
    }
}

/// Whitespace-separated tokens of `s`, where a double-quoted run (including a
/// `key:"value"` form) is never split.
pub open spec fn tokenize_spec(s: Seq<char>) -> Seq<Seq<char>> {
    let st = tok_fold(s);
    if st.1.len() > 0 {
        st.0.push(st.1)
    } else {
        st.0
    }
}

proof fn lemma_push_view(v: Seq<Vec<char>>, x: Vec<char>)
    ensures
        chars_view(v.push(x)) == chars_view(v).push(x@),
{
    assert(chars_view(v.push(x)) =~= chars_view(v).push(x@));
}

fn tokenize(raw: &[char]) -> (r: Vec<Vec<char>>)
    ensures
        chars_view(r@) == tokenize_spec(raw@),
{
    let mut tokens: Vec<Vec<char>> = Vec::new();
    let mut current: Vec<char> = Vec::new();
    let mut in_quotes = false;
    let mut i: usize = 0;
    assert(chars_view(tokens@) =~= Seq::<Seq<char>>::empty());
    assert(raw@.take(0) =~= Seq::<char>::empty());
    while i < raw.len()
        invariant
            i <= raw@.len(),
            tok_fold(raw@.take(i as int)) == (chars_view(tokens@), current@, in_quotes),
        decreases raw@.len() - i,
    {
        let ch = raw[i];
        proof {
            lemma_push_view(tokens@, current);
        }
        if ch == '"' {
            in_quotes = !in_quotes;
            current.push(ch);
        } else if is_whitespace(ch) && !in_quotes {
            if current.len() > 0 {
                tokens.push(current);
                current = Vec::new();
                assert(current@ =~= Seq::<char>::empty());
            }
        } else {
            current.push(ch);
        }
        i = i + 1;
        assert(raw@.take(i as int).drop_last() =~= raw@.take(i - 1));
    }
    assert(raw@.take(raw@.len() as int) =~= raw@);
    proof {
        lemma_push_view(tokens@, current);
    }
    if current.len() > 0 {
        tokens.push(current);
    }
    tokens
}

// ---------------------------------------------------------------------------
// Terms and operators
// ---------------------------------------------------------------------------

/// `s` trimmed, with one layer of surrounding double quotes removed.
pub open spec fn strip_quotes_spec(s: Seq<char>) -> Seq<char> {
    let t = trim(s);
    if t.len() >= 2 && t[0] == '"' && t.last() == '"' {
        t.subrange(1, t.len() - 1)
    } else {
        t
    }
}

fn strip_quotes(s: &[char]) -> (r: Vec<char>)
    ensures
        r@ == strip_quotes_spec(s@),
{
    let t = trim_chars(s);
    let n = t.len();
    if n >= 2 && t[0] == '"' && t[n - 1] == '"' {
        slice_chars(t.as_slice(), 1, n - 1)
    } else {
        t
    }
}

/// FTS5 string-literal escaping: every `"` doubled.
pub open spec fn escape_quotes(s: Seq<char>) -> Seq<char>
    decreases s.len(),
{
    if s.len() == 0 {
        Seq::empty()
    } else if s.last() == '"' {
        escape_quotes(s.drop_last()) + seq!['"', '"']
    } else {
        escape_quotes(s.drop_last()).push(s.last())
    }
}

/// The FTS5 phrase for a free-text token: its trimmed, unquoted content with
/// embedded quotes doubled, wrapped in double quotes; `None` when nothing is
/// left to match.
pub open spec fn fts_term_spec(token: Seq<char>) -> Option<Seq<char>> {
    let t = trim(strip_quotes_spec(token));
    if t.len() == 0 {
        None
    } else {
        Some(seq!['"'] + escape_quotes(t) + seq!['"'])
    }
}

fn fts_term(token: &[char]) -> (r: Option<Vec<char>>)
    ensures
        match r {
            Some(v) => fts_term_spec(token@) == Some(v@),
            None => fts_term_spec(token@) is None,
        },
{
    let inner = strip_quotes(token);
    let trimmed = trim_chars(inner.as_slice());
    if trimmed.len() == 0 {
        return None;
    }
    let mut escaped: Vec<char> = Vec::new();
    let mut i: usize = 0;
    assert(trimmed@.take(0) =~= Seq::<char>::empty());
    while i < trimmed.len()
        invariant
            i <= trimmed@.len(),
            escaped@ == escape_quotes(trimmed@.take(i as int)),
        decreases trimmed@.len() - i,
    {
        let c = trimmed[i];
        if c == '"' {
            escaped.push('"');
            escaped.push('"');
        } else {
            escaped.push(c);
        }
        i = i + 1;
        proof {
            let p = trimmed@.take(i as int);
            assert(p.drop_last() =~= trimmed@.take(i - 1));
            if c == '"' {
                assert(escaped@ =~= escape_quotes(p.drop_last()) + seq!['"', '"']);
            }
        }
    }
    assert(trimmed@.take(trimmed@.len() as int) =~= trimmed@);
    let mut out: Vec<char> = Vec::new();
    out.push('"');
    push_chars(&mut out, escaped.as_slice());
    out.push('"');
    assert(out@ =~= seq!['"'] + escape_quotes(trimmed@) + seq!['"']);
    Some(out)
}

/// Index of the first `c` in `s`, if any.
pub open spec fn find_char(s: Seq<char>, c: char) -> Option<int> {
    if has_char(s, c) {
        Some(
            choose|i: int|
                0 <= i < s.len() && s[i] == c && forall|j: int| 0 <= j < i ==> s[j] != c,
        )
    } else {
        None
    }
}

fn find_char_exec(s: &[char], c: char) -> (r: Option<usize>)
    ensures
        match r {
            Some(i) => find_char(s@, c) == Some(i as int) && i < s@.len(),
            None => find_char(s@, c) is None,
        },
{
    let mut i: usize = 0;
    while i < s.len()
        invariant
            i <= s@.len(),
            forall|j: int| 0 <= j < i ==> s@[j] != c,
        decreases s@.len() - i,
    {
        if s[i] == c {
            proof {
                let k = choose|k: int|
                    0 <= k < s@.len() && s@[k] == c && forall|j: int| 0 <= j < k ==> s@[j] != c;
                assert(0 <= i < s@.len() && s@[i as int] == c && forall|j: int|
                    0 <= j < i ==> s@[j] != c);
                assert(k == i);
            }
            return Some(i);
        }
        i = i + 1;
    }
    None
}

/// Whether `k` is one of the recognized operator keys.
pub open spec fn is_operator_key(k: Seq<char>) -> bool {
    k == "from"@ || k == "in"@ || k == "before"@ || k == "after"@ || k == "has"@ || k == "is"@
}

/// `(key, value)` when the token is `key:value` with a recognized key (matched
/// ASCII-case-insensitively, returned lowercased) and a non-empty value (with
/// one layer of quotes removed); `None` for anything else, including
/// colon-bearing free text such as URLs.
pub open spec fn split_operator_spec(token: Seq<char>) -> Option<(Seq<char>, Seq<char>)> {
    match find_char(token, ':') {
        None => None,
        Some(i) => {
            let key = ascii_lower_seq(token.subrange(0, i));
            let value = strip_quotes_spec(token.subrange(i + 1, token.len() as int));
            if i == 0 || !is_operator_key(key) || value.len() == 0 {
                None
            } else {
                Some((key, value))
            }
        },
    }
}

fn is_operator_key_exec(k: &[char]) -> (r: bool)
    ensures
        r == is_operator_key(k@),
{
    chars_eq_str(k, "from") || chars_eq_str(k, "in") || chars_eq_str(k, "before") || chars_eq_str(
        k,
        "after",
    ) || chars_eq_str(k, "has") || chars_eq_str(k, "is")
}

fn split_operator(token: &[char]) -> (r: Option<(Vec<char>, Vec<char>)>)
    ensures
        match r {
            Some(kv) => split_operator_spec(token@) == Some((kv.0@, kv.1@)),
            None => split_operator_spec(token@) is None,
        },
{
    let colon = match find_char_exec(token, ':') {
        Some(c) => c,
        None => return None,
    };
    if colon == 0 {
        return None;
    }
    let head = slice_chars(token, 0, colon);
    let key = ascii_lowercase(head.as_slice());
    if !is_operator_key_exec(key.as_slice()) {
        return None;
    }
    let n = token.len();
    assert(colon < n);
    let tail = slice_chars(token, colon + 1, n);
    let value = strip_quotes(tail.as_slice());
    if value.len() == 0 {
        return None;
    }
    Some((key, value))
}

// ---------------------------------------------------------------------------
// Dates
// ---------------------------------------------------------------------------

/// The Unix-millisecond value of a date boundary: the first of RFC 3339,
/// `YYYY-MM-DDTHH:MM:SS`, `YYYY-MM-DD HH:MM:SS`, `YYYY-MM-DDTHH:MM`,
/// `YYYY-MM-DD HH:MM` (read as UTC) and bare `YYYY-MM-DD` (midnight UTC) that
/// chrono accepts for the trimmed value.
pub open spec fn parse_date_spec(value: Seq<char>) -> Option<i64> {
    let v = trim(value);
    if rfc3339_millis(v) is Some {
        rfc3339_millis(v)
    } else if naive_datetime_millis(v, "%Y-%m-%dT%H:%M:%S"@) is Some {
        naive_datetime_millis(v, "%Y-%m-%dT%H:%M:%S"@)
    } else if naive_datetime_millis(v, "%Y-%m-%d %H:%M:%S"@) is Some {
        naive_datetime_millis(v, "%Y-%m-%d %H:%M:%S"@)
    } else if naive_datetime_millis(v, "%Y-%m-%dT%H:%M"@) is Some {
        naive_datetime_millis(v, "%Y-%m-%dT%H:%M"@)
    } else if naive_datetime_millis(v, "%Y-%m-%d %H:%M"@) is Some {
        naive_datetime_millis(v, "%Y-%m-%d %H:%M"@)
    } else {
        naive_date_millis(v, "%Y-%m-%d"@)
    }
}

/// Parse a date/datetime boundary into unix epoch millis (UTC). Accepts
/// RFC 3339, `YYYY-MM-DD[THH:MM[:SS]]` (space or `T` separator), and bare
/// `YYYY-MM-DD` (midnight UTC).
pub fn parse_date_boundary(value: &str) -> (r: Option<i64>)
    ensures
        r == parse_date_spec(value@),
{
    let chars = chars_of(value);
    let trimmed = trim_chars(chars.as_slice());
    let owned = string_from_chars(trimmed.as_slice());
    let v = owned.as_str();
    match parse_rfc3339_millis(v) {
        Ok(ms) => return Some(ms),
        Err(_) => {},
    }
    let r = chrono_parse_naive_datetime_millis(v, "%Y-%m-%dT%H:%M:%S");
    if r.is_some() {
        return r;
    }
    let r = chrono_parse_naive_datetime_millis(v, "%Y-%m-%d %H:%M:%S");
    if r.is_some() {
        return r;
    }
    let r = chrono_parse_naive_datetime_millis(v, "%Y-%m-%dT%H:%M");
    if r.is_some() {
        return r;
    }
    let r = chrono_parse_naive_datetime_millis(v, "%Y-%m-%d %H:%M");
    if r.is_some() {
        return r;
    }
    chrono_parse_naive_date_millis(v, "%Y-%m-%d")
}

// ---------------------------------------------------------------------------
// Parsing
// ---------------------------------------------------------------------------

/// Parser state: the filters so far and the FTS phrases so far.
pub type QueryState = (FiltersView, Seq<Seq<char>>);

/// Append the FTS phrase of `t` (if it has one).
pub open spec fn push_term(parts: Seq<Seq<char>>, t: Seq<char>) -> Seq<Seq<char>> {
    match fts_term_spec(t) {
        Some(p) => parts.push(p),
        None => parts,
    }
}

/// Apply a recognized operator. `before`/`after` take the parsed date (a later
/// one replaces an earlier one, an unparsable one clears it); `has:`/`is:`
/// values are matched ASCII-case-insensitively, and an unknown value falls back
/// to free text so a typo never silently drops the term.
pub open spec fn apply_operator_spec(st: QueryState, key: Seq<char>, value: Seq<char>) -> QueryState {
    let f = st.0;
    let lower = ascii_lower_seq(value);
    if key == "from"@ {
        (FiltersView { from: f.from.push(value), ..f }, st.1)
    } else if key == "in"@ {
        (FiltersView { in_chat: f.in_chat.push(value), ..f }, st.1)
    } else if key == "before"@ {
        (FiltersView { before: parse_date_spec(value), ..f }, st.1)
    } else if key == "after"@ {
        (FiltersView { after: parse_date_spec(value), ..f }, st.1)
    } else if key == "has"@ {
        if lower == "photo"@ || lower == "image"@ || lower == "video"@ {
            (FiltersView { has_photo: true, ..f }, st.1)
        } else if lower == "link"@ || lower == "url"@ {
            (FiltersView { has_link: true, ..f }, st.1)
        } else if lower == "attachment"@ || lower == "file"@ {
            (FiltersView { has_attachment: true, ..f }, st.1)
        } else {
            (f, push_term(st.1, value))
        }
    } else if key == "is"@ {
        if lower == "from-me"@ || lower == "fromme"@ || lower == "sent"@ {
            (FiltersView { is_from_me: Some(true), ..f }, st.1)
        } else if lower == "from-them"@ || lower == "fromthem"@ || lower == "received"@ {
            (FiltersView { is_from_me: Some(false), ..f }, st.1)
        } else {
            (f, push_term(st.1, value))
        }
    } else {
        st
    }
}

/// One token: an operator updates the filters, anything else is free text.
pub open spec fn apply_token(st: QueryState, token: Seq<char>) -> QueryState {
    match split_operator_spec(token) {
        Some((k, v)) => apply_operator_spec(st, k, v),
        None => (st.0, push_term(st.1, token)),
    }
}

/// The parser state after all of `tokens`, left to right.
pub open spec fn query_fold(tokens: Seq<Seq<char>>) -> QueryState
    decreases tokens.len(),
{
    if tokens.len() == 0 {
        (empty_filters(), Seq::empty())
    } else {
        apply_token(query_fold(tokens.drop_last()), tokens.last())
    }
}

/// Phrases joined by single spaces.
pub open spec fn join_space(parts: Seq<Seq<char>>) -> Seq<char>
    decreases parts.len(),
{
    if parts.len() == 0 {
        Seq::empty()
    } else if parts.len() == 1 {
        parts[0]
    } else {
        join_space(parts.drop_last()).push(' ') + parts.last()
    }
}

/// The FTS expression of a raw query: its phrases joined by spaces, `None` when
/// there are none.
pub open spec fn query_fts(raw: Seq<char>) -> Option<Seq<char>> {
    let parts = query_fold(tokenize_spec(raw)).1;
    if parts.len() == 0 {
        None
    } else {
        Some(join_space(parts))
    }
}

/// The filters of a raw query.
pub open spec fn query_filters(raw: Seq<char>) -> FiltersView {
    query_fold(tokenize_spec(raw)).0
}

proof fn lemma_strings_push(v: Seq<String>, s: String)
    ensures
        strings_view(v.push(s)) == strings_view(v).push(s@),
{
    assert(strings_view(v.push(s)) =~= strings_view(v).push(s@));
}

fn push_fts_term(parts: &mut Vec<Vec<char>>, t: &[char])
    ensures
        chars_view(final(parts)@) == push_term(chars_view(old(parts)@), t@),
{
    match fts_term(t) {
        Some(p) => {
            proof {
                lemma_push_view(parts@, p);
            }
            parts.push(p);
        },
        None => {},
    }
}

fn apply_operator(filters: &mut Filters, key: &[char], value: &[char], fts_parts: &mut Vec<Vec<char>>)
    requires
        is_operator_key(key@),
    ensures
        (final(filters)@, chars_view(final(fts_parts)@)) == apply_operator_spec(
            (old(filters)@, chars_view(old(fts_parts)@)),
            key@,
            value@,
        ),
{
    let lower = ascii_lowercase(value);
    let l = lower.as_slice();
    if chars_eq_str(key, "from") {
        let s = string_from_chars(value);
        proof {
            lemma_strings_push(filters.from@, s);
        }
        filters.from.push(s);
    } else if chars_eq_str(key, "in") {
        let s = string_from_chars(value);
        proof {
            lemma_strings_push(filters.in_chat@, s);
        }
        filters.in_chat.push(s);
    } else if chars_eq_str(key, "before") {
        let s = string_from_chars(value);
        filters.before = parse_date_boundary(s.as_str());
    } else if chars_eq_str(key, "after") {
        let s = string_from_chars(value);
        filters.after = parse_date_boundary(s.as_str());
    } else if chars_eq_str(key, "has") {
        if chars_eq_str(l, "photo") || chars_eq_str(l, "image") || chars_eq_str(l, "video") {
            filters.has_photo = true;
        } else if chars_eq_str(l, "link") || chars_eq_str(l, "url") {
            filters.has_link = true;
        } else if chars_eq_str(l, "attachment") || chars_eq_str(l, "file") {
            filters.has_attachment = true;
        } else {
            push_fts_term(fts_parts, value);
        }
    } else {
        if chars_eq_str(l, "from-me") || chars_eq_str(l, "fromme") || chars_eq_str(l, "sent") {
            filters.is_from_me = Some(true);
        } else if chars_eq_str(l, "from-them") || chars_eq_str(l, "fromthem") || chars_eq_str(
            l,
            "received",
        ) {
            filters.is_from_me = Some(false);
        } else {
            push_fts_term(fts_parts, value);
        }
    }
}

fn join_parts(parts: &Vec<Vec<char>>) -> (r: Vec<char>)
    ensures
        r@ == join_space(chars_view(parts@)),
{
    let ghost pv = chars_view(parts@);
    let mut out: Vec<char> = Vec::new();
    if parts.len() == 0 {
        return out;
    }
    push_chars(&mut out, parts[0].as_slice());
    let mut i: usize = 1;
    assert(pv.take(1).drop_last() =~= Seq::<Seq<char>>::empty());
    assert(out@ =~= join_space(pv.take(1)));
    while i < parts.len()
        invariant
            1 <= i <= parts@.len(),
            pv == chars_view(parts@),
            out@ == join_space(pv.take(i as int)),
        decreases parts@.len() - i,
    {
        out.push(' ');
        push_chars(&mut out, parts[i].as_slice());
        i = i + 1;
        assert(pv.take(i as int).drop_last() =~= pv.take(i - 1));
    }
    assert(pv.take(parts@.len() as int) =~= pv);
    out
}

/// Parse a raw query string into a [`ParsedQuery`].
pub fn parse_query(raw: &str) -> (r: ParsedQuery)
    ensures
        r.filters@ == query_filters(raw@),
        match r.fts {
            Some(f) => query_fts(raw@) == Some(f@),
            None => query_fts(raw@) is None,
        },
        r.raw@ == raw@,
{
    let chars = chars_of(raw);
    let tokens = tokenize(chars.as_slice());
    let ghost tv = chars_view(tokens@);
    let mut filters = Filters::new();
    let mut fts_parts: Vec<Vec<char>> = Vec::new();
    let mut i: usize = 0;
    assert(chars_view(fts_parts@) =~= Seq::<Seq<char>>::empty());
    assert(tv.take(0) =~= Seq::<Seq<char>>::empty());
    while i < tokens.len()
        invariant
            i <= tokens@.len(),
            tv == chars_view(tokens@),
            query_fold(tv.take(i as int)) == (filters@, chars_view(fts_parts@)),
        decreases tokens@.len() - i,
    {
        let token = tokens[i].as_slice();
        match split_operator(token) {
            Some((key, value)) => {
                apply_operator(&mut filters, key.as_slice(), value.as_slice(), &mut fts_parts);
            },
            None => {
                push_fts_term(&mut fts_parts, token);
            },
        }
        i = i + 1;
        assert(tv.take(i as int).drop_last() =~= tv.take(i - 1));
    }
    assert(tv.take(tokens@.len() as int) =~= tv);
    let fts = if fts_parts.len() == 0 {
        None
    } else {
        let joined = join_parts(&fts_parts);
        Some(string_from_chars(joined.as_slice()))
    };
    ParsedQuery { fts, filters, raw: string_of(raw) }
}

} // verus!

verus! {

// ---------------------------------------------------------------------------
// Laws
// ---------------------------------------------------------------------------

/// Every `"` in `s` is the first of an adjacent `""` pair (read left to right):
/// the content of an FTS5 string literal.
pub open spec fn quotes_paired(s: Seq<char>) -> bool
    decreases s.len(),
{
    if s.len() == 0 {
        true
    } else if s[0] == '"' {
        s.len() >= 2 && s[1] == '"' && quotes_paired(s.subrange(2, s.len() as int))
    } else {
        quotes_paired(s.drop_first())
    }
}

/// A well-formed FTS5 string literal: `"…"` whose content has its quotes
/// doubled, so no punctuation inside can act as FTS syntax.
pub open spec fn is_fts_literal(p: Seq<char>) -> bool {
    p.len() >= 2 && p[0] == '"' && p.last() == '"' && quotes_paired(p.subrange(1, p.len() - 1))
}

proof fn lemma_paired_concat(a: Seq<char>, b: Seq<char>)
    requires
        quotes_paired(a),
        quotes_paired(b),
    ensures
        quotes_paired(a + b),
    decreases a.len(),
{
    if a.len() == 0 {
        assert(a + b =~= b);
    } else if a[0] == '"' {
        let rest = a.subrange(2, a.len() as int);
        lemma_paired_concat(rest, b);
        assert((a + b).subrange(2, (a + b).len() as int) =~= rest + b);
    } else {
        lemma_paired_concat(a.drop_first(), b);
        assert((a + b).drop_first() =~= a.drop_first() + b);
    }
}

proof fn lemma_escape_paired(s: Seq<char>)
    ensures
        quotes_paired(escape_quotes(s)),
    decreases s.len(),
{
    if s.len() > 0 {
        lemma_escape_paired(s.drop_last());
        let tail = if s.last() == '"' {
            seq!['"', '"']
        } else {
            seq![s.last()]
        };
        let e: Seq<char> = Seq::empty();
        assert(quotes_paired(e));
        if s.last() == '"' {
            assert(tail.subrange(2, 2) =~= e);
        } else {
            assert(tail.drop_first() =~= e);
        }
        lemma_paired_concat(escape_quotes(s.drop_last()), tail);
        if s.last() != '"' {
            assert(escape_quotes(s) =~= escape_quotes(s.drop_last()) + tail);
        }
    }
}

/// Free text can never inject FTS syntax: every phrase the parser emits for a
/// token is a well-formed FTS5 string literal (wrapped in quotes, embedded
/// quotes doubled).
pub proof fn lemma_fts_terms_are_literals(token: Seq<char>)
    ensures
        fts_term_spec(token) matches Some(p) ==> is_fts_literal(p),
{
    let t = trim(strip_quotes_spec(token));
    if t.len() > 0 {
        let p = seq!['"'] + escape_quotes(t) + seq!['"'];
        lemma_escape_paired(t);
        assert(p.subrange(1, p.len() - 1) =~= escape_quotes(t));
    }
}

/// A token is an operator only when the text before its first colon is one of
/// the recognized keys (in any ASCII case): anything else that contains a
/// colon, such as a pasted URL, stays free text.
pub proof fn lemma_only_known_keys_are_operators(token: Seq<char>)
    ensures
        split_operator_spec(token) matches Some((k, v)) ==> {
            &&& is_operator_key(k)
            &&& find_char(token, ':') matches Some(i) && k == ascii_lower_seq(token.subrange(0, i))
            &&& v.len() > 0
        },
        find_char(token, ':') is None ==> split_operator_spec(token) is None,
{
}

/// A query none of whose tokens is an operator has no filters: all of it is
/// free text.
pub proof fn lemma_free_text_only_has_no_filters(raw: Seq<char>)
    requires
        forall|i: int|
            0 <= i < tokenize_spec(raw).len() ==> (split_operator_spec(#[trigger] tokenize_spec(raw)[i]) is None),
    ensures
        filters_empty(query_filters(raw)),
{
    let toks = tokenize_spec(raw);
    lemma_fold_without_operators(toks);
}

proof fn lemma_fold_without_operators(toks: Seq<Seq<char>>)
    requires
        forall|i: int| 0 <= i < toks.len() ==> (split_operator_spec(#[trigger] toks[i]) is None),
    ensures
        query_fold(toks).0 == empty_filters(),
    decreases toks.len(),
{
    if toks.len() > 0 {
        let init = toks.drop_last();
        assert forall|i: int| 0 <= i < init.len() implies (split_operator_spec(#[trigger] init[i]) is None) by {
            assert(init[i] == toks[i]);
        }
        lemma_fold_without_operators(init);
        assert(split_operator_spec(toks[toks.len() - 1]) is None);
    }
}


// ---------------------------------------------------------------------------
// What the `is:` and `has:` values mean
// ---------------------------------------------------------------------------

/// The documented `is:` and `has:` values, in any ASCII case, each set the
/// filter they name and leave everything else as it was: `is:sent` (also
/// `from-me`, `fromme`) keeps only messages the owner sent, `is:received`
/// (also `from-them`, `fromthem`) only those received from others;
/// `has:attachment` (also `file`) asks for any attachment, `has:photo` (also
/// `image`, `video`) for a photo or video, `has:link` (also `url`) for a
/// link.
pub proof fn lemma_is_and_has_values(st: QueryState, token: Seq<char>, key: Seq<char>, value: Seq<char>)
    requires
        split_operator_spec(token) == Some((key, value)),
    ensures
        ({
            let r = apply_token(st, token);
            let l = ascii_lower_seq(value);
            let f = st.0;
            &&& key == "is"@ && (l == "sent"@ || l == "from-me"@ || l == "fromme"@) ==> r == (
            FiltersView { is_from_me: Some(true), ..f }, st.1)
            &&& key == "is"@ && (l == "received"@ || l == "from-them"@ || l == "fromthem"@) ==> r == (
            FiltersView { is_from_me: Some(false), ..f }, st.1)
            &&& key == "has"@ && (l == "attachment"@ || l == "file"@) ==> r == (
            FiltersView { has_attachment: true, ..f }, st.1)
            &&& key == "has"@ && (l == "photo"@ || l == "image"@ || l == "video"@) ==> r == (
            FiltersView { has_photo: true, ..f }, st.1)
            &&& key == "has"@ && (l == "link"@ || l == "url"@) ==> r == (FiltersView { has_link: true, ..f }, st.1)
        }),
{
    reveal_strlit("from");
    reveal_strlit("in");
    reveal_strlit("before");
    reveal_strlit("after");
    reveal_strlit("has");
    reveal_strlit("is");
    reveal_strlit("sent");
    reveal_strlit("from-me");
    reveal_strlit("fromme");
    reveal_strlit("received");
    reveal_strlit("from-them");
    reveal_strlit("fromthem");
    reveal_strlit("attachment");
    reveal_strlit("file");
    reveal_strlit("photo");
    reveal_strlit("image");
    reveal_strlit("video");
    reveal_strlit("link");
    reveal_strlit("url");
    let l = ascii_lower_seq(value);
    if key == "is"@ {
        assert(("is"@)[1] != ("in"@)[1]);
        assert(("is"@).len() != ("from"@).len() && ("is"@).len() != ("before"@).len());
        assert(("is"@).len() != ("after"@).len() && ("is"@).len() != ("has"@).len());
        assert(key != "from"@ && key != "in"@ && key != "before"@ && key != "after"@ && key != "has"@);
        if l == "received"@ || l == "from-them"@ || l == "fromthem"@ {
            assert(("received"@).len() == 8 && ("from-them"@).len() == 9 && ("fromthem"@).len() == 8);
            assert(("sent"@).len() == 4 && ("from-me"@).len() == 7 && ("fromme"@).len() == 6);
            assert(l != "sent"@ && l != "from-me"@ && l != "fromme"@);
        }
    }
    if key == "has"@ {
        assert(("has"@).len() != ("from"@).len() && ("has"@).len() != ("in"@).len());
        assert(("has"@).len() != ("before"@).len() && ("has"@).len() != ("after"@).len());
        assert(key != "from"@ && key != "in"@ && key != "before"@ && key != "after"@);
        if l == "attachment"@ || l == "file"@ {
            assert(("file"@)[0] != ("link"@)[0]);
            assert(("attachment"@).len() != ("photo"@).len() && ("attachment"@).len() != ("image"@).len());
            assert(("attachment"@).len() != ("video"@).len() && ("attachment"@).len() != ("link"@).len());
            assert(("attachment"@).len() != ("url"@).len() && ("file"@).len() != ("photo"@).len());
            assert(("file"@).len() != ("image"@).len() && ("file"@).len() != ("video"@).len());
            assert(("file"@).len() != ("url"@).len());
            assert(l != "photo"@ && l != "image"@ && l != "video"@ && l != "link"@ && l != "url"@);
        }
        if l == "link"@ || l == "url"@ {
            assert(("link"@).len() == 4 && ("url"@).len() == 3);
            assert(("photo"@).len() == 5 && ("image"@).len() == 5 && ("video"@).len() == 5);
            assert(l != "photo"@ && l != "image"@ && l != "video"@);
        }
    }
}

} // verus!
