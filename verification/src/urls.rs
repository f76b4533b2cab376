//! URL detection and extraction.
//!
//! One pattern backs both the index-time `has_link` flag ([`has_url`]) and the
//! links hub's per-URL expansion ([`extract_urls`]): `http(s)://…` URLs and
//! bare `www.` hosts, as a run of non-whitespace after the scheme. Trailing
//! sentence punctuation is trimmed and bare `www.` hosts become `https://`.

use vstd::prelude::*;
use crate::text::{is_ws, ascii_lower, ascii_lower_seq, ascii_lowercase, chars_eq, chars_of, push_chars, push_str, slice_chars, string_from_chars};

verus! {

/// The URL pattern: `http(s)://` or `www.` at a word boundary, then a run of
/// non-whitespace, matched ASCII-case-insensitively.
pub const URL_PATTERN: &'static str = "(?i)\\b(?:https?://|www\\.)\\S+";

/// The texts of the successive non-overlapping matches that
/// `regex::Regex::find_iter` reports for `pattern` over `haystack`; `None`
/// when the pattern does not compile.
pub uninterp spec fn regex_find_all(pattern: Seq<char>, haystack: Seq<char>) -> Option<Seq<Seq<char>>>;

/// What `regex::Regex::is_match` reports for `pattern` over `haystack`; `None`
/// when the pattern does not compile.
pub uninterp spec fn regex_is_match(pattern: Seq<char>, haystack: Seq<char>) -> Option<bool>;

pub open spec fn strings_opt_view(r: Option<Vec<String>>) -> Option<Seq<Seq<char>>> {
    match r {
        Some(v) => Some(v@.map_values(|s: String| s@)),
        None => None,
    }
}

/// `c` matches the pattern character `l` under the regex's `(?i)` Unicode
/// simple case folding, for the characters of the URL prefixes: a letter
/// matches either ASCII case, `s` also matches `ſ` (U+017F), and `:`, `/`
/// and `.` match only themselves.
pub open spec fn folds_to(c: char, l: char) -> bool {
    ascii_lower(c) == l || (l == 's' && c == '\u{17f}')
}

/// `m` begins with `p` under that case folding.
pub open spec fn folds_prefix(m: Seq<char>, p: Seq<char>) -> bool {
    p.len() <= m.len() && forall|i: int| 0 <= i < p.len() ==> folds_to(#[trigger] m[i], p[i])
}

/// `m` begins with one of the URL pattern's prefixes, `http://`, `https://`
/// or `www.`, in any case the pattern accepts.
pub open spec fn url_prefixed(m: Seq<char>) -> bool {
    folds_prefix(m, "http://"@) || folds_prefix(m, "https://"@) || folds_prefix(m, "www."@)
}

/// `m` spells the `s` of an `https` scheme as `ſ` (U+017F), which the
/// pattern's case folding accepts and no browser does.
pub open spec fn long_s_scheme(m: Seq<char>) -> bool {
    m.len() > 4 && ascii_lower(m[3]) == 'p' && m[4] == '\u{17f}'
}

/// `s` holds no whitespace (Unicode `White_Space`, what `\s` matches in the
/// regex's default Unicode mode).
pub open spec fn no_whitespace(s: Seq<char>) -> bool {
    forall|i: int| 0 <= i < s.len() ==> !is_ws(#[trigger] s[i])
}

/// The shape of every match of the URL pattern: it begins with one of the
/// pattern's prefixes and is a run of non-whitespace.
pub open spec fn url_match_shape(m: Seq<char>) -> bool {
    url_prefixed(m) && no_whitespace(m)
}

/// `regex::Regex::new(pattern)`, then `find_iter(haystack)`, each match taken
/// as its text. A compiled regex behaves as a function of its pattern, so the
/// result is named over the pattern and the haystack. Each match is text that
/// the pattern matches; for the URL pattern, `(?i)\b(?:https?://|www\.)\S+`,
/// every match begins with one of the alternatives `https?://` or `www\.`,
/// case-folded as the regex's Unicode tables fold, and the rest is a run of
/// `\S`, so no character of it is whitespace.
#[verifier::external_body]
fn regex_find_texts(pattern: &str, haystack: &str) -> (r: Option<Vec<String>>)
    ensures
        strings_opt_view(r) == regex_find_all(pattern@, haystack@),
        pattern@ == URL_PATTERN@ ==> (r matches Some(v) ==> forall|i: int|
            0 <= i < v@.len() ==> url_match_shape(#[trigger] v@[i]@)),
{
    match regex::Regex::new(pattern) {
        Ok(re) => Some(re.find_iter(haystack).map(|m| m.as_str().to_string()).collect()),
        Err(_) => None,
    }
}

/// `regex::Regex::new(pattern)`, then `is_match(haystack)`. The regex
/// documentation states that `is_match` is true exactly when there is a match
/// anywhere in the haystack, that is, when `find_iter` yields at least one.
#[verifier::external_body]
fn regex_test(pattern: &str, haystack: &str) -> (r: Option<bool>)
    ensures
        r == regex_is_match(pattern@, haystack@),
        r is None <==> regex_find_all(pattern@, haystack@) is None,
        r matches Some(b) ==> (b <==> regex_find_all(pattern@, haystack@)->Some_0.len() > 0),
{
    match regex::Regex::new(pattern) {
        Ok(re) => Some(re.is_match(haystack)),
        Err(_) => None,
    }
}

/// The URL-pattern matches in `text` (none if the pattern did not compile).
pub open spec fn url_matches(text: Seq<char>) -> Seq<Seq<char>> {
    match regex_find_all(URL_PATTERN@, text) {
        Some(ms) => ms,
        None => Seq::empty(),
    }
}

/// Whether `text` contains at least one URL (drives the `has_link` flag).
pub fn has_url(text: &str) -> (r: bool)
    ensures
        r == (url_matches(text@).len() > 0),
{
    match regex_test(URL_PATTERN, text) {
        Some(b) => b,
        None => false,
    }
}

/// Punctuation a URL commonly picks up from surrounding prose.
pub open spec fn is_trailing_punct(c: char) -> bool {
    c == '.' || c == ',' || c == ';' || c == ':' || c == '!' || c == '?' || c == ')' || c == ']'
        || c == '}' || c == '"' || c == '\'' || c == '>'
}

/// `s` without its trailing punctuation.
pub open spec fn trim_trailing_punct(s: Seq<char>) -> Seq<char>
    decreases s.len(),
{
    if s.len() > 0 && is_trailing_punct(s.last()) {
        trim_trailing_punct(s.drop_last())
    } else {
        s
    }
}

/// `s` begins with `p`, ignoring ASCII case (`p` is lower case).
pub open spec fn starts_with_ascii_ci(s: Seq<char>, p: Seq<char>) -> bool {
    p.len() <= s.len() && ascii_lower_seq(s.subrange(0, p.len() as int)) == p
}

/// An absolute web URL: it begins, ignoring ASCII case, with `http://` or
/// `https://`.
pub open spec fn is_absolute_url(u: Seq<char>) -> bool {
    starts_with_ascii_ci(u, "http://"@) || starts_with_ascii_ci(u, "https://"@)
}

/// What every extracted URL looks like: non-empty, free of whitespace, not
/// ending in trailing sentence punctuation, and absolute, except where the
/// match spelled the `s` of `https` as `ſ` (which the pattern's case folding
/// accepts): such a URL keeps that spelling.
pub open spec fn is_clean_url(u: Seq<char>) -> bool {
    &&& u.len() > 0
    &&& !is_trailing_punct(u.last())
    &&& no_whitespace(u)
    &&& (is_absolute_url(u) || long_s_scheme(u))
}

/// A matched URL with trailing punctuation trimmed; a match that begins with
/// a bare `www.` host (ASCII-case-insensitively) is promoted to `https://`.
/// A match that is nothing but punctuation yields nothing.
pub open spec fn normalize_url(raw: Seq<char>) -> Option<Seq<char>> {
    let t = trim_trailing_punct(raw);
    if t.len() == 0 {
        None
    } else if starts_with_ascii_ci(raw, "www."@) {
        Some("https://"@ + t)
    } else {
        Some(t)
    }
}

/// The normalized URLs of a list of matches, in order, dropping those that
/// normalize to nothing.
pub open spec fn normalize_all(ms: Seq<Seq<char>>) -> Seq<Seq<char>>
    decreases ms.len(),
{
    if ms.len() == 0 {
        Seq::empty()
    } else {
        match normalize_url(ms.last()) {
            Some(u) => normalize_all(ms.drop_last()).push(u),
            None => normalize_all(ms.drop_last()),
        }
    }
}

/// The URLs of `text`, in order of appearance.
pub open spec fn urls_of(text: Seq<char>) -> Seq<Seq<char>> {
    normalize_all(url_matches(text))
}

fn is_trailing_punct_exec(c: char) -> (r: bool)
    ensures
        r == is_trailing_punct(c),
{
    c == '.' || c == ',' || c == ';' || c == ':' || c == '!' || c == '?' || c == ')' || c == ']'
        || c == '}' || c == '"' || c == '\'' || c == '>'
}

/// Whether `v` begins with `lit`, ignoring ASCII case.
fn starts_with_ci(v: &[char], lit: &str) -> (r: bool)
    ensures
        r == starts_with_ascii_ci(v@, lit@),
{
    let p = chars_of(lit);
    if v.len() < p.len() {
        return false;
    }
    let head = ascii_lowercase(slice_chars(v, 0, p.len()).as_slice());
    chars_eq(head.as_slice(), p.as_slice())
}

/// Trim trailing punctuation and promote a bare `www.` host to
/// `https://www.…`.
fn normalize(raw: &str) -> (r: Option<String>)
    ensures
        match r {
            Some(s) => normalize_url(raw@) == Some(s@),
            None => normalize_url(raw@) is None,
        },
{
    let v = chars_of(raw);
    let mut j: usize = v.len();
    assert(v@.subrange(0, j as int) =~= v@);
    while j > 0 && is_trailing_punct_exec(v[j - 1])
        invariant
            j <= v@.len(),
            trim_trailing_punct(v@) == trim_trailing_punct(v@.subrange(0, j as int)),
        decreases j,
    {
        assert(v@.subrange(0, j as int).drop_last() =~= v@.subrange(0, j - 1));
        j = j - 1;
    }
    let t = slice_chars(v.as_slice(), 0, j);
    if t.len() == 0 {
        return None;
    }
    if starts_with_ci(v.as_slice(), "www.") {
        let mut out: Vec<char> = Vec::new();
        push_str(&mut out, "https://");
        push_chars(&mut out, t.as_slice());
        return Some(string_from_chars(out.as_slice()));
    }
    Some(string_from_chars(t.as_slice()))
}

/// Extract every URL from `text`, in the order they appear. Trailing sentence
/// punctuation is trimmed and bare `www.` hosts are normalized to an absolute
/// `https://` URL so callers can open them directly. Every match yields one
/// URL, so extraction finds a URL exactly when [`has_url`] detects one.
pub fn extract_urls(text: &str) -> (r: Vec<String>)
    ensures
        r@.map_values(|s: String| s@) == urls_of(text@),
        r@.len() == url_matches(text@).len(),
        forall|i: int| 0 <= i < r@.len() ==> is_clean_url(#[trigger] r@[i]@),
        forall|i: int| 0 <= i < url_matches(text@).len() ==> url_match_shape(#[trigger] url_matches(text@)[i]),
{
    let ms = match regex_find_texts(URL_PATTERN, text) {
        Some(v) => v,
        None => Vec::new(),
    };
    let ghost mv = ms@.map_values(|s: String| s@);
    assert(mv =~= url_matches(text@));
    assert forall|i: int| 0 <= i < mv.len() implies url_match_shape(#[trigger] mv[i]) by {
        assert(mv[i] == ms@[i]@);
    }
    let mut out: Vec<String> = Vec::new();
    let mut i: usize = 0;
    assert(mv.take(0) =~= Seq::<Seq<char>>::empty());
    assert(out@.map_values(|s: String| s@) =~= Seq::<Seq<char>>::empty());
    while i < ms.len()
        invariant
            i <= ms@.len(),
            mv == ms@.map_values(|s: String| s@),
            out@.map_values(|s: String| s@) == normalize_all(mv.take(i as int)),
        decreases ms@.len() - i,
    {
        assert(mv.take(i + 1).drop_last() =~= mv.take(i as int));
        match normalize(ms[i].as_str()) {
            Some(u) => {
                let ghost before = out@;
                out.push(u);
                assert(out@.map_values(|s: String| s@) =~= before.map_values(|s: String| s@).push(u@));
            },
            None => {},
        }
        i = i + 1;
    }
    assert(mv.take(ms@.len() as int) =~= mv);
    proof {
        lemma_normalize_all_clean(mv);
        assert forall|i: int| 0 <= i < out@.len() implies is_clean_url(#[trigger] out@[i]@) by {
            assert(out@.map_values(|s: String| s@)[i] == out@[i]@);
        }
    }
    out
}

// ---------------------------------------------------------------------------
// Laws
// ---------------------------------------------------------------------------

/// Trimming trailing punctuation keeps a prefix of `s`, and keeps at least
/// the first `k` characters when the `k`-th is not punctuation.
proof fn lemma_trim_keeps_prefix(s: Seq<char>, k: int)
    requires
        0 < k <= s.len(),
        !is_trailing_punct(s[k - 1]),
    ensures
        k <= trim_trailing_punct(s).len() <= s.len(),
        trim_trailing_punct(s) =~= s.subrange(0, trim_trailing_punct(s).len() as int),
    decreases s.len(),
{
    if is_trailing_punct(s.last()) {
        lemma_trim_keeps_prefix(s.drop_last(), k);
    }
}

/// What is left after trimming does not end in trailing punctuation.
proof fn lemma_trim_clean_end(s: Seq<char>)
    ensures
        trim_trailing_punct(s).len() > 0 ==> !is_trailing_punct(trim_trailing_punct(s).last()),
    decreases s.len(),
{
    if s.len() > 0 && is_trailing_punct(s.last()) {
        lemma_trim_clean_end(s.drop_last());
    }
}

/// A match of the URL pattern's shape always yields a clean URL.
proof fn lemma_normalize_shape(m: Seq<char>)
    requires
        url_match_shape(m),
    ensures
        normalize_url(m) matches Some(u) && is_clean_url(u),
{
    reveal_strlit("www.");
    reveal_strlit("http://");
    reveal_strlit("https://");
    let t = trim_trailing_punct(m);
    assert(ascii_lower(m[0]) == 'h' || ascii_lower(m[0]) == 'w');
    assert(!is_trailing_punct(m[0]));
    lemma_trim_keeps_prefix(m, 1);
    lemma_trim_clean_end(m);
    assert forall|i: int| 0 <= i < t.len() implies !is_ws(#[trigger] t[i]) by {
        assert(t[i] == m[i]);
    }
    if starts_with_ascii_ci(m, "www."@) {
        let u = "https://"@ + t;
        assert(u.subrange(0, 8) =~= "https://"@);
        assert(ascii_lower_seq(u.subrange(0, 8)) =~= "https://"@);
        assert(u.last() == t.last());
        assert forall|i: int| 0 <= i < u.len() implies !is_ws(#[trigger] u[i]) by {
            if i >= 8 {
                assert(u[i] == t[i - 8]);
            }
        }
    } else if folds_prefix(m, "www."@) {
        assert(ascii_lower_seq(m.subrange(0, 4)) =~= "www."@);
    } else if folds_prefix(m, "https://"@) {
        assert(m[7] == '/');
        lemma_trim_keeps_prefix(m, 8);
        assert(t[3] == m[3] && t[4] == m[4]);
        if m[4] != '\u{17f}' {
            assert(t.subrange(0, 8) =~= m.subrange(0, 8));
            assert(ascii_lower_seq(t.subrange(0, 8)) =~= "https://"@);
        }
    } else {
        assert(folds_prefix(m, "http://"@));
        assert(m[6] == '/');
        lemma_trim_keeps_prefix(m, 7);
        assert(t.subrange(0, 7) =~= m.subrange(0, 7));
        assert(ascii_lower_seq(t.subrange(0, 7)) =~= "http://"@);
    }
}

/// Matches of the URL pattern's shape yield one clean URL each.
proof fn lemma_normalize_all_clean(ms: Seq<Seq<char>>)
    requires
        forall|i: int| 0 <= i < ms.len() ==> url_match_shape(#[trigger] ms[i]),
    ensures
        normalize_all(ms).len() == ms.len(),
        forall|i: int| 0 <= i < normalize_all(ms).len() ==> is_clean_url(#[trigger] normalize_all(ms)[i]),
    decreases ms.len(),
{
    if ms.len() > 0 {
        assert forall|i: int| 0 <= i < ms.drop_last().len() implies url_match_shape(#[trigger] ms.drop_last()[i]) by {
            assert(ms.drop_last()[i] == ms[i]);
        }
        lemma_normalize_all_clean(ms.drop_last());
        assert(url_match_shape(ms[ms.len() - 1]));
        lemma_normalize_shape(ms.last());
        let prev = normalize_all(ms.drop_last());
        assert forall|i: int| 0 <= i < normalize_all(ms).len() implies is_clean_url(
            #[trigger] normalize_all(ms)[i],
        ) by {
            if i < prev.len() {
                assert(normalize_all(ms)[i] == prev[i]);
            }
        }
    }
}

/// Detection and extraction agree: `has_url` holds exactly when
/// `extract_urls` returns at least one URL, and extraction yields one URL per
/// match. The condition is what the URL pattern's matches are like, which
/// `extract_urls` states of every text.
pub proof fn lemma_detection_agrees_with_extraction(text: Seq<char>)
    requires
        forall|i: int| 0 <= i < url_matches(text).len() ==> url_match_shape(#[trigger] url_matches(text)[i]),
    ensures
        urls_of(text).len() == url_matches(text).len(),
        url_matches(text).len() > 0 <==> urls_of(text).len() > 0,
{
    lemma_normalize_all_clean(url_matches(text));
}


/// The sentence punctuation a URL picks up from prose: `.` `,` `;` `:` `!`
/// `?` `)` `]` `}` `"` `'` `>`.
pub open spec fn is_sentence_punctuation(c: char) -> bool {
    c == '.' || c == ',' || c == ';' || c == ':' || c == '!' || c == '?' || c == ')' || c == ']' || c == '}'
        || c == '"' || c == '\'' || c == '>'
}

proof fn lemma_normalized_ends_clean(m: Seq<char>)
    ensures
        normalize_url(m) matches Some(u) ==> u.len() > 0 && !is_sentence_punctuation(u.last()),
{
    lemma_trim_clean_end(m);
    let t = trim_trailing_punct(m);
    if t.len() > 0 && starts_with_ascii_ci(m, "www."@) {
        let u = "https://"@ + t;
        assert(u.last() == t.last());
    }
}

proof fn lemma_normalize_all_ends_clean(ms: Seq<Seq<char>>)
    ensures
        forall|i: int| 0 <= i < normalize_all(ms).len() ==> {
            let u = #[trigger] normalize_all(ms)[i];
            u.len() > 0 && !is_sentence_punctuation(u.last())
        },
    decreases ms.len(),
{
    if ms.len() > 0 {
        lemma_normalize_all_ends_clean(ms.drop_last());
        lemma_normalized_ends_clean(ms.last());
        let prev = normalize_all(ms.drop_last());
        assert forall|i: int| 0 <= i < normalize_all(ms).len() implies {
            let u = #[trigger] normalize_all(ms)[i];
            u.len() > 0 && !is_sentence_punctuation(u.last())
        } by {
            if i < prev.len() {
                assert(normalize_all(ms)[i] == prev[i]);
            }
        }
    }
}

/// Whatever the text, no URL extracted from it is empty or ends in sentence
/// punctuation (`.` `,` `;` `:` `!` `?` `)` `]` `}` `"` `'` `>`): the
/// punctuation that closes a sentence around a link is never kept.
pub proof fn lemma_urls_drop_sentence_punctuation(text: Seq<char>)
    ensures
        forall|i: int| 0 <= i < urls_of(text).len() ==> {
            let u = #[trigger] urls_of(text)[i];
            u.len() > 0 && !is_sentence_punctuation(u.last())
        },
{
    lemma_normalize_all_ends_clean(url_matches(text));
}


proof fn lemma_trim_shape(s: Seq<char>)
    ensures
        trim_trailing_punct(s).len() <= s.len(),
        trim_trailing_punct(s) =~= s.take(trim_trailing_punct(s).len() as int),
        forall|j: int| trim_trailing_punct(s).len() <= j < s.len() ==> is_trailing_punct(#[trigger] s[j]),
    decreases s.len(),
{
    if s.len() > 0 && is_trailing_punct(s.last()) {
        lemma_trim_shape(s.drop_last());
        let n = trim_trailing_punct(s).len() as int;
        assert(s.drop_last().take(n) =~= s.take(n));
        assert forall|j: int| n <= j < s.len() implies is_trailing_punct(#[trigger] s[j]) by {
            if j < s.len() - 1 {
                assert(s[j] == s.drop_last()[j]);
            }
        }
    } else {
        assert(s.take(s.len() as int) =~= s);
    }
}

/// A URL is its match with the sentence punctuation at its end removed, and
/// nothing else: the match is the URL's text followed only by such
/// punctuation, the text does not itself end in one, and the URL is that text,
/// with `https://` put in front exactly when the match begins with `www.`
/// (in any ASCII case).
pub proof fn lemma_url_is_match_less_punctuation(m: Seq<char>)
    ensures
        normalize_url(m) matches Some(u) ==> exists|k: int|
            0 < k <= m.len() && !is_sentence_punctuation(m[k - 1]) && (forall|j: int|
                k <= j < m.len() ==> is_sentence_punctuation(#[trigger] m[j])) && u == (if starts_with_ascii_ci(
                m,
                "www."@,
            ) {
                "https://"@ + m.take(k)
            } else {
                m.take(k)
            }),
{
    lemma_trim_shape(m);
    lemma_trim_clean_end(m);
    let t = trim_trailing_punct(m);
    if t.len() > 0 {
        let k = t.len() as int;
        assert(m[k - 1] == t.last());
        assert(forall|j: int| k <= j < m.len() ==> is_sentence_punctuation(#[trigger] m[j]));
    }
}

} // verus!
