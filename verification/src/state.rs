//! Decisions the desktop shell makes about failures and links: whether an
//! error is a Full Disk Access denial, how such errors are surfaced, and which
//! URLs may be handed to the system opener.

use vstd::prelude::*;
use crate::text::{debug_quoted, debug_str, ascii_lower_seq, ascii_lowercase, chars_of, contains, contains_chars, push_chars, push_str, starts_with, starts_with_chars, string_from_chars};

verus! {

/// Whether one error message (ASCII-lowercased) reads like a permission
/// denial.
pub open spec fn permission_message(msg: Seq<char>) -> bool {
    let m = ascii_lower_seq(msg);
    ||| contains(m, "authorization denied"@)
    ||| contains(m, "not authorized"@)
    ||| contains(m, "operation not permitted"@)
    ||| contains(m, "unable to open database file"@)
    ||| contains(m, "permission denied"@)
    ||| contains(m, "access denied"@)
}

fn permission_message_exec(msg: &str) -> (r: bool)
    ensures
        r == permission_message(msg@),
{
    let m = ascii_lowercase(chars_of(msg).as_slice());
    let ms = m.as_slice();
    contains_chars(ms, chars_of("authorization denied").as_slice()) || contains_chars(ms, chars_of("not authorized").as_slice())
        || contains_chars(ms, chars_of("operation not permitted").as_slice()) || contains_chars(
        ms,
        chars_of("unable to open database file").as_slice(),
    ) || contains_chars(ms, chars_of("permission denied").as_slice()) || contains_chars(
        ms,
        chars_of("access denied").as_slice(),
    )
}

/// Whether an error chain (the messages of an error and its causes, outermost
/// first) looks like a macOS Full Disk Access / permission denial rather than,
/// say, a malformed query.
pub fn is_permission_error(chain: &Vec<String>) -> (r: bool)
    ensures
        r == exists|i: int| 0 <= i < chain@.len() && permission_message(#[trigger] chain@[i]@),
{
    let mut i: usize = 0;
    while i < chain.len()
        invariant
            i <= chain@.len(),
            forall|j: int| 0 <= j < i ==> !permission_message(#[trigger] chain@[j]@),
        decreases chain@.len() - i,
    {
        if permission_message_exec(chain[i].as_str()) {
            return true;
        }
        i = i + 1;
    }
    false
}

/// The error string of a failed sync/reindex: the rendered error, prefixed
/// with `FDA_DENIED: ` exactly when the chain looks like a permission problem
/// (the UI then routes to the Full Disk Access onboarding screen).
pub fn map_sync_err(chain: &Vec<String>, rendered: &str) -> (r: String)
    ensures
        r@ == (if exists|i: int| 0 <= i < chain@.len() && permission_message(#[trigger] chain@[i]@) {
            "FDA_DENIED: "@ + rendered@
        } else {
            rendered@
        }),
{
    let mut out: Vec<char> = Vec::new();
    if is_permission_error(chain) {
        push_str(&mut out, "FDA_DENIED: ");
    }
    push_str(&mut out, rendered);
    string_from_chars(out.as_slice())
}

/// The error shown when the source database cannot be opened: on macOS that
/// is in practice always a Full Disk Access denial, which the onboarding
/// screen fixes, so the message is marked for it.
pub fn fda_denied(rendered: &str) -> (r: String)
    ensures
        r@ == "FDA_DENIED: "@ + rendered@,
{
    let mut out: Vec<char> = Vec::new();
    push_str(&mut out, "FDA_DENIED: ");
    push_str(&mut out, rendered);
    string_from_chars(out.as_slice())
}

/// Whether a URL may be opened: only `http://`, `https://` and `mailto:`, so an
/// odd string from message text can never be taken by the opener as a flag or
/// a local file path.
pub open spec fn openable_url(url: Seq<char>) -> bool {
    starts_with(url, "http://"@) || starts_with(url, "https://"@) || starts_with(url, "mailto:"@)
}

/// Whether `url` is a web or mail link the system opener may be given.
pub fn is_openable_url(url: &str) -> (r: bool)
    ensures
        r == openable_url(url@),
{
    let u = chars_of(url);
    starts_with_chars(u.as_slice(), chars_of("http://").as_slice()) || starts_with_chars(
        u.as_slice(),
        chars_of("https://").as_slice(),
    ) || starts_with_chars(u.as_slice(), chars_of("mailto:").as_slice())
}

/// Nothing the opener accepts can start with `-` (be read as a flag) or `/`
/// (be read as a local path).
pub proof fn lemma_openable_is_not_flag_or_path(url: Seq<char>)
    requires
        openable_url(url),
    ensures
        url[0] != '-',
        url[0] != '/',
{
    reveal_strlit("http://");
    reveal_strlit("https://");
    reveal_strlit("mailto:");
    if starts_with(url, "http://"@) {
        assert(url[0] == url.subrange(0, 7)[0]);
    } else if starts_with(url, "https://"@) {
        assert(url[0] == url.subrange(0, 8)[0]);
    } else {
        assert(url[0] == url.subrange(0, 7)[0]);
    }
}


/// Why a URL was not opened: the URL quoted as Rust's `Debug` quotes it.
pub fn open_url_refusal(url: &str) -> (r: String)
    ensures
        r@ == "refusing to open non-web URL: "@ + debug_quoted(url@),
{
    let mut out: Vec<char> = Vec::new();
    push_str(&mut out, "refusing to open non-web URL: ");
    let q = debug_str(url);
    push_str(&mut out, q.as_str());
    string_from_chars(out.as_slice())
}

} // verus!
