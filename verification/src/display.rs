//! The text the command-line tools print for conversations, messages and
//! search hits: placeholders for missing values, joined participant lists,
//! attachment and edit notes, and timestamps rendered through chrono.

use vstd::prelude::*;
use chrono::DateTime;
use crate::contacts::opt_view;
use crate::embeddings::decimal;
use crate::query::strings_view;
use crate::text::{chars_of, push_chars, push_str, string_from_chars};
use crate::time::{chrono_timestamp_ok, UtcTime};

verus! {

/// `parts` joined with `sep` between consecutive parts.
pub open spec fn join_with(parts: Seq<Seq<char>>, sep: Seq<char>) -> Seq<char>
    decreases parts.len(),
{
    if parts.len() == 0 {
        Seq::empty()
    } else if parts.len() == 1 {
        parts[0]
    } else {
        join_with(parts.drop_last(), sep) + sep + parts.last()
    }
}

/// The participant list of a conversation: `-` when there is none, else the
/// handles joined by `, `.
pub open spec fn participants_text_spec(p: Seq<Seq<char>>) -> Seq<char> {
    if p.len() == 0 {
        "-"@
    } else {
        join_with(p, ", "@)
    }
}

/// The participant list as printed.
pub fn participants_text(participants: &Vec<String>) -> (r: String)
    ensures
        r@ == participants_text_spec(strings_view(participants@)),
{
    if participants.len() == 0 {
        return "-".to_string();
    }
    let ghost p = strings_view(participants@);
    let mut out: Vec<char> = chars_of(participants[0].as_str());
    let mut i: usize = 1;
    assert(p.take(1).drop_last() =~= Seq::<Seq<char>>::empty());
    assert(join_with(p.take(1), ", "@) == p[0]);
    while i < participants.len()
        invariant
            1 <= i <= participants@.len(),
            p == strings_view(participants@),
            out@ == join_with(p.take(i as int), ", "@),
        decreases participants@.len() - i,
    {
        push_str(&mut out, ", ");
        push_str(&mut out, participants[i].as_str());
        i = i + 1;
        assert(p.take(i as int).drop_last() =~= p.take(i - 1));
    }
    assert(p.take(participants@.len() as int) =~= p);
    string_from_chars(out.as_slice())
}

/// The value, or the placeholder when there is none.
pub open spec fn or_placeholder_spec(o: Option<Seq<char>>, placeholder: Seq<char>) -> Seq<char> {
    match o {
        Some(v) => v,
        None => placeholder,
    }
}

/// The value, or `placeholder` when there is none (`?` for an unknown
/// service, `<no text>` for a message without a body).
pub fn or_placeholder(o: &Option<String>, placeholder: &str) -> (r: String)
    ensures
        r@ == or_placeholder_spec(opt_view(*o), placeholder@),
{
    match o {
        Some(v) => v.clone(),
        None => placeholder.to_string(),
    }
}

/// Who a message is from, as printed: `me` for the owner, else the sender,
/// else `unknown`.
pub fn sender_label(is_from_me: bool, sender: &Option<String>) -> (r: String)
    ensures
        r@ == (if is_from_me {
            "me"@
        } else {
            or_placeholder_spec(opt_view(*sender), "unknown"@)
        }),
{
    if is_from_me {
        "me".to_string()
    } else {
        or_placeholder(sender, "unknown")
    }
}

/// The chat of a search hit, as printed: its name, else its identifier, else
/// `-`.
pub fn chat_text(chat_name: &Option<String>, chat_identifier: &Option<String>) -> (r: String)
    ensures
        r@ == (match chat_name {
            Some(n) => n@,
            None => or_placeholder_spec(opt_view(*chat_identifier), "-"@),
        }),
{
    match chat_name {
        Some(n) => n.clone(),
        None => or_placeholder(chat_identifier, "-"),
    }
}

fn decimal_i64(n: i64) -> (r: Vec<char>)
    requires
        n >= 0,
    ensures
        r@ == decimal(n as nat),
    decreases n,
{
    if n < 10 {
        let c = ((n as u8) + 48) as char;
        vec![c]
    } else {
        let mut v = decimal_i64(n / 10);
        let c = (((n % 10) as u8) + 48) as char;
        v.push(c);
        v
    }
}

/// The attachment note of a message: ` [+N attachment(s)]` when it has any,
/// else nothing.
pub fn attachments_note(n: i64) -> (r: String)
    ensures
        r@ == (if n > 0 {
            " [+"@ + decimal(n as nat) + " attachment(s)]"@
        } else {
            Seq::empty()
        }),
{
    if n > 0 {
        let mut out: Vec<char> = Vec::new();
        push_str(&mut out, " [+");
        let d = decimal_i64(n);
        push_chars(&mut out, d.as_slice());
        push_str(&mut out, " attachment(s)]");
        string_from_chars(out.as_slice())
    } else {
        String::new()
    }
}

/// The edit note of a message.
pub fn edited_note(is_edited: bool) -> (r: &'static str)
    ensures
        r@ == (if is_edited {
            " (edited)"@
        } else {
            ""@
        }),
{
    if is_edited {
        " (edited)"
    } else {
        ""
    }
}

/// The text chrono's `format(fmt)` renders for the UTC instant `secs` +
/// `nanos`.
pub uninterp spec fn strftime_text(secs: i64, nanos: u32, fmt: Seq<char>) -> Seq<char>;

/// `DateTime::<Utc>::format(fmt).to_string()` for an instant chrono accepts,
/// with one of the two fixed formats the tools print (both valid, so the
/// rendering cannot fail).
#[verifier::external_body]
fn chrono_format(secs: i64, nanos: u32, fmt: &str) -> (r: String)
    requires
        chrono_timestamp_ok(secs, nanos),
        fmt@ == "%Y-%m-%d %H:%M:%S"@ || fmt@ == "%Y-%m-%d %H:%M"@,
    ensures
        r@ == strftime_text(secs, nanos, fmt@),
{
    match DateTime::from_timestamp(secs, nanos) {
        Some(d) => d.format(fmt).to_string(),
        None => String::new(),
    }
}

/// When a message was sent, as printed: `YYYY-MM-DD HH:MM:SS` (or without
/// the seconds), or question marks in the same shape when unknown.
pub fn when_text(ts: Option<UtcTime>, with_seconds: bool) -> (r: String)
    ensures
        r@ == (match ts {
            Some(t) => strftime_text(
                t.spec_secs(),
                t.spec_nanos(),
                if with_seconds {
                    "%Y-%m-%d %H:%M:%S"@
                } else {
                    "%Y-%m-%d %H:%M"@
                },
            ),
            None => if with_seconds {
                "????-??-?? ??:??:??"@
            } else {
                "????-??-?? ??:??"@
            },
        }),
{
    match ts {
        Some(t) => {
            let secs = t.timestamp();
            let fmt = if with_seconds {
                "%Y-%m-%d %H:%M:%S"
            } else {
                "%Y-%m-%d %H:%M"
            };
            chrono_format(secs, t.subsec_nanos(), fmt)
        },
        None => if with_seconds {
            "????-??-?? ??:??:??".to_string()
        } else {
            "????-??-?? ??:??".to_string()
        },
    }
}

} // verus!
