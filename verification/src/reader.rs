//! Shaping `chat.db` rows into the domain model.
//!
//! Reading the database (and decoding `attributedBody` blobs) is the caller's
//! business; this module receives the decoded rows as plain values and does
//! everything decided about them: resolving senders, converting Apple-epoch
//! timestamps, labelling chats, deduplicating a scan by row id, ordering
//! conversations and threads, and building the few SQL statements involved.

use vstd::prelude::*;
use vstd::multiset::Multiset;
use std::collections::{BTreeSet, HashMap, HashSet};
use imessage_database::tables::chat::Chat;
use imessage_database::tables::chat_handle::ChatToHandle;
use crate::embeddings::{decimal, decimal_chars};
use crate::text::{push_chars, push_str, string_from_chars};
use crate::contacts::{clone_opt_string, opt_view};
use crate::models::{Attachment, Conversation, MediaAttachment, Message, ScannedMessage};
use crate::query::strings_view;
use crate::time::{apple_instant, apple_time_to_utc};

verus! {

broadcast use vstd::std_specs::hash::group_hash_axioms;

/// One `message` row of `chat.db`, its body already decoded (plain text
/// recovered from `attributedBody` when the `text` column is `NULL`).
#[derive(Debug, Clone)]
pub struct RawMessage {
    /// `message.ROWID`.
    pub rowid: i32,
    /// `message.guid`.
    pub guid: String,
    /// The chat the row is joined to, if any.
    pub chat_id: Option<i32>,
    /// Whether the database owner sent it.
    pub is_from_me: bool,
    /// Raw service name.
    pub service: Option<String>,
    /// Sender `handle.ROWID`.
    pub handle_id: Option<i32>,
    /// `message.item_type`.
    pub item_type: i32,
    /// Decoded body text.
    pub text: Option<String>,
    /// Raw Apple-epoch send time.
    pub date: i64,
    /// Raw Apple-epoch read time.
    pub date_read: i64,
    /// Raw Apple-epoch edit time (`0` when never edited).
    pub date_edited: i64,
    /// Number of attachments joined to the row.
    pub num_attachments: i32,
    /// GUID of the thread root this message replies to.
    pub thread_originator_guid: Option<String>,
}

/// The identifier a handle id resolves to in the handle table, if any.
pub open spec fn handle_of(handles: Map<i32, String>, id: Option<i32>) -> Option<Seq<char>> {
    match id {
        Some(i) => if handles.contains_key(i) {
            Some(handles[i]@)
        } else {
            None
        },
        None => None,
    }
}

/// Resolve a `handle_id` to its identifier string, if known.
pub fn handle_identifier(handles: &HashMap<i32, String>, handle_id: Option<i32>) -> (r: Option<String>)
    ensures
        opt_view(r) == handle_of(handles@, handle_id),
{
    match handle_id {
        Some(id) => match handles.get(&id) {
            Some(s) => Some(s.clone()),
            None => None,
        },
        None => None,
    }
}

pub open spec fn widen(o: Option<i32>) -> Option<i64> {
    match o {
        Some(v) => Some(v as i64),
        None => None,
    }
}

/// The sender of a row: nobody when the owner sent it, else its handle's
/// identifier.
pub open spec fn sender_of(raw: RawMessage, handles: Map<i32, String>) -> Option<Seq<char>> {
    if raw.is_from_me {
        None
    } else {
        handle_of(handles, raw.handle_id)
    }
}

/// `m` is the domain message of `raw` with these attachments: ids widened,
/// text and metadata carried over, timestamps converted from the Apple
/// epoch, edited when an edit time is recorded, a reply when it names a
/// thread root.
pub open spec fn message_of(raw: RawMessage, handles: Map<i32, String>, attachments: Seq<Attachment>, m: Message) -> bool {
    &&& m.id == raw.rowid as i64
    &&& m.guid@ == raw.guid@
    &&& m.chat_id == widen(raw.chat_id)
    &&& opt_view(m.sender) == sender_of(raw, handles)
    &&& m.is_from_me == raw.is_from_me
    &&& opt_view(m.service) == opt_view(raw.service)
    &&& m.handle_id == widen(raw.handle_id)
    &&& m.item_type == raw.item_type
    &&& opt_view(m.text) == opt_view(raw.text)
    &&& apple_instant(raw.date, m.timestamp)
    &&& apple_instant(raw.date_read, m.date_read)
    &&& m.num_attachments == raw.num_attachments as i64
    &&& m.attachments@ == attachments
    &&& m.is_edited == (raw.date_edited != 0)
    &&& m.is_reply == (raw.thread_originator_guid is Some)
    &&& opt_view(m.thread_originator_guid) == opt_view(raw.thread_originator_guid)
}

fn widen_exec(o: Option<i32>) -> (r: Option<i64>)
    ensures
        r == widen(o),
{
    match o {
        Some(v) => Some(v as i64),
        None => None,
    }
}

/// Map one decoded row into the domain [`Message`], with the attachments
/// resolved for it.
pub fn map_message(raw: &RawMessage, handles: &HashMap<i32, String>, attachments: Vec<Attachment>) -> (r: Message)
    ensures
        message_of(*raw, handles@, attachments@, r),
{
    let sender = if raw.is_from_me {
        None
    } else {
        handle_identifier(handles, raw.handle_id)
    };
    Message {
        id: raw.rowid as i64,
        guid: raw.guid.clone(),
        chat_id: widen_exec(raw.chat_id),
        sender,
        is_from_me: raw.is_from_me,
        service: clone_opt_string(&raw.service),
        handle_id: widen_exec(raw.handle_id),
        item_type: raw.item_type,
        text: clone_opt_string(&raw.text),
        timestamp: apple_time_to_utc(raw.date),
        date_read: apple_time_to_utc(raw.date_read),
        num_attachments: raw.num_attachments as i64,
        attachments,
        is_edited: raw.date_edited != 0,
        is_reply: raw.thread_originator_guid.is_some(),
        thread_originator_guid: clone_opt_string(&raw.thread_originator_guid),
    }
}

/// Map a row for indexing: as [`map_message`], without resolving
/// attachments (the index only needs the counts and flags).
pub fn map_scanned(raw: &RawMessage, handles: &HashMap<i32, String>) -> (r: Message)
    ensures
        message_of(*raw, handles@, Seq::empty(), r),
{
    map_message(raw, handles, Vec::new())
}

/// The best label of a chat: its display name when non-empty, else its
/// identifier when non-empty, else none.
pub open spec fn chat_label_spec(identifier: Seq<char>, display_name: Option<Seq<char>>) -> Option<Seq<char>> {
    match display_name {
        Some(n) if n.len() > 0 => Some(n),
        _ => if identifier.len() == 0 {
            None
        } else {
            Some(identifier)
        },
    }
}

/// The best label of a chat (custom name, else identifier).
pub fn chat_label(identifier: &str, display_name: &Option<String>) -> (r: Option<String>)
    ensures
        opt_view(r) == chat_label_spec(identifier@, opt_view(*display_name)),
{
    match display_name {
        Some(n) => {
            if n.as_str().unicode_len() > 0 {
                return Some(n.clone());
            }
        },
        None => {},
    }
    if identifier.unicode_len() == 0 {
        None
    } else {
        Some(identifier.to_string())
    }
}


/// The chat-label table: `chat.ROWID` to its identifier and best label; a
/// later row with the same id replaces an earlier one.
pub open spec fn label_table(rows: Seq<(i64, String, Option<String>)>) -> Map<i64, (Seq<char>, Option<Seq<char>>)>
    decreases rows.len(),
{
    if rows.len() == 0 {
        Map::empty()
    } else {
        let r = rows.last();
        label_table(rows.drop_last()).insert(r.0, (r.1@, chat_label_spec(r.1@, opt_view(r.2))))
    }
}

pub open spec fn labels_view(m: Map<i64, (String, Option<String>)>) -> Map<i64, (Seq<char>, Option<Seq<char>>)> {
    m.map_values(|v: (String, Option<String>)| (v.0@, opt_view(v.1)))
}

/// Build the chat-label table from `(ROWID, chat_identifier, display_name)`
/// rows.
pub fn chat_label_map(rows: Vec<(i64, String, Option<String>)>) -> (r: HashMap<i64, (String, Option<String>)>)
    ensures
        labels_view(r@) == label_table(rows@),
{
    let mut map: HashMap<i64, (String, Option<String>)> = HashMap::new();
    let mut i: usize = 0;
    assert(labels_view(map@) =~= label_table(rows@.take(0)));
    while i < rows.len()
        invariant
            i <= rows@.len(),
            labels_view(map@) == label_table(rows@.take(i as int)),
        decreases rows@.len() - i,
    {
        let row = &rows[i];
        let label = chat_label(row.1.as_str(), &row.2);
        let entry = (row.1.clone(), label);
        let ghost before = map@;
        map.insert(row.0, entry);
        proof {
            assert(rows@.take(i + 1).drop_last() =~= rows@.take(i as int));
            assert(labels_view(map@) =~= labels_view(before).insert(row.0, (row.1@, chat_label_spec(row.1@, opt_view(row.2)))));
        }
        i = i + 1;
    }
    assert(rows@.take(rows@.len() as int) =~= rows@);
    map
}

/// The ids of the messages that carry an image or video attachment, each
/// read id cut to 32 bits as a row id.
pub fn image_id_set(ids: Vec<i64>) -> (r: HashSet<i32>)
    ensures
        forall|x: i32| r@.contains(x) <==> exists|j: int| 0 <= j < ids@.len() && ids@[j] as i32 == x,
{
    let mut set: HashSet<i32> = HashSet::new();
    let mut i: usize = 0;
    while i < ids.len()
        invariant
            i <= ids@.len(),
            forall|x: i32| set@.contains(x) <==> exists|j: int| 0 <= j < i && ids@[j] as i32 == x,
        decreases ids@.len() - i,
    {
        let id = ids[i] as i32;
        set.insert(id);
        proof {
            assert forall|x: i32| set@.contains(x) <==> exists|j: int| 0 <= j < i + 1 && ids@[j] as i32 == x by {
                if x == id {
                    assert(ids@[i as int] as i32 == x);
                }
            }
        }
        i = i + 1;
    }
    set
}

/// The canonical (deduplicated) chat of a row's chat, when the map has one.
pub open spec fn canonical_of(canonical: Map<i32, i32>, chat_id: Option<i32>) -> Option<i64> {
    match chat_id {
        Some(c) => if canonical.contains_key(c) {
            Some(canonical[c] as i64)
        } else {
            None
        },
        None => None,
    }
}

/// The label-table entry of a row's chat.
pub open spec fn label_of(labels: Map<i64, (String, Option<String>)>, chat_id: Option<i32>) -> Option<(String, Option<String>)> {
    match chat_id {
        Some(c) => if labels.contains_key(c as i64) {
            Some(labels[c as i64])
        } else {
            None
        },
        None => None,
    }
}

/// `s` is the scanned form of `raw`: its message (no attachments resolved),
/// its canonical chat, its chat's identifier and label, and whether it
/// carries a photo or video.
pub open spec fn scanned_of(
    raw: RawMessage,
    handles: Map<i32, String>,
    labels: Map<i64, (String, Option<String>)>,
    canonical: Map<i32, i32>,
    image_ids: Set<i32>,
    s: ScannedMessage,
) -> bool {
    &&& message_of(raw, handles, Seq::empty(), s.message)
    &&& s.canonical_chat_id == canonical_of(canonical, raw.chat_id)
    &&& opt_view(s.chat_identifier) == (match label_of(labels, raw.chat_id) {
        Some(e) => Some(e.0@),
        None => None,
    })
    &&& opt_view(s.chat_name) == (match label_of(labels, raw.chat_id) {
        Some(e) => opt_view(e.1),
        None => None,
    })
    &&& s.has_photo == image_ids.contains(raw.rowid)
}

/// Attach the index metadata to one decoded row.
pub fn scan_row(
    raw: &RawMessage,
    handles: &HashMap<i32, String>,
    labels: &HashMap<i64, (String, Option<String>)>,
    canonical: &HashMap<i32, i32>,
    image_ids: &HashSet<i32>,
) -> (r: ScannedMessage)
    ensures
        scanned_of(*raw, handles@, labels@, canonical@, image_ids@, r),
{
    let message = map_scanned(raw, handles);
    let canonical_chat_id = match raw.chat_id {
        Some(c) => match canonical.get(&c) {
            Some(k) => Some(*k as i64),
            None => None,
        },
        None => None,
    };
    let (chat_identifier, chat_name) = match raw.chat_id {
        Some(c) => match labels.get(&(c as i64)) {
            Some(e) => (Some(e.0.clone()), clone_opt_string(&e.1)),
            None => (None, None),
        },
        None => (None, None),
    };
    ScannedMessage {
        message,
        canonical_chat_id,
        chat_identifier,
        chat_name,
        has_photo: image_ids.contains(&raw.rowid),
    }
}

/// Whether an earlier row in `rows` than position `i` has the same row id.
pub open spec fn seen_before(rows: Seq<RawMessage>, i: int) -> bool {
    exists|j: int| 0 <= j < i && rows[j].rowid == rows[i].rowid
}

/// The rows of a scan with repeats dropped: a message joined to several
/// chats comes back once per chat, and only its first row is kept.
pub open spec fn first_occurrences(rows: Seq<RawMessage>) -> Seq<RawMessage>
    decreases rows.len(),
{
    if rows.len() == 0 {
        Seq::empty()
    } else {
        let prev = first_occurrences(rows.drop_last());
        if seen_before(rows, rows.len() - 1) {
            prev
        } else {
            prev.push(rows.last())
        }
    }
}

proof fn lemma_first_occurrences_from_rows(rows: Seq<RawMessage>)
    ensures
        forall|k: int|
            0 <= k < first_occurrences(rows).len() ==> exists|i: int|
                0 <= i < rows.len() && #[trigger] first_occurrences(rows)[k] == rows[i],
    decreases rows.len(),
{
    if rows.len() > 0 {
        let pre = rows.drop_last();
        lemma_first_occurrences_from_rows(pre);
        let fp = first_occurrences(pre);
        let f = first_occurrences(rows);
        assert forall|k: int| 0 <= k < f.len() implies exists|i: int| 0 <= i < rows.len() && #[trigger] f[k] == rows[i] by {
            if k < fp.len() {
                assert(f[k] == fp[k]);
                let i = choose|i: int| 0 <= i < pre.len() && #[trigger] fp[k] == pre[i];
                assert(pre[i] == rows[i]);
            } else {
                assert(f[k] == rows[rows.len() - 1]);
            }
        }
    }
}

proof fn lemma_first_occurrences_distinct(rows: Seq<RawMessage>)
    ensures
        forall|a: int, b: int|
            0 <= a < b < first_occurrences(rows).len() ==> #[trigger] first_occurrences(rows)[a].rowid
                != #[trigger] first_occurrences(rows)[b].rowid,
    decreases rows.len(),
{
    if rows.len() > 0 {
        let pre = rows.drop_last();
        let n = rows.len() - 1;
        lemma_first_occurrences_distinct(pre);
        lemma_first_occurrences_from_rows(pre);
        let fp = first_occurrences(pre);
        let f = first_occurrences(rows);
        if !seen_before(rows, n) {
            assert forall|a: int, b: int| 0 <= a < b < f.len() implies #[trigger] f[a].rowid != #[trigger] f[b].rowid by {
                assert(f[a] == fp[a]);
                if b == f.len() - 1 {
                    let i = choose|i: int| 0 <= i < pre.len() && #[trigger] fp[a] == pre[i];
                    assert(pre[i] == rows[i]);
                    if f[a].rowid == f[b].rowid {
                        assert(f[b] == rows[n]);
                        assert(seen_before(rows, n));
                    }
                } else {
                    assert(f[b] == fp[b]);
                }
            }
        }
    }
}

/// Some kept row has this row id.
pub open spec fn keeps_row_id(kept: Seq<RawMessage>, id: i32) -> bool {
    exists|k: int| 0 <= k < kept.len() && kept[k].rowid == id
}

proof fn lemma_first_occurrences_cover(rows: Seq<RawMessage>)
    ensures
        forall|i: int| 0 <= i < rows.len() ==> keeps_row_id(first_occurrences(rows), #[trigger] rows[i].rowid),
    decreases rows.len(),
{
    if rows.len() > 0 {
        let pre = rows.drop_last();
        let n = rows.len() - 1;
        lemma_first_occurrences_cover(pre);
        let fp = first_occurrences(pre);
        let f = first_occurrences(rows);
        assert forall|i: int| 0 <= i < rows.len() implies keeps_row_id(f, #[trigger] rows[i].rowid) by {
            let t = if i < n {
                i
            } else if seen_before(rows, n) {
                choose|j: int| 0 <= j < n && rows[j].rowid == rows[n].rowid
            } else {
                -1
            };
            if t >= 0 {
                assert(pre[t] == rows[t]);
                assert(keeps_row_id(fp, pre[t].rowid));
                let k = choose|k: int| 0 <= k < fp.len() && fp[k].rowid == pre[t].rowid;
                assert(f[k] == fp[k]);
            } else {
                assert(f[f.len() - 1] == rows[n]);
            }
        }
    }
}

/// A scan yields every message exactly once: the kept rows have pairwise
/// distinct row ids, every row id of the input is among them, and each kept
/// row is a row of the input.
pub proof fn lemma_scan_keeps_each_message_once(rows: Seq<RawMessage>)
    ensures
        forall|a: int, b: int|
            0 <= a < b < first_occurrences(rows).len() ==> #[trigger] first_occurrences(rows)[a].rowid
                != #[trigger] first_occurrences(rows)[b].rowid,
        forall|i: int| 0 <= i < rows.len() ==> keeps_row_id(first_occurrences(rows), #[trigger] rows[i].rowid),
        forall|k: int|
            0 <= k < first_occurrences(rows).len() ==> exists|i: int|
                0 <= i < rows.len() && #[trigger] first_occurrences(rows)[k] == rows[i],
{
    lemma_first_occurrences_distinct(rows);
    lemma_first_occurrences_cover(rows);
    lemma_first_occurrences_from_rows(rows);
}

/// Deduplicate a scan by row id (first row wins) and attach the index
/// metadata to every kept row, in order.
pub fn scan_rows(
    rows: &Vec<RawMessage>,
    handles: &HashMap<i32, String>,
    labels: &HashMap<i64, (String, Option<String>)>,
    canonical: &HashMap<i32, i32>,
    image_ids: &HashSet<i32>,
) -> (r: Vec<ScannedMessage>)
    ensures
        r@.len() == first_occurrences(rows@).len(),
        forall|k: int| 0 <= k < r@.len() ==> scanned_of(
            #[trigger] first_occurrences(rows@)[k],
            handles@,
            labels@,
            canonical@,
            image_ids@,
            r@[k],
        ),
{
    let mut out: Vec<ScannedMessage> = Vec::new();
    let mut seen: HashSet<i32> = HashSet::new();
    let mut i: usize = 0;
    assert(rows@.take(0) =~= Seq::<RawMessage>::empty());
    while i < rows.len()
        invariant
            i <= rows@.len(),
            forall|x: i32| seen@.contains(x) <==> exists|j: int| 0 <= j < i && rows@[j].rowid == x,
            out@.len() == first_occurrences(rows@.take(i as int)).len(),
            forall|k: int| 0 <= k < out@.len() ==> scanned_of(
                #[trigger] first_occurrences(rows@.take(i as int))[k],
                handles@,
                labels@,
                canonical@,
                image_ids@,
                out@[k],
            ),
        decreases rows@.len() - i,
    {
        let raw = &rows[i];
        let ghost t = rows@.take(i + 1);
        let ghost prev = first_occurrences(rows@.take(i as int));
        proof {
            assert(t.drop_last() =~= rows@.take(i as int));
            assert(t.last() == *raw);
            assert(seen_before(t, i as int) <==> seen@.contains(raw.rowid)) by {
                if seen@.contains(raw.rowid) {
                    let j = choose|j: int| 0 <= j < i && rows@[j].rowid == raw.rowid;
                    assert(t[j] == rows@[j]);
                }
                if seen_before(t, i as int) {
                    let j = choose|j: int| 0 <= j < i && t[j].rowid == t[i as int].rowid;
                    assert(t[j] == rows@[j]);
                }
            }
        }
        let fresh = seen.insert(raw.rowid);
        if fresh {
            let s = scan_row(raw, handles, labels, canonical, image_ids);
            out.push(s);
            proof {
                assert(first_occurrences(t) == prev.push(*raw));
            }
        } else {
            proof {
                assert(first_occurrences(t) == prev);
            }
        }
        proof {
            assert forall|x: i32| seen@.contains(x) <==> exists|j: int| 0 <= j < i + 1 && rows@[j].rowid == x by {
                if x == raw.rowid {
                    assert(rows@[i as int].rowid == x);
                }
            }
        }
        i = i + 1;
    }
    assert(rows@.take(rows@.len() as int) =~= rows@);
    out
}


// ---------------------------------------------------------------------------
// Conversations
// ---------------------------------------------------------------------------

/// One row of the `chat` table.
#[derive(Debug, Clone)]
pub struct ChatRow {
    /// `chat.ROWID`.
    pub rowid: i32,
    /// Phone number, email, or group identifier.
    pub chat_identifier: String,
    /// Service name, when known.
    pub service_name: Option<String>,
    /// User-provided name, when set (possibly empty).
    pub display_name: Option<String>,
    /// `chat.is_filtered`, where the schema has it.
    pub is_filtered: Option<i32>,
    /// `chat.is_blackholed`, where the schema has it.
    pub is_blackholed: Option<bool>,
    /// `chat.is_pending_review`, where the schema has it.
    pub is_pending_review: Option<bool>,
}

/// The identifiers of the participant handles, in the given order; handles
/// missing from the table are skipped.
pub open spec fn participants_of(ids: Seq<i32>, handles: Map<i32, String>) -> Seq<Seq<char>>
    decreases ids.len(),
{
    if ids.len() == 0 {
        Seq::empty()
    } else {
        let p = participants_of(ids.drop_last(), handles);
        match handle_of(handles, Some(ids.last())) {
            Some(h) => p.push(h),
            None => p,
        }
    }
}

/// The participant ids recorded for a chat, if any.
pub open spec fn participant_ids(participants: Map<i32, Vec<i32>>, rowid: i32) -> Seq<i32> {
    if participants.contains_key(rowid) {
        participants[rowid]@
    } else {
        Seq::empty()
    }
}

/// `c` is the conversation of a chat row: id widened, identifier and service
/// kept, an empty display name dropped, participants resolved through the
/// handle table.
pub open spec fn conversation_of(chat: ChatRow, ids: Seq<i32>, handles: Map<i32, String>, c: Conversation) -> bool {
    &&& c.id == chat.rowid as i64
    &&& c.identifier@ == chat.chat_identifier@
    &&& opt_view(c.display_name) == (match chat.display_name {
        Some(n) if n@.len() > 0 => Some(n@),
        _ => None,
    })
    &&& opt_view(c.service) == opt_view(chat.service_name)
    &&& strings_view(c.participants@) == participants_of(ids, handles)
}

/// The conversation of one chat row.
pub fn conversation_from_chat(chat: &ChatRow, ids: &Vec<i32>, handles: &HashMap<i32, String>) -> (r: Conversation)
    ensures
        conversation_of(*chat, ids@, handles@, r),
{
    let mut participants: Vec<String> = Vec::new();
    let mut i: usize = 0;
    assert(ids@.take(0) =~= Seq::<i32>::empty());
    while i < ids.len()
        invariant
            i <= ids@.len(),
            strings_view(participants@) == participants_of(ids@.take(i as int), handles@),
        decreases ids@.len() - i,
    {
        let ghost before = participants@;
        assert(ids@.take(i + 1).drop_last() =~= ids@.take(i as int));
        match handle_identifier(handles, Some(ids[i])) {
            Some(h) => {
                participants.push(h);
                assert(strings_view(participants@) =~= strings_view(before).push(participants@.last()@));
            },
            None => {},
        }
        i = i + 1;
    }
    assert(ids@.take(ids@.len() as int) =~= ids@);
    let display_name = match &chat.display_name {
        Some(n) => if n.as_str().unicode_len() > 0 {
            Some(n.clone())
        } else {
            None
        },
        None => None,
    };
    Conversation {
        id: chat.rowid as i64,
        identifier: chat.chat_identifier.clone(),
        display_name,
        service: clone_opt_string(&chat.service_name),
        participants,
    }
}

/// Whether the rows are in ascending `ROWID` order.
pub open spec fn sorted_by_rowid(s: Seq<ChatRow>) -> bool {
    forall|i: int, j: int| 0 <= i < j < s.len() ==> s[i].rowid <= s[j].rowid
}

/// The chat rows in ascending `ROWID` order (a stable selection sort).
pub fn sort_chats(chats: Vec<ChatRow>) -> (r: Vec<ChatRow>)
    ensures
        r@.to_multiset() == chats@.to_multiset(),
        sorted_by_rowid(r@),
{
    broadcast use vstd::seq_lib::group_to_multiset_ensures;
    let mut rest = chats;
    let mut out: Vec<ChatRow> = Vec::new();
    assert(out@.to_multiset().add(rest@.to_multiset()) =~= chats@.to_multiset());
    while rest.len() > 0
        invariant
            out@.to_multiset().add(rest@.to_multiset()) == chats@.to_multiset(),
            sorted_by_rowid(out@),
            forall|a: int, b: int| 0 <= a < out@.len() && 0 <= b < rest@.len() ==> out@[a].rowid <= rest@[b].rowid,
        decreases rest@.len(),
    {
        let mut m: usize = 0;
        let mut k: usize = 1;
        while k < rest.len()
            invariant
                0 < rest@.len(),
                m < k <= rest@.len(),
                forall|b: int| 0 <= b < k ==> rest@[m as int].rowid <= rest@[b].rowid,
            decreases rest@.len() - k,
        {
            if rest[k].rowid < rest[m].rowid {
                m = k;
            }
            k = k + 1;
        }
        let ghost old_rest = rest@;
        let ghost old_out = out@;
        let x = rest.remove(m);
        proof {
            vstd::seq_lib::to_multiset_remove(old_rest, m as int);
            assert(old_rest.remove(m as int).to_multiset() == old_rest.to_multiset().remove(x));
            assert(forall|b: int| 0 <= b < rest@.len() ==> #[trigger] rest@[b] == old_rest[if b < m { b } else { b + 1 }]);
        }
        out.push(x);
        proof {
            vstd::seq_lib::to_multiset_build(old_out, x);
            assert(out@.to_multiset() == old_out.to_multiset().insert(x));
            assert(old_rest.to_multiset().count(x) > 0) by {
                assert(old_rest.contains(x)) by {
                    assert(old_rest[m as int] == x);
                }
                old_rest.to_multiset_ensures();
            }
            assert(out@.to_multiset().add(rest@.to_multiset()) =~= chats@.to_multiset());
            assert forall|a: int, b: int| 0 <= a < b < out@.len() implies out@[a].rowid <= out@[b].rowid by {
                if b == out@.len() - 1 {
                    assert(old_out[a].rowid <= old_rest[m as int].rowid);
                }
            }
            assert forall|a: int, b: int| 0 <= a < out@.len() && 0 <= b < rest@.len() implies out@[a].rowid <= rest@[b].rowid by {
                let ob = if b < m { b } else { b + 1 };
                assert(rest@[b] == old_rest[ob]);
                if a < old_out.len() {
                    assert(old_out[a].rowid <= old_rest[ob].rowid);
                } else {
                    assert(x.rowid <= old_rest[ob].rowid);
                }
            }
        }
    }
    assert(rest@.to_multiset() =~= Multiset::<ChatRow>::empty());
    assert(out@.to_multiset() =~= chats@.to_multiset());
    out
}

/// The conversations of the chat table, ordered by chat id, each with its
/// participants resolved.
pub fn conversations_from_chats(
    chats: Vec<ChatRow>,
    participants: &HashMap<i32, Vec<i32>>,
    handles: &HashMap<i32, String>,
) -> (r: Vec<Conversation>)
    ensures
        exists|s: Seq<ChatRow>|
            {
                &&& s.to_multiset() == chats@.to_multiset()
                &&& sorted_by_rowid(s)
                &&& r@.len() == s.len()
                &&& forall|i: int| 0 <= i < s.len() ==> conversation_of(
                    #[trigger] s[i],
                    participant_ids(participants@, s[i].rowid),
                    handles@,
                    r@[i],
                )
            },
{
    let sorted = sort_chats(chats);
    let empty: Vec<i32> = Vec::new();
    let mut out: Vec<Conversation> = Vec::new();
    let mut i: usize = 0;
    while i < sorted.len()
        invariant
            i <= sorted@.len(),
            out@.len() == i,
            empty@ == Seq::<i32>::empty(),
            forall|k: int| 0 <= k < i ==> conversation_of(
                #[trigger] sorted@[k],
                participant_ids(participants@, sorted@[k].rowid),
                handles@,
                out@[k],
            ),
        decreases sorted@.len() - i,
    {
        let chat = &sorted[i];
        let ids = match participants.get(&chat.rowid) {
            Some(v) => v,
            None => &empty,
        };
        let c = conversation_from_chat(chat, ids, handles);
        out.push(c);
        i = i + 1;
    }
    out
}


// ---------------------------------------------------------------------------
// The handle table and chat deduplication
// ---------------------------------------------------------------------------

/// The handle table built from `(handle.ROWID, handle.id)` rows: the owner
/// as handle `0` named `"Me"`, then each row, a later row replacing an
/// earlier one with the same id (`Handle::ids_by_rowid`).
pub open spec fn handle_table_spec(rows: Seq<(i32, String)>) -> Map<i32, Seq<char>>
    decreases rows.len(),
{
    if rows.len() == 0 {
        Map::empty().insert(0i32, "Me"@)
    } else {
        handle_table_spec(rows.drop_last()).insert(rows.last().0, rows.last().1@)
    }
}

pub open spec fn handles_view(m: Map<i32, String>) -> Map<i32, Seq<char>> {
    m.map_values(|s: String| s@)
}

/// Build the handle table from `(handle.ROWID, handle.id)` rows.
pub fn handle_table(rows: Vec<(i32, String)>) -> (r: HashMap<i32, String>)
    ensures
        handles_view(r@) == handle_table_spec(rows@),
{
    let mut map: HashMap<i32, String> = HashMap::new();
    map.insert(0, "Me".to_string());
    assert(handles_view(map@) =~= handle_table_spec(rows@.take(0))) by {
        reveal_strlit("Me");
    }
    let mut i: usize = 0;
    while i < rows.len()
        invariant
            i <= rows@.len(),
            handles_view(map@) == handle_table_spec(rows@.take(i as int)),
        decreases rows@.len() - i,
    {
        let ghost before = map@;
        map.insert(rows[i].0, rows[i].1.clone());
        proof {
            assert(rows@.take(i + 1).drop_last() =~= rows@.take(i as int));
            assert(handles_view(map@) =~= handles_view(before).insert(rows@[i as int].0, rows@[i as int].1@));
        }
        i = i + 1;
    }
    assert(rows@.take(rows@.len() as int) =~= rows@);
    map
}

/// The content of a [`ChatRow`].
pub struct ChatRowView {
    pub rowid: i32,
    pub chat_identifier: Seq<char>,
    pub service_name: Option<Seq<char>>,
    pub display_name: Option<Seq<char>>,
    pub is_filtered: Option<i32>,
    pub is_blackholed: Option<bool>,
    pub is_pending_review: Option<bool>,
}

impl View for ChatRow {
    type V = ChatRowView;

    open spec fn view(&self) -> ChatRowView {
        ChatRowView {
            rowid: self.rowid,
            chat_identifier: self.chat_identifier@,
            service_name: opt_view(self.service_name),
            display_name: opt_view(self.display_name),
            is_filtered: self.is_filtered,
            is_blackholed: self.is_blackholed,
            is_pending_review: self.is_pending_review,
        }
    }
}

/// What `ChatToHandle::dedupe` returns for the participant sets, the
/// `chat_lookup` links, the handle groups and the chat rows: every chat row id
/// mapped to the id of its deduplicated conversation.
pub uninterp spec fn deduplicated_chats(
    participants: Map<i32, Set<i32>>,
    lookup: Map<i32, i32>,
    handle_groups: Map<i32, i32>,
    chats: Map<i32, ChatRowView>,
) -> Map<i32, i32>;

/// `ChatToHandle::dedupe` of imessage-database, on the chat rows converted
/// field by field. The contract names the result as a function of the four
/// inputs and claims nothing more of it.
#[verifier::external_body]
fn dedupe_chats(
    participants: &HashMap<i32, BTreeSet<i32>>,
    lookup: &HashMap<i32, i32>,
    handle_groups: &HashMap<i32, i32>,
    chats: &HashMap<i32, ChatRow>,
) -> (r: HashMap<i32, i32>)
    ensures
        r@ == deduplicated_chats(
            participants@.map_values(|s: BTreeSet<i32>| s@),
            lookup@,
            handle_groups@,
            chats@.map_values(|c: ChatRow| c@),
        ),
{
    let rows: HashMap<i32, Chat> = chats.iter().map(|(k, c)| (*k, Chat {
        rowid: c.rowid,
        chat_identifier: c.chat_identifier.clone(),
        service_name: c.service_name.clone(),
        display_name: c.display_name.clone(),
        is_filtered: c.is_filtered,
        is_blackholed: c.is_blackholed,
        is_pending_review: c.is_pending_review,
    })).collect();
    ChatToHandle::dedupe(participants, lookup, handle_groups, &rows)
}

/// The canonical-chat map: each `chat.ROWID` to the stable id of its
/// deduplicated conversation, collapsing duplicate chat rows (same
/// participants and name) and chats split across services (`chat_lookup`).
pub fn canonical_chat_map(
    participants: &HashMap<i32, BTreeSet<i32>>,
    lookup: &HashMap<i32, i32>,
    handle_groups: &HashMap<i32, i32>,
    chats: &HashMap<i32, ChatRow>,
) -> (r: HashMap<i32, i32>)
    ensures
        r@ == deduplicated_chats(
            participants@.map_values(|s: BTreeSet<i32>| s@),
            lookup@,
            handle_groups@,
            chats@.map_values(|c: ChatRow| c@),
        ),
{
    dedupe_chats(participants, lookup, handle_groups, chats)
}

// ---------------------------------------------------------------------------
// Threads
// ---------------------------------------------------------------------------

/// The columns read for a message row; the decoder finds them by name, and
/// recovers the body from `attributedBody` when `text` is `NULL`.
pub const MESSAGE_COLS: &'static str = "m.rowid, m.guid, m.text, m.service, m.handle_id, m.destination_caller_id, m.subject, m.date, m.date_read, m.date_delivered, m.is_from_me, m.is_read, m.item_type, m.other_handle, m.share_status, m.share_direction, m.group_title, m.group_action_type, m.associated_message_guid, m.associated_message_type, m.balloon_bundle_id, m.expressive_send_style_id, m.thread_originator_guid, m.thread_originator_part, m.date_edited, m.associated_message_emoji, m.attributedBody";

/// The incremental scan: every row above the watermark (`?1`), in `ROWID`
/// order, with its chat when it has one.
pub const SCAN_SINCE_SQL: &'static str = "SELECT m.rowid, m.guid, m.text, m.service, m.handle_id, m.destination_caller_id, m.subject, m.date, m.date_read, m.date_delivered, m.is_from_me, m.is_read, m.item_type, m.other_handle, m.share_status, m.share_direction, m.group_title, m.group_action_type, m.associated_message_guid, m.associated_message_type, m.balloon_bundle_id, m.expressive_send_style_id, m.thread_originator_guid, m.thread_originator_part, m.date_edited, m.associated_message_emoji, m.attributedBody, c.chat_id, (SELECT COUNT(*) FROM message_attachment_join a WHERE m.ROWID = a.message_id) AS num_attachments, NULL AS deleted_from, (SELECT COUNT(*) FROM message m2 WHERE m2.thread_originator_guid = m.guid) AS num_replies FROM message AS m LEFT JOIN chat_message_join AS c ON m.ROWID = c.message_id WHERE m.ROWID > ?1 ORDER BY m.ROWID";

/// The head of a thread page query, up to the chat placeholder `?1`.
pub open spec fn thread_head() -> Seq<char> {
    "SELECT "@ + MESSAGE_COLS@ + ", c.chat_id, (SELECT COUNT(*) FROM message_attachment_join a WHERE m.ROWID = a.message_id) AS num_attachments, NULL AS deleted_from, (SELECT COUNT(*) FROM message m2 WHERE m2.thread_originator_guid = m.guid) AS num_replies FROM message AS m JOIN chat_message_join AS c ON m.ROWID = c.message_id WHERE c.chat_id = ?1 "@
}

/// A thread page query: the chat's rows (`?1`), strictly before the cursor
/// (`?2`) when there is one, newest first, at most `limit` of them.
pub open spec fn thread_sql_spec(has_before: bool, limit: nat) -> Seq<char> {
    thread_head() + (if has_before {
        "AND m.date < ?2"@
    } else {
        Seq::empty()
    }) + " ORDER BY m.date DESC LIMIT "@ + decimal(limit)
}

/// Build the query for one page of a thread.
pub fn thread_sql(has_before: bool, limit: usize) -> (r: String)
    ensures
        r@ == thread_sql_spec(has_before, limit as nat),
{
    let mut out: Vec<char> = Vec::new();
    push_str(&mut out, "SELECT ");
    push_str(&mut out, MESSAGE_COLS);
    push_str(
        &mut out,
        ", c.chat_id, (SELECT COUNT(*) FROM message_attachment_join a WHERE m.ROWID = a.message_id) AS num_attachments, NULL AS deleted_from, (SELECT COUNT(*) FROM message m2 WHERE m2.thread_originator_guid = m.guid) AS num_replies FROM message AS m JOIN chat_message_join AS c ON m.ROWID = c.message_id WHERE c.chat_id = ?1 ",
    );
    if has_before {
        push_str(&mut out, "AND m.date < ?2");
    }
    push_str(&mut out, " ORDER BY m.date DESC LIMIT ");
    let d = decimal_chars(limit);
    push_chars(&mut out, d.as_slice());
    assert(out@ =~= thread_sql_spec(has_before, limit as nat));
    string_from_chars(out.as_slice())
}

/// The chat id bound to a thread query: the id when it fits in 32 bits, else
/// `i32::MAX` (which matches no chat).
pub fn thread_chat_param(chat_id: i64) -> (r: i32)
    ensures
        r == (if i32::MIN <= chat_id <= i32::MAX {
            chat_id as i32
        } else {
            i32::MAX
        }),
{
    if i32::MIN as i64 <= chat_id && chat_id <= i32::MAX as i64 {
        chat_id as i32
    } else {
        i32::MAX
    }
}

/// A page of a thread in chronological order: the rows arrive newest first,
/// each with the attachments resolved for it.
pub fn thread_from_rows(rows: Vec<(RawMessage, Vec<Attachment>)>, handles: &HashMap<i32, String>) -> (r: Vec<Message>)
    ensures
        r@.len() == rows@.len(),
        forall|i: int| 0 <= i < r@.len() ==> {
            let row = #[trigger] rows@[rows@.len() - 1 - i];
            message_of(row.0, handles@, row.1@, r@[i])
        },
{
    let ghost all = rows@;
    let ghost n = all.len();
    let mut rest = rows;
    let mut out: Vec<Message> = Vec::new();
    while rest.len() > 0
        invariant
            rest@ == all.take(n - out@.len()),
            out@.len() <= n,
            n == all.len(),
            forall|i: int| 0 <= i < out@.len() ==> {
                let row = #[trigger] all[n - 1 - i];
                message_of(row.0, handles@, row.1@, out@[i])
            },
        decreases rest@.len(),
    {
        let ghost k = out@.len();
        let (raw, attachments) = rest.pop().unwrap();
        assert(all[n - 1 - k] == (raw, attachments));
        let m = map_message(&raw, handles, attachments);
        out.push(m);
        assert(rest@ =~= all.take(n - out@.len()));
    }
    out
}

/// The count query of one table.
pub fn count_sql(table: &str) -> (r: String)
    ensures
        r@ == "SELECT COUNT(*) FROM "@ + table@,
{
    let mut out: Vec<char> = Vec::new();
    push_str(&mut out, "SELECT COUNT(*) FROM ");
    push_str(&mut out, table);
    string_from_chars(out.as_slice())
}


// ---------------------------------------------------------------------------
// Attachments for the media gallery
// ---------------------------------------------------------------------------

/// The attachments of one chat (or all), newest message first, one page.
pub open spec fn attachments_sql_spec(has_chat: bool) -> Seq<char> {
    "SELECT m.ROWID, c.chat_id, a.filename, a.transfer_name, a.mime_type, m.date, m.handle_id, m.is_from_me FROM attachment AS a JOIN message_attachment_join AS maj ON maj.attachment_id = a.ROWID JOIN message AS m ON m.ROWID = maj.message_id LEFT JOIN chat_message_join AS c ON c.message_id = m.ROWID"@
        + (if has_chat {
        " WHERE c.chat_id = ?"@
    } else {
        Seq::empty()
    }) + " ORDER BY m.date DESC, a.ROWID DESC LIMIT ? OFFSET ?"@
}

/// Build the attachment listing query.
pub fn attachments_sql(has_chat: bool) -> (r: String)
    ensures
        r@ == attachments_sql_spec(has_chat),
{
    let mut out: Vec<char> = Vec::new();
    push_str(
        &mut out,
        "SELECT m.ROWID, c.chat_id, a.filename, a.transfer_name, a.mime_type, m.date, m.handle_id, m.is_from_me FROM attachment AS a JOIN message_attachment_join AS maj ON maj.attachment_id = a.ROWID JOIN message AS m ON m.ROWID = maj.message_id LEFT JOIN chat_message_join AS c ON c.message_id = m.ROWID",
    );
    if has_chat {
        push_str(&mut out, " WHERE c.chat_id = ?");
    }
    push_str(&mut out, " ORDER BY m.date DESC, a.ROWID DESC LIMIT ? OFFSET ?");
    assert(out@ =~= attachments_sql_spec(has_chat));
    string_from_chars(out.as_slice())
}

/// One row of the attachment listing, as read.
#[derive(Debug, Clone)]
pub struct AttachmentRow {
    pub message_id: i64,
    pub chat_id: Option<i64>,
    pub filename: Option<String>,
    pub transfer_name: Option<String>,
    pub mime_type: Option<String>,
    pub date: i64,
    pub handle_id: Option<i32>,
    pub is_from_me: bool,
}

/// `a` is the gallery entry of a listing row: path and names carried over,
/// the time converted from the Apple epoch, no sender for the owner's own
/// messages.
pub open spec fn media_attachment_of(row: AttachmentRow, handles: Map<i32, String>, a: MediaAttachment) -> bool {
    &&& a.message_id == row.message_id
    &&& a.chat_id == row.chat_id
    &&& opt_view(a.path) == opt_view(row.filename)
    &&& opt_view(a.transfer_name) == opt_view(row.transfer_name)
    &&& opt_view(a.mime_type) == opt_view(row.mime_type)
    &&& apple_instant(row.date, a.timestamp)
    &&& opt_view(a.sender) == (if row.is_from_me {
        None
    } else {
        handle_of(handles, row.handle_id)
    })
    &&& a.is_from_me == row.is_from_me
}

/// The gallery entry of one listing row.
pub fn media_attachment(row: &AttachmentRow, handles: &HashMap<i32, String>) -> (r: MediaAttachment)
    ensures
        media_attachment_of(*row, handles@, r),
{
    MediaAttachment {
        message_id: row.message_id,
        chat_id: row.chat_id,
        path: clone_opt_string(&row.filename),
        transfer_name: clone_opt_string(&row.transfer_name),
        mime_type: clone_opt_string(&row.mime_type),
        timestamp: apple_time_to_utc(row.date),
        sender: if row.is_from_me {
            None
        } else {
            handle_identifier(handles, row.handle_id)
        },
        is_from_me: row.is_from_me,
    }
}

} // verus!
