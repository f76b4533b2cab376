//! The value types the search index stores and returns.

use vstd::prelude::*;
use crate::time::{datetime_from_millis, instant_from_millis, UtcTime, chrono_timestamp_ok};

verus! {

/// One indexed message row (the denormalized `messages` record). It carries
/// enough identity (`id`, `chat_id`, `canonical_chat_id`, `timestamp`) to jump
/// back to full context in the source thread.
#[derive(Debug, Clone, PartialEq)]
pub struct IndexedMessage {
    /// Source `message.ROWID` (stable, unique).
    pub id: i64,
    /// Source `message.guid`.
    pub guid: String,
    /// One of the chats this message joins (`chat.ROWID`).
    pub chat_id: Option<i64>,
    /// Deduplicated chat group id (collapses duplicate/split chats).
    pub canonical_chat_id: Option<i64>,
    /// Raw chat identifier (phone/email/group id).
    pub chat_identifier: Option<String>,
    /// Chat display label.
    pub chat_name: Option<String>,
    /// Sender `handle.ROWID`, when known.
    pub handle_id: Option<i64>,
    /// Sender identifier; `None` when `is_from_me`.
    pub sender: Option<String>,
    /// Whether the database owner sent this message.
    pub is_from_me: bool,
    /// Decoded body text.
    pub text: Option<String>,
    /// Timestamp as unix epoch milliseconds (`0` when unknown).
    pub timestamp_millis: i64,
    /// Timestamp as a UTC instant, when known.
    pub timestamp: Option<UtcTime>,
    /// Whether the message has any attachment.
    pub has_attachment: bool,
    /// Whether the message has an image/video attachment.
    pub has_photo: bool,
    /// Whether the message body contains a URL.
    pub has_link: bool,
    /// Raw service name (`iMessage`, `SMS`, …).
    pub service: Option<String>,
    /// Source `message.item_type`.
    pub msg_type: i32,
}

impl IndexedMessage {
    /// Rebuild the `timestamp` instant from `timestamp_millis` (`0` means
    /// unknown).
    pub fn datetime_from_millis(millis: i64) -> (r: Option<UtcTime>)
        ensures
            millis == 0 ==> r is None,
            millis != 0 ==> (r is Some <==> chrono_timestamp_ok(
                ((millis as int) / 1000) as i64,
                ((millis as int) % 1000 * 1_000_000) as u32,
            )),
            r matches Some(t) ==> t.spec_millis() == millis,
            r == instant_from_millis(millis),
    {
        datetime_from_millis(millis)
    }
}

/// Options controlling a search: the result window.
#[derive(Debug, Clone, Copy)]
pub struct SearchOpts {
    /// Maximum number of results to return.
    pub limit: usize,
    /// Number of leading results to skip (pagination).
    pub offset: usize,
}

impl Default for SearchOpts {
    fn default() -> (r: Self)
        ensures
            r.limit == 50 && r.offset == 0,
    {
        SearchOpts { limit: 50, offset: 0 }
    }
}

/// One extracted shared link. A message with several URLs yields one row per
/// URL.
#[derive(Debug, Clone, PartialEq)]
pub struct LinkRow {
    /// Source `message.ROWID` the link came from.
    pub message_id: i64,
    /// Chat the message belongs to (`chat.ROWID`), when known.
    pub chat_id: Option<i64>,
    /// The extracted (and normalized) URL.
    pub url: String,
    /// Message timestamp (UTC), when known.
    pub timestamp: Option<UtcTime>,
    /// Sender identifier; `None` when the message is from the database owner.
    pub sender: Option<String>,
    /// Whether the database owner sent the message.
    pub is_from_me: bool,
    /// Chat display label (custom name, else identifier).
    pub chat_name: Option<String>,
}

/// Messages sent on one calendar day (local time, `YYYY-MM-DD`).
#[derive(Debug, Clone, PartialEq, Eq)]
pub struct DayCount {
    pub date: String,
    pub count: i64,
}

/// Messages sent in one hour of the day (local time, `0..=23`).
#[derive(Debug, Clone, PartialEq, Eq)]
pub struct HourCount {
    pub hour: i32,
    pub count: i64,
}

/// A correspondent ranked by inbound (received) message volume.
#[derive(Debug, Clone, PartialEq, Eq)]
pub struct ContactCount {
    /// Raw sender handle (phone/email).
    pub handle: String,
    pub count: i64,
}

/// Aggregate stats for one conversation or the whole corpus.
#[derive(Debug, Clone, PartialEq)]
pub struct InsightsData {
    pub total_messages: i64,
    pub sent_count: i64,
    pub received_count: i64,
    /// Earliest message timestamp (UTC), when any.
    pub first_message: Option<UtcTime>,
    /// Latest message timestamp (UTC), when any.
    pub last_message: Option<UtcTime>,
    pub by_day: Vec<DayCount>,
    pub by_hour: Vec<HourCount>,
    pub top_contacts: Vec<ContactCount>,
}

/// Outcome of a full reindex or an incremental sync.
#[derive(Debug, Clone, Copy, PartialEq, Eq)]
pub struct SyncReport {
    /// Number of messages written (inserted or updated) this run.
    pub indexed: usize,
    /// The new watermark (highest indexed `message.ROWID`).
    pub watermark: i64,
}


/// Progress of a semantic-index build: messages embedded so far out of the
/// number that lacked a vector when the build started.
#[derive(Debug, Clone, Copy, PartialEq, Eq)]
pub struct SemanticProgress {
    pub done: usize,
    pub total: usize,
}

/// Outcome of a semantic-index build.
#[derive(Debug, Clone, Copy, PartialEq, Eq)]
pub struct SemanticIndexReport {
    /// Messages embedded by this build.
    pub embedded: usize,
    /// Vectors stored after it.
    pub total_vectors: i64,
}

/// Health of the semantic index.
#[derive(Debug, Clone, PartialEq, Eq)]
pub struct SemanticStatus {
    /// Stored vectors.
    pub vector_count: i64,
    /// Messages with embeddable (non-empty) text.
    pub embeddable_count: i64,
    /// The model tag of the stored vectors, if any.
    pub model: Option<String>,
}

} // verus!
