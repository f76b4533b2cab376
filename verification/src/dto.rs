//! The plain data shapes the desktop shell hands to its webview, and the
//! conversions that build them from the domain types. Timestamps become
//! RFC 3339 strings.

use vstd::prelude::*;
use crate::contacts::{clone_opt_string, opt_view};
use crate::index_model::{ContactCount, DayCount, HourCount, IndexedMessage, InsightsData, LinkRow, SyncReport};
use crate::models::{label_spec, Attachment, Conversation, Message};
use crate::text::{chars_of, starts_with, starts_with_chars, string_of};
use crate::time::{iso, rfc3339_text, UtcTime};

verus! {

/// RFC 3339 text of an optional instant.
pub open spec fn iso_spec(t: Option<UtcTime>) -> Option<Seq<char>> {
    match t {
        Some(t) => Some(rfc3339_text(t.spec_secs(), t.spec_nanos())),
        None => None,
    }
}

fn iso_of(t: Option<UtcTime>) -> (r: Option<String>)
    ensures
        opt_view(r) == iso_spec(t),
{
    iso(t)
}

/// Result of the Full Disk Access probe.
#[derive(Debug, Clone)]
pub struct FdaStatus {
    pub granted: bool,
}

/// A conversation row for the sidebar.
#[derive(Debug, Clone)]
pub struct ConversationDto {
    pub id: i64,
    pub identifier: String,
    pub display_name: Option<String>,
    /// Best display label (custom name, else identifier).
    pub label: String,
    pub service: Option<String>,
    pub participants: Vec<String>,
}

impl ConversationDto {
    /// The sidebar row of a conversation.
    pub fn from_conversation(c: &Conversation) -> (r: Self)
        ensures
            r.id == c.id,
            r.identifier@ == c.identifier@,
            opt_view(r.display_name) == opt_view(c.display_name),
            r.label@ == label_spec(*c),
            opt_view(r.service) == opt_view(c.service),
            r.participants@.map_values(|s: String| s@) == c.participants@.map_values(|s: String| s@),
    {
        let mut participants: Vec<String> = Vec::new();
        let mut i: usize = 0;
        while i < c.participants.len()
            invariant
                i <= c.participants@.len(),
                participants@.map_values(|s: String| s@) == c.participants@.take(i as int).map_values(|s: String| s@),
            decreases c.participants@.len() - i,
        {
            let ghost before = participants@;
            let p = c.participants[i].clone();
            participants.push(p);
            assert(participants@.map_values(|s: String| s@) =~= before.map_values(|s: String| s@).push(p@));
            assert(c.participants@.take(i + 1).map_values(|s: String| s@) =~= c.participants@.take(i as int).map_values(|s: String| s@).push(c.participants@[i as int]@));
            i = i + 1;
        }
        assert(c.participants@.take(c.participants@.len() as int) =~= c.participants@);
        ConversationDto {
            id: c.id,
            identifier: c.identifier.clone(),
            display_name: clone_opt_string(&c.display_name),
            label: string_of(c.label()),
            service: clone_opt_string(&c.service),
            participants,
        }
    }
}

/// An attachment reference.
#[derive(Debug, Clone)]
pub struct AttachmentDto {
    pub id: i64,
    pub filename: Option<String>,
    pub mime_type: Option<String>,
    pub total_bytes: i64,
    pub is_sticker: bool,
}

/// The DTO fields of an attachment.
pub open spec fn attachment_dto_of(a: Attachment, r: AttachmentDto) -> bool {
    &&& r.id == a.id
    &&& opt_view(r.filename) == opt_view(a.filename)
    &&& opt_view(r.mime_type) == opt_view(a.mime_type)
    &&& r.total_bytes == a.total_bytes
    &&& r.is_sticker == a.is_sticker
}

impl AttachmentDto {
    /// The DTO of an attachment row.
    pub fn from_attachment(a: &Attachment) -> (r: Self)
        ensures
            attachment_dto_of(*a, r),
    {
        AttachmentDto {
            id: a.id,
            filename: clone_opt_string(&a.filename),
            mime_type: clone_opt_string(&a.mime_type),
            total_bytes: a.total_bytes,
            is_sticker: a.is_sticker,
        }
    }
}

/// Whether a MIME type names an image or a video.
pub open spec fn is_visual_mime(m: Option<String>) -> bool {
    match m {
        Some(t) => starts_with(t@, "image/"@) || starts_with(t@, "video/"@),
        None => false,
    }
}

/// A message for the thread / context views.
#[derive(Debug, Clone)]
pub struct MessageDto {
    pub id: i64,
    pub guid: String,
    pub chat_id: Option<i64>,
    /// Sender identifier; `None` when `is_from_me`.
    pub sender: Option<String>,
    pub is_from_me: bool,
    pub service: Option<String>,
    pub text: Option<String>,
    /// RFC 3339 timestamp, when known.
    pub timestamp: Option<String>,
    pub num_attachments: i64,
    pub attachments: Vec<AttachmentDto>,
    pub is_edited: bool,
    pub is_reply: bool,
    pub has_attachment: bool,
    pub has_photo: bool,
    /// `message.item_type` (0 = ordinary message).
    pub item_type: i32,
}

fn is_visual(m: &Option<String>) -> (r: bool)
    ensures
        r == is_visual_mime(*m),
{
    match m {
        Some(t) => {
            let c = chars_of(t.as_str());
            starts_with_chars(c.as_slice(), chars_of("image/").as_slice()) || starts_with_chars(
                c.as_slice(),
                chars_of("video/").as_slice(),
            )
        },
        None => false,
    }
}

impl MessageDto {
    /// The DTO of a thread message: its resolved attachments, `has_photo` when
    /// any of them is an image or video, `has_attachment` from the count.
    pub fn from_message(m: &Message) -> (r: Self)
        ensures
            r.id == m.id,
            r.guid@ == m.guid@,
            r.chat_id == m.chat_id,
            opt_view(r.sender) == opt_view(m.sender),
            r.is_from_me == m.is_from_me,
            opt_view(r.service) == opt_view(m.service),
            opt_view(r.text) == opt_view(m.text),
            opt_view(r.timestamp) == iso_spec(m.timestamp),
            r.num_attachments == m.num_attachments,
            r.attachments@.len() == m.attachments@.len(),
            forall|i: int| 0 <= i < m.attachments@.len() ==> attachment_dto_of(m.attachments@[i], #[trigger] r.attachments@[i]),
            r.is_edited == m.is_edited,
            r.is_reply == m.is_reply,
            r.has_attachment == (m.num_attachments > 0),
            r.has_photo == exists|i: int| 0 <= i < m.attachments@.len() && is_visual_mime(#[trigger] m.attachments@[i].mime_type),
            r.item_type == m.item_type,
    {
        let mut attachments: Vec<AttachmentDto> = Vec::new();
        let mut has_photo = false;
        let mut i: usize = 0;
        while i < m.attachments.len()
            invariant
                i <= m.attachments@.len(),
                attachments@.len() == i,
                forall|j: int| 0 <= j < i ==> attachment_dto_of(m.attachments@[j], #[trigger] attachments@[j]),
                has_photo == exists|j: int| 0 <= j < i && is_visual_mime(#[trigger] m.attachments@[j].mime_type),
            decreases m.attachments@.len() - i,
        {
            let a = &m.attachments[i];
            attachments.push(AttachmentDto::from_attachment(a));
            if is_visual(&a.mime_type) {
                has_photo = true;
            }
            i = i + 1;
        }
        MessageDto {
            id: m.id,
            guid: m.guid.clone(),
            chat_id: m.chat_id,
            sender: clone_opt_string(&m.sender),
            is_from_me: m.is_from_me,
            service: clone_opt_string(&m.service),
            text: clone_opt_string(&m.text),
            timestamp: iso_of(m.timestamp),
            num_attachments: m.num_attachments,
            attachments,
            is_edited: m.is_edited,
            is_reply: m.is_reply,
            has_attachment: m.num_attachments > 0,
            has_photo,
            item_type: m.item_type,
        }
    }

    /// The DTO of an index row: the index keeps attachment flags, not rows,
    /// so the attachment list is empty and the count is the flag (0 or 1).
    pub fn from_indexed(m: &IndexedMessage) -> (r: Self)
        ensures
            r.id == m.id,
            r.guid@ == m.guid@,
            r.chat_id == m.chat_id,
            opt_view(r.sender) == opt_view(m.sender),
            r.is_from_me == m.is_from_me,
            opt_view(r.service) == opt_view(m.service),
            opt_view(r.text) == opt_view(m.text),
            opt_view(r.timestamp) == iso_spec(m.timestamp),
            r.num_attachments == (if m.has_attachment { 1int } else { 0int }),
            r.attachments@.len() == 0,
            !r.is_edited,
            !r.is_reply,
            r.has_attachment == m.has_attachment,
            r.has_photo == m.has_photo,
            r.item_type == m.msg_type,
    {
        MessageDto {
            id: m.id,
            guid: m.guid.clone(),
            chat_id: m.chat_id,
            sender: clone_opt_string(&m.sender),
            is_from_me: m.is_from_me,
            service: clone_opt_string(&m.service),
            text: clone_opt_string(&m.text),
            timestamp: iso_of(m.timestamp),
            num_attachments: if m.has_attachment { 1 } else { 0 },
            attachments: Vec::new(),
            is_edited: false,
            is_reply: false,
            has_attachment: m.has_attachment,
            has_photo: m.has_photo,
            item_type: m.msg_type,
        }
    }
}

/// Outcome of a sync/reindex run (also the `index-updated` event payload).
#[derive(Debug, Clone, Copy)]
pub struct SyncReportDto {
    pub indexed: usize,
    pub watermark: i64,
}

impl SyncReportDto {
    /// The payload of a sync report.
    pub fn from_report(r: SyncReport) -> (d: Self)
        ensures
            d.indexed == r.indexed,
            d.watermark == r.watermark,
    {
        SyncReportDto { indexed: r.indexed, watermark: r.watermark }
    }
}

/// Index health for the status bar.
#[derive(Debug, Clone)]
pub struct IndexStatusDto {
    pub count: i64,
    /// RFC 3339 timestamp of the last successful sync, when known.
    pub last_synced: Option<String>,
}

/// The resolved identity for a single `chat.db` handle (phone/email).
///
/// Best-effort: an unmatched identifier still comes back with a formatted
/// `display_name` (and `matched = false`), so the UI never has to
/// special-case a missing entry.
#[derive(Debug, Clone)]
pub struct ContactInfoDto {
    /// Contacts display name when matched, else a formatted version of the
    /// handle.
    pub display_name: String,
    /// The thumbnail as a `data:` URL, when the matched contact has a photo.
    pub avatar_data_url: Option<String>,
    /// Whether this identifier matched a card in the user's Contacts.
    pub matched: bool,
}

impl View for ContactInfoDto {
    type V = (Seq<char>, Option<Seq<char>>, bool);

    open spec fn view(&self) -> (Seq<char>, Option<Seq<char>>, bool) {
        (self.display_name@, opt_view(self.avatar_data_url), self.matched)
    }
}

/// One URL shared in a conversation.
#[derive(Debug, Clone)]
pub struct LinkItemDto {
    /// Source `message.ROWID` the link came from.
    pub message_id: i64,
    pub chat_id: Option<i64>,
    pub url: String,
    pub timestamp: Option<String>,
    pub sender: Option<String>,
    pub is_from_me: bool,
    pub chat_name: Option<String>,
}

impl LinkItemDto {
    /// The DTO of an extracted link.
    pub fn from_link(l: &LinkRow) -> (r: Self)
        ensures
            r.message_id == l.message_id,
            r.chat_id == l.chat_id,
            r.url@ == l.url@,
            opt_view(r.timestamp) == iso_spec(l.timestamp),
            opt_view(r.sender) == opt_view(l.sender),
            r.is_from_me == l.is_from_me,
            opt_view(r.chat_name) == opt_view(l.chat_name),
    {
        LinkItemDto {
            message_id: l.message_id,
            chat_id: l.chat_id,
            url: l.url.clone(),
            timestamp: iso_of(l.timestamp),
            sender: clone_opt_string(&l.sender),
            is_from_me: l.is_from_me,
            chat_name: clone_opt_string(&l.chat_name),
        }
    }
}

/// One row in the cross-conversation timeline.
#[derive(Debug, Clone)]
pub struct TimelineItemDto {
    /// Source `message.ROWID`.
    pub id: i64,
    pub chat_id: Option<i64>,
    /// Chat display label for the row's origin.
    pub chat_label: Option<String>,
    pub sender: Option<String>,
    pub is_from_me: bool,
    pub text: Option<String>,
    pub timestamp: Option<String>,
    pub has_attachment: bool,
    pub has_photo: bool,
}

/// Messages sent on a given calendar day (`YYYY-MM-DD`).
#[derive(Debug, Clone)]
pub struct DayCountDto {
    pub date: String,
    pub count: i64,
}

/// Messages sent in a given hour of day (`0..=23`, local time).
#[derive(Debug, Clone)]
pub struct HourCountDto {
    pub hour: i32,
    pub count: i64,
}

/// A correspondent ranked by message volume (`handle` is the raw phone/email).
#[derive(Debug, Clone)]
pub struct ContactCountDto {
    pub handle: String,
    pub count: i64,
}

/// Aggregate stats for one conversation or all of them.
#[derive(Debug, Clone)]
pub struct InsightsDto {
    pub total_messages: i64,
    pub sent_count: i64,
    pub received_count: i64,
    pub first_message: Option<String>,
    pub last_message: Option<String>,
    pub by_day: Vec<DayCountDto>,
    pub by_hour: Vec<HourCountDto>,
    pub top_contacts: Vec<ContactCountDto>,
}


/// The chat label a timeline row shows: the chat's name, else its
/// identifier.
pub open spec fn chat_label_of(m: IndexedMessage) -> Option<Seq<char>> {
    match m.chat_name {
        Some(n) => Some(n@),
        None => opt_view(m.chat_identifier),
    }
}

impl TimelineItemDto {
    /// The timeline row of an indexed message.
    pub fn from_indexed(m: &IndexedMessage) -> (r: Self)
        ensures
            r.id == m.id,
            r.chat_id == m.chat_id,
            opt_view(r.chat_label) == chat_label_of(*m),
            opt_view(r.sender) == opt_view(m.sender),
            r.is_from_me == m.is_from_me,
            opt_view(r.text) == opt_view(m.text),
            opt_view(r.timestamp) == iso_spec(m.timestamp),
            r.has_attachment == m.has_attachment,
            r.has_photo == m.has_photo,
    {
        let chat_label = match &m.chat_name {
            Some(n) => Some(n.clone()),
            None => clone_opt_string(&m.chat_identifier),
        };
        TimelineItemDto {
            id: m.id,
            chat_id: m.chat_id,
            chat_label,
            sender: clone_opt_string(&m.sender),
            is_from_me: m.is_from_me,
            text: clone_opt_string(&m.text),
            timestamp: iso_of(m.timestamp),
            has_attachment: m.has_attachment,
            has_photo: m.has_photo,
        }
    }
}

impl InsightsDto {
    /// The insights view of the aggregates: counts as they are, the first and
    /// last message times as RFC 3339 text, each histogram bucket and ranked
    /// correspondent carried over in order.
    pub fn from_data(d: &InsightsData) -> (r: Self)
        ensures
            r.total_messages == d.total_messages,
            r.sent_count == d.sent_count,
            r.received_count == d.received_count,
            opt_view(r.first_message) == iso_spec(d.first_message),
            opt_view(r.last_message) == iso_spec(d.last_message),
            r.by_day@.len() == d.by_day@.len(),
            forall|i: int| 0 <= i < d.by_day@.len() ==> {
                &&& (#[trigger] r.by_day@[i]).date@ == d.by_day@[i].date@
                &&& r.by_day@[i].count == d.by_day@[i].count
            },
            r.by_hour@.len() == d.by_hour@.len(),
            forall|i: int| 0 <= i < d.by_hour@.len() ==> {
                &&& (#[trigger] r.by_hour@[i]).hour == d.by_hour@[i].hour
                &&& r.by_hour@[i].count == d.by_hour@[i].count
            },
            r.top_contacts@.len() == d.top_contacts@.len(),
            forall|i: int| 0 <= i < d.top_contacts@.len() ==> {
                &&& (#[trigger] r.top_contacts@[i]).handle@ == d.top_contacts@[i].handle@
                &&& r.top_contacts@[i].count == d.top_contacts@[i].count
            },
    {
        let mut by_day: Vec<DayCountDto> = Vec::new();
        let mut i: usize = 0;
        while i < d.by_day.len()
            invariant
                i <= d.by_day@.len(),
                by_day@.len() == i,
                forall|k: int| 0 <= k < i ==> {
                    &&& (#[trigger] by_day@[k]).date@ == d.by_day@[k].date@
                    &&& by_day@[k].count == d.by_day@[k].count
                },
            decreases d.by_day@.len() - i,
        {
            let c: &DayCount = &d.by_day[i];
            by_day.push(DayCountDto { date: c.date.clone(), count: c.count });
            i = i + 1;
        }
        let mut by_hour: Vec<HourCountDto> = Vec::new();
        let mut j: usize = 0;
        while j < d.by_hour.len()
            invariant
                j <= d.by_hour@.len(),
                by_hour@.len() == j,
                forall|k: int| 0 <= k < j ==> {
                    &&& (#[trigger] by_hour@[k]).hour == d.by_hour@[k].hour
                    &&& by_hour@[k].count == d.by_hour@[k].count
                },
            decreases d.by_hour@.len() - j,
        {
            let c: &HourCount = &d.by_hour[j];
            by_hour.push(HourCountDto { hour: c.hour, count: c.count });
            j = j + 1;
        }
        let mut top: Vec<ContactCountDto> = Vec::new();
        let mut k: usize = 0;
        while k < d.top_contacts.len()
            invariant
                k <= d.top_contacts@.len(),
                top@.len() == k,
                forall|x: int| 0 <= x < k ==> {
                    &&& (#[trigger] top@[x]).handle@ == d.top_contacts@[x].handle@
                    &&& top@[x].count == d.top_contacts@[x].count
                },
            decreases d.top_contacts@.len() - k,
        {
            let c: &ContactCount = &d.top_contacts[k];
            top.push(ContactCountDto { handle: c.handle.clone(), count: c.count });
            k = k + 1;
        }
        InsightsDto {
            total_messages: d.total_messages,
            sent_count: d.sent_count,
            received_count: d.received_count,
            first_message: iso_of(d.first_message),
            last_message: iso_of(d.last_message),
            by_day,
            by_hour,
            top_contacts: top,
        }
    }
}

} // verus!
