//! Source-agnostic domain model.
//!
//! These structs are decoupled from the on-disk `chat.db` row types: the reader
//! maps `chat.db` rows into these plain types so the rest of the app (indexer,
//! search, UI, and a possible send layer) never depends on the iMessage
//! schema.

use vstd::prelude::*;
use crate::contacts::opt_view;
use crate::time::UtcTime;

verus! {

/// A conversation / chat thread (the `chat` table plus its participant
/// handles).
#[derive(Debug, Clone, PartialEq)]
pub struct Conversation {
    /// Stable chat row id (`chat.ROWID`).
    pub id: i64,
    /// Phone number, email, or group identifier (`chat.chat_identifier`).
    pub identifier: String,
    /// User-provided display name, when set (`chat.display_name`).
    pub display_name: Option<String>,
    /// Service name (e.g. `iMessage`, `SMS`, `RCS`), when known.
    pub service: Option<String>,
    /// Participant handles (phone numbers / emails) in this chat.
    pub participants: Vec<String>,
}

/// The best display label: the custom name when non-empty, else the raw
/// identifier.
pub open spec fn label_spec(c: Conversation) -> Seq<char> {
    match c.display_name {
        Some(name) if name@.len() > 0 => name@,
        _ => c.identifier@,
    }
}

impl Conversation {
    /// Best display label: the custom name, else the raw identifier.
    pub fn label(&self) -> (r: &str)
        ensures
            r@ == label_spec(*self),
    {
        match &self.display_name {
            Some(name) => {
                if !name.as_str().is_empty() {
                    name.as_str()
                } else {
                    self.identifier.as_str()
                }
            },
            None => self.identifier.as_str(),
        }
    }
}

/// A single contact endpoint (the `handle` table).
#[derive(Debug, Clone, PartialEq, Eq)]
pub struct Handle {
    /// Handle row id (`handle.ROWID`).
    pub id: i64,
    /// Phone number, email, or service identifier (`handle.id`).
    pub identifier: String,
}

/// An attachment (media/file) associated with a message.
#[derive(Debug, Clone, PartialEq)]
pub struct Attachment {
    /// Attachment row id (`attachment.ROWID`).
    pub id: i64,
    /// Attachment GUID, if present.
    pub guid: Option<String>,
    /// On-disk filename, if present.
    pub filename: Option<String>,
    /// MIME type, if known.
    pub mime_type: Option<String>,
    /// Total size in bytes as recorded by Messages.
    pub total_bytes: i64,
    /// Whether the attachment is a sticker.
    pub is_sticker: bool,
}

/// A single message. `text` carries the *extracted* body text: when the
/// `message.text` column is `NULL`, the reader recovers it from the
/// `attributedBody` typedstream blob.
#[derive(Debug, Clone, PartialEq)]
pub struct Message {
    /// Message row id (`message.ROWID`).
    pub id: i64,
    /// Globally-unique message id (`message.guid`).
    pub guid: String,
    /// Chat this row belongs to, if joined to one.
    pub chat_id: Option<i64>,
    /// Sender handle identifier; `None` when `is_from_me`.
    pub sender: Option<String>,
    /// Whether the database owner sent this message.
    pub is_from_me: bool,
    /// Raw service name (`iMessage`, `SMS`, `RCS`, …), when recorded.
    pub service: Option<String>,
    /// Sender `handle.ROWID`, when known.
    pub handle_id: Option<i64>,
    /// Message `item_type` code (0 = ordinary message).
    pub item_type: i32,
    /// Extracted plain body text (from `text` or decoded `attributedBody`).
    pub text: Option<String>,
    /// Message timestamp, converted from the Apple epoch to UTC.
    pub timestamp: Option<UtcTime>,
    /// When the message was read, converted to UTC (if recorded).
    pub date_read: Option<UtcTime>,
    /// Number of attachments joined to this message.
    pub num_attachments: i64,
    /// Resolved attachment rows (populated by the reader on demand).
    pub attachments: Vec<Attachment>,
    /// Whether the message has been edited.
    pub is_edited: bool,
    /// Whether the message is a reply within a thread.
    pub is_reply: bool,
    /// The GUID of the thread root this message replies to, if any.
    pub thread_originator_guid: Option<String>,
}

/// Aggregate counts for a database.
#[derive(Debug, Clone, Copy, PartialEq, Eq)]
pub struct Stats {
    /// Rows in the `chat` table.
    pub chats: i64,
    /// Rows in the `message` table.
    pub messages: i64,
    /// Rows in the `attachment` table.
    pub attachments: i64,
}

/// A decoded message plus the extra index-time metadata the search index
/// needs. The heavy per-message decode happens once, so the index never has
/// to re-decode at search time.
#[derive(Debug, Clone)]
pub struct ScannedMessage {
    /// The fully-decoded domain message.
    pub message: Message,
    /// Deduplicated ("canonical") chat id, collapsing duplicate / split-service
    /// chats into one stable group id; `None` when not joined to a chat.
    pub canonical_chat_id: Option<i64>,
    /// The raw `chat.chat_identifier` of the message's chat, when resolvable.
    pub chat_identifier: Option<String>,
    /// The chat's best display label (custom name, else identifier).
    pub chat_name: Option<String>,
    /// Whether the message carries at least one image/video attachment.
    pub has_photo: bool,
}

/// One attachment row joined to its message, as listed for the media gallery.
#[derive(Debug, Clone, PartialEq)]
pub struct MediaAttachment {
    /// Source `message.ROWID` the attachment belongs to.
    pub message_id: i64,
    /// Chat of the message, when joined to one.
    pub chat_id: Option<i64>,
    /// On-disk path as recorded (often `~/Library/Messages/Attachments/…`).
    pub path: Option<String>,
    /// The file name it was sent with, when recorded.
    pub transfer_name: Option<String>,
    /// MIME type, if known.
    pub mime_type: Option<String>,
    /// Message timestamp (UTC), when known.
    pub timestamp: Option<UtcTime>,
    /// Sender identifier; `None` when from the database owner.
    pub sender: Option<String>,
    /// Whether the database owner sent the message.
    pub is_from_me: bool,
}

// ---------------------------------------------------------------------------
// Extensibility seam (future send layer)
// ---------------------------------------------------------------------------

/// Actions a message provider might support.
#[derive(Debug, Clone, Copy, PartialEq, Eq, Hash, Structural)]
pub enum Capability {
    /// Read conversations and messages.
    ReadMessages,
    /// Send a new text message.
    SendText,
    /// Send a message with attachments.
    SendAttachment,
    /// Add a tapback / reaction to a message.
    React,
    /// Edit a previously sent message.
    Edit,
    /// Retract / unsend a message.
    Unsend,
    /// Mark a message or thread as read.
    MarkRead,
}

/// The stable string tag of each capability: the variant's name.
pub open spec fn capability_tag(c: Capability) -> Seq<char> {
    match c {
        Capability::ReadMessages => "ReadMessages"@,
        Capability::SendText => "SendText"@,
        Capability::SendAttachment => "SendAttachment"@,
        Capability::React => "React"@,
        Capability::Edit => "Edit"@,
        Capability::Unsend => "Unsend"@,
        Capability::MarkRead => "MarkRead"@,
    }
}

impl Capability {
    /// Stable string tag for this capability: the contract the UI gates on
    /// (the composer enables sending only when it sees `"SendText"`).
    pub fn as_str(&self) -> (r: &'static str)
        ensures
            r@ == capability_tag(*self),
    {
        match self {
            Capability::ReadMessages => "ReadMessages",
            Capability::SendText => "SendText",
            Capability::SendAttachment => "SendAttachment",
            Capability::React => "React",
            Capability::Edit => "Edit",
            Capability::Unsend => "Unsend",
            Capability::MarkRead => "MarkRead",
        }
    }
}

/// The extensibility seam for a future send layer: a provider advertises the
/// set of [`Capability`]s it supports. The set is handed out as a list without
/// repetitions.
pub trait MessageActionProvider {
    /// The set of actions this provider supports.
    spec fn spec_capabilities(&self) -> Set<Capability>;

    /// The actions this provider supports, each once.
    fn capabilities(&self) -> (r: Vec<Capability>)
        ensures
            r@.to_set() == self.spec_capabilities(),
            r@.no_duplicates(),
    ;

    /// Whether a specific capability is supported.
    fn supports(&self, capability: Capability) -> (r: bool)
        ensures
            r == self.spec_capabilities().contains(capability),
    {
        let caps = self.capabilities();
        let mut i: usize = 0;
        while i < caps.len()
            invariant
                i <= caps@.len(),
                caps@.to_set() == self.spec_capabilities(),
                forall|j: int| 0 <= j < i ==> caps@[j] != capability,
            decreases caps@.len() - i,
        {
            if caps[i] == capability {
                assert(caps@[i as int] == capability);
                assert(caps@.contains(capability));
                assert(caps@.to_set().contains(capability));
                return true;
            }
            i = i + 1;
        }
        assert(!caps@.contains(capability));
        false
    }
}

/// A provider that can do nothing but be read from: it exposes no *actions*
/// (the read path is the reader itself). This is the seam where a send-capable
/// provider would be added as a sibling.
#[derive(Debug, Default, Clone, Copy)]
pub struct ReadOnlyProvider;

impl MessageActionProvider for ReadOnlyProvider {
    open spec fn spec_capabilities(&self) -> Set<Capability> {
        Set::empty()
    }

    fn capabilities(&self) -> (r: Vec<Capability>) {
        let r: Vec<Capability> = Vec::new();
        assert(r@.to_set() =~= Set::<Capability>::empty());
        r
    }
}

} // verus!
