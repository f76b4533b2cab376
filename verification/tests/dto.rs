use better_im::dto::{AttachmentDto, ConversationDto, LinkItemDto, MessageDto, SyncReportDto};
use better_im::index_model::{IndexedMessage, LinkRow, SyncReport};
use better_im::models::{Attachment, Conversation, Message};
use better_im::time::UtcTime;

fn attachment(id: i64, mime: Option<&str>) -> Attachment {
    Attachment {
        id,
        guid: None,
        filename: Some(format!("f{id}")),
        mime_type: mime.map(str::to_string),
        total_bytes: 100,
        is_sticker: false,
    }
}

#[test]
fn conversation_row_carries_its_label() {
    let c = Conversation {
        id: 3,
        identifier: "+1555".to_string(),
        display_name: Some(String::new()),
        service: None,
        participants: vec!["+1555".to_string()],
    };
    let d = ConversationDto::from_conversation(&c);
    assert_eq!(d.id, 3);
    assert_eq!(d.label, "+1555");
    assert_eq!(d.display_name.as_deref(), Some(""));
    assert_eq!(d.participants, vec!["+1555".to_string()]);
}

#[test]
fn thread_message_flags_photos_from_attachments() {
    let m = Message {
        id: 1,
        guid: "g1".to_string(),
        chat_id: Some(2),
        sender: Some("+1555".to_string()),
        is_from_me: false,
        service: None,
        handle_id: Some(1),
        item_type: 0,
        text: None,
        timestamp: UtcTime::from_timestamp(1_652_832_000, 0),
        date_read: None,
        num_attachments: 2,
        attachments: vec![attachment(1, Some("application/pdf")), attachment(2, Some("video/mp4"))],
        is_edited: true,
        is_reply: false,
        thread_originator_guid: None,
    };
    let d = MessageDto::from_message(&m);
    assert!(d.has_photo);
    assert!(d.has_attachment);
    assert!(d.is_edited);
    assert_eq!(d.attachments.len(), 2);
    assert_eq!(d.timestamp.as_deref(), Some("2022-05-18T00:00:00+00:00"));
    let a = AttachmentDto::from_attachment(&attachment(5, None));
    assert_eq!(a.id, 5);
    assert_eq!(a.mime_type, None);
    let mut no_photo = m.clone();
    no_photo.attachments = vec![attachment(1, Some("audio/mpeg"))];
    assert!(!MessageDto::from_message(&no_photo).has_photo);
}

#[test]
fn index_row_message_uses_flags() {
    let m = IndexedMessage {
        id: 9,
        guid: "g9".to_string(),
        chat_id: None,
        canonical_chat_id: None,
        chat_identifier: None,
        chat_name: None,
        handle_id: None,
        sender: None,
        is_from_me: true,
        text: Some("x".to_string()),
        timestamp_millis: 0,
        timestamp: None,
        has_attachment: true,
        has_photo: true,
        has_link: false,
        service: None,
        msg_type: 3,
    };
    let d = MessageDto::from_indexed(&m);
    assert_eq!(d.num_attachments, 1);
    assert!(d.attachments.is_empty());
    assert!(d.has_photo);
    assert_eq!(d.item_type, 3);
    assert_eq!(d.timestamp, None);
}

#[test]
fn report_and_link_dtos() {
    let r = SyncReportDto::from_report(SyncReport { indexed: 4, watermark: 99 });
    assert_eq!((r.indexed, r.watermark), (4, 99));
    let l = LinkItemDto::from_link(&LinkRow {
        message_id: 1,
        chat_id: Some(2),
        url: "https://a.example".to_string(),
        timestamp: UtcTime::from_timestamp(0, 0),
        sender: None,
        is_from_me: true,
        chat_name: None,
    });
    assert_eq!(l.url, "https://a.example");
    assert_eq!(l.timestamp.as_deref(), Some("1970-01-01T00:00:00+00:00"));
}
