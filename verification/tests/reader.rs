use std::collections::{BTreeSet, HashMap, HashSet};

use better_im::models::Attachment;
use better_im::reader::{
    attachments_sql, canonical_chat_map, chat_label, chat_label_map, conversation_from_chat,
    conversations_from_chats, count_sql, handle_identifier, handle_table, image_id_set,
    map_message, map_scanned, media_attachment, scan_rows, sort_chats, thread_chat_param,
    thread_from_rows, thread_sql, AttachmentRow, ChatRow, RawMessage,
};

fn handles() -> HashMap<i32, String> {
    handle_table(vec![(1, "+15551234567".to_string()), (2, "bob@example.com".to_string())])
}

fn raw(rowid: i32, chat: Option<i32>, from_me: bool, handle: Option<i32>, text: &str) -> RawMessage {
    RawMessage {
        rowid,
        guid: format!("g{rowid}"),
        chat_id: chat,
        is_from_me: from_me,
        service: Some("iMessage".to_string()),
        handle_id: handle,
        item_type: 0,
        text: Some(text.to_string()),
        date: 674_524_800_000_000_000,
        date_read: 0,
        date_edited: 0,
        num_attachments: 0,
        thread_originator_guid: None,
    }
}

fn chat(rowid: i32, identifier: &str, name: Option<&str>) -> ChatRow {
    ChatRow {
        rowid,
        chat_identifier: identifier.to_string(),
        service_name: Some("iMessage".to_string()),
        display_name: name.map(str::to_string),
        is_filtered: None,
        is_blackholed: None,
        is_pending_review: None,
    }
}

#[test]
fn handle_table_includes_the_owner() {
    let h = handles();
    assert_eq!(h.get(&0).map(String::as_str), Some("Me"));
    assert_eq!(h.get(&1).map(String::as_str), Some("+15551234567"));
    assert_eq!(h.len(), 3);
    assert_eq!(handle_identifier(&h, Some(2)).as_deref(), Some("bob@example.com"));
    assert_eq!(handle_identifier(&h, Some(9)), None);
    assert_eq!(handle_identifier(&h, None), None);
}

#[test]
fn later_handle_rows_replace_earlier_ones() {
    let h = handle_table(vec![(1, "a".to_string()), (1, "b".to_string())]);
    assert_eq!(h.get(&1).map(String::as_str), Some("b"));
}

#[test]
fn received_message_resolves_its_sender() {
    let h = handles();
    let mut r = raw(7, Some(3), false, Some(1), "hello");
    r.date_edited = 5;
    r.num_attachments = 2;
    r.thread_originator_guid = Some("root".to_string());
    let att = Attachment {
        id: 4,
        guid: Some("a4".to_string()),
        filename: None,
        mime_type: Some("image/png".to_string()),
        total_bytes: 10,
        is_sticker: false,
    };
    let m = map_message(&r, &h, vec![att.clone()]);
    assert_eq!(m.id, 7);
    assert_eq!(m.guid, "g7");
    assert_eq!(m.chat_id, Some(3));
    assert_eq!(m.sender.as_deref(), Some("+15551234567"));
    assert_eq!(m.handle_id, Some(1));
    assert_eq!(m.text.as_deref(), Some("hello"));
    assert_eq!(m.timestamp.unwrap().timestamp(), 674_524_800 + 978_307_200);
    assert_eq!(m.date_read, None);
    assert_eq!(m.num_attachments, 2);
    assert_eq!(m.attachments, vec![att]);
    assert!(m.is_edited);
    assert!(m.is_reply);
    assert_eq!(m.thread_originator_guid.as_deref(), Some("root"));
}

#[test]
fn own_message_has_no_sender() {
    let h = handles();
    let m = map_scanned(&raw(8, None, true, Some(1), "x"), &h);
    assert_eq!(m.sender, None);
    assert!(m.is_from_me);
    assert!(!m.is_edited);
    assert!(!m.is_reply);
    assert!(m.attachments.is_empty());
}

#[test]
fn chat_label_prefers_name_then_identifier() {
    assert_eq!(chat_label("+1555", &Some("Family".to_string())).as_deref(), Some("Family"));
    assert_eq!(chat_label("+1555", &Some(String::new())).as_deref(), Some("+1555"));
    assert_eq!(chat_label("+1555", &None).as_deref(), Some("+1555"));
    assert_eq!(chat_label("", &None), None);
}

#[test]
fn label_map_keys_rows_by_id() {
    let m = chat_label_map(vec![
        (1, "+1555".to_string(), Some("Family".to_string())),
        (2, "chat99".to_string(), None),
        (3, String::new(), Some(String::new())),
    ]);
    assert_eq!(m.len(), 3);
    assert_eq!(m[&1], ("+1555".to_string(), Some("Family".to_string())));
    assert_eq!(m[&2], ("chat99".to_string(), Some("chat99".to_string())));
    assert_eq!(m[&3], (String::new(), None));
}

#[test]
fn image_ids_are_cut_to_row_ids() {
    let s = image_id_set(vec![5, 6, 5, 4_294_967_303]);
    let expected: HashSet<i32> = [5, 6, 7].into_iter().collect();
    assert_eq!(s, expected);
}

#[test]
fn scan_keeps_the_first_row_of_each_message() {
    let h = handles();
    let labels = chat_label_map(vec![(1, "+1555".to_string(), Some("Family".to_string()))]);
    let canonical: HashMap<i32, i32> = [(1, 0), (2, 0)].into_iter().collect();
    let images: HashSet<i32> = [2].into_iter().collect();
    let rows = vec![
        raw(1, Some(1), false, Some(1), "a"),
        raw(2, Some(2), true, None, "b"),
        raw(1, Some(2), false, Some(1), "a"),
        raw(3, None, false, Some(2), "c"),
    ];
    let out = scan_rows(&rows, &h, &labels, &canonical, &images);
    assert_eq!(out.len(), 3);
    assert_eq!(out[0].message.id, 1);
    assert_eq!(out[0].message.chat_id, Some(1));
    assert_eq!(out[0].canonical_chat_id, Some(0));
    assert_eq!(out[0].chat_identifier.as_deref(), Some("+1555"));
    assert_eq!(out[0].chat_name.as_deref(), Some("Family"));
    assert!(!out[0].has_photo);
    assert_eq!(out[1].message.id, 2);
    assert_eq!(out[1].chat_identifier, None);
    assert!(out[1].has_photo);
    assert_eq!(out[2].message.id, 3);
    assert_eq!(out[2].canonical_chat_id, None);
    assert_eq!(out[2].message.sender.as_deref(), Some("bob@example.com"));
}

#[test]
fn conversations_are_ordered_by_id_with_participants() {
    let h = handles();
    let participants: HashMap<i32, Vec<i32>> = [(5, vec![1, 2, 9]), (2, vec![2])].into_iter().collect();
    let chats = vec![chat(5, "group", Some("Trip")), chat(2, "bob@example.com", Some("")), chat(3, "x", None)];
    let out = conversations_from_chats(chats, &participants, &h);
    let ids: Vec<i64> = out.iter().map(|c| c.id).collect();
    assert_eq!(ids, vec![2, 3, 5]);
    assert_eq!(out[0].display_name, None);
    assert_eq!(out[0].participants, vec!["bob@example.com".to_string()]);
    assert!(out[1].participants.is_empty());
    assert_eq!(out[2].display_name.as_deref(), Some("Trip"));
    assert_eq!(out[2].participants, vec!["+15551234567".to_string(), "bob@example.com".to_string()]);
    assert_eq!(out[2].service.as_deref(), Some("iMessage"));
}

#[test]
fn sort_chats_is_stable_and_ascending() {
    let sorted = sort_chats(vec![chat(3, "c", None), chat(1, "a", None), chat(3, "d", None), chat(2, "b", None)]);
    let order: Vec<(i32, &str)> = sorted.iter().map(|c| (c.rowid, c.chat_identifier.as_str())).collect();
    assert_eq!(order, vec![(1, "a"), (2, "b"), (3, "c"), (3, "d")]);
}

#[test]
fn single_conversation_maps_fields() {
    let h = handles();
    let c = conversation_from_chat(&chat(4, "+1555", Some("Fam")), &vec![1], &h);
    assert_eq!(c.id, 4);
    assert_eq!(c.identifier, "+1555");
    assert_eq!(c.label(), "Fam");
    assert_eq!(c.participants, vec!["+15551234567".to_string()]);
}

#[test]
fn thread_rows_come_back_chronologically() {
    let h = handles();
    let rows = vec![
        (raw(3, Some(1), false, Some(1), "newest"), vec![]),
        (raw(2, Some(1), true, None, "middle"), vec![]),
        (raw(1, Some(1), false, Some(1), "oldest"), vec![]),
    ];
    let out = thread_from_rows(rows, &h);
    let texts: Vec<&str> = out.iter().map(|m| m.text.as_deref().unwrap()).collect();
    assert_eq!(texts, vec!["oldest", "middle", "newest"]);
}

#[test]
fn thread_query_pages_by_date() {
    let without = thread_sql(false, 50);
    assert!(without.ends_with("WHERE c.chat_id = ?1  ORDER BY m.date DESC LIMIT 50"));
    assert!(without.starts_with("SELECT m.rowid, m.guid, m.text,"));
    let with = thread_sql(true, 7);
    assert!(with.ends_with("WHERE c.chat_id = ?1 AND m.date < ?2 ORDER BY m.date DESC LIMIT 7"));
    assert!(thread_sql(false, 0).ends_with("LIMIT 0"));
}

#[test]
fn thread_chat_param_clamps_to_i32() {
    assert_eq!(thread_chat_param(42), 42);
    assert_eq!(thread_chat_param(-3), -3);
    assert_eq!(thread_chat_param(i64::MAX), i32::MAX);
    assert_eq!(thread_chat_param(i64::MIN), i32::MAX);
}

#[test]
fn count_query_names_the_table() {
    assert_eq!(count_sql("chat"), "SELECT COUNT(*) FROM chat");
}

#[test]
fn duplicate_unnamed_chats_share_a_canonical_id() {
    let participants: HashMap<i32, BTreeSet<i32>> = [
        (1, [10].into_iter().collect()),
        (2, [10].into_iter().collect()),
        (3, [11].into_iter().collect()),
    ]
    .into_iter()
    .collect();
    let chats: HashMap<i32, ChatRow> = [(1, chat(1, "a", None)), (2, chat(2, "a", None)), (3, chat(3, "b", None))]
        .into_iter()
        .collect();
    let m = canonical_chat_map(&participants, &HashMap::new(), &HashMap::new(), &chats);
    assert_eq!(m.len(), 3);
    assert_eq!(m[&1], m[&2]);
    assert_ne!(m[&1], m[&3]);
}

#[test]
fn attachment_rows_map_to_gallery_entries() {
    let h = handles();
    let row = AttachmentRow {
        message_id: 1,
        chat_id: Some(1),
        filename: Some("~/Library/Messages/Attachments/ab/01/photo.jpg".to_string()),
        transfer_name: Some("photo.jpg".to_string()),
        mime_type: Some("image/jpeg".to_string()),
        date: 674_524_800,
        handle_id: Some(1),
        is_from_me: false,
    };
    let a = media_attachment(&row, &h);
    assert_eq!(a.sender.as_deref(), Some("+15551234567"));
    assert_eq!(a.timestamp.unwrap().timestamp(), 674_524_800 + 978_307_200);
    let mine = media_attachment(&AttachmentRow { is_from_me: true, ..row }, &h);
    assert_eq!(mine.sender, None);
    assert!(attachments_sql(true).contains(" WHERE c.chat_id = ? ORDER BY m.date DESC"));
    assert!(!attachments_sql(false).contains("WHERE"));
}
