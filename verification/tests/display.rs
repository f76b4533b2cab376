use better_im::display::{
    attachments_note, chat_text, edited_note, or_placeholder, participants_text, sender_label,
    when_text,
};
use better_im::time::UtcTime;

#[test]
fn participant_lists_are_joined() {
    assert_eq!(participants_text(&vec![]), "-");
    assert_eq!(participants_text(&vec!["a".to_string()]), "a");
    assert_eq!(participants_text(&vec!["a".to_string(), "b".to_string(), "c".to_string()]), "a, b, c");
}

#[test]
fn placeholders_fill_missing_values() {
    assert_eq!(or_placeholder(&None, "?"), "?");
    assert_eq!(or_placeholder(&Some("SMS".to_string()), "?"), "SMS");
    assert_eq!(sender_label(true, &Some("x".to_string())), "me");
    assert_eq!(sender_label(false, &None), "unknown");
    assert_eq!(sender_label(false, &Some("+1555".to_string())), "+1555");
    assert_eq!(chat_text(&Some("Fam".to_string()), &Some("+1".to_string())), "Fam");
    assert_eq!(chat_text(&None, &Some("+1".to_string())), "+1");
    assert_eq!(chat_text(&None, &None), "-");
}

#[test]
fn notes_for_attachments_and_edits() {
    assert_eq!(attachments_note(0), "");
    assert_eq!(attachments_note(-1), "");
    assert_eq!(attachments_note(2), " [+2 attachment(s)]");
    assert_eq!(attachments_note(120), " [+120 attachment(s)]");
    assert_eq!(edited_note(true), " (edited)");
    assert_eq!(edited_note(false), "");
}

#[test]
fn timestamps_render_in_utc() {
    let t = UtcTime::from_timestamp(1_652_832_000 + 3_723, 0);
    assert_eq!(when_text(t, true), "2022-05-18 01:02:03");
    assert_eq!(when_text(t, false), "2022-05-18 01:02");
    assert_eq!(when_text(None, true), "????-??-?? ??:??:??");
    assert_eq!(when_text(None, false), "????-??-?? ??:??");
}
