use better_im::models::{Capability, Conversation, MessageActionProvider, ReadOnlyProvider};

#[test]
fn read_only_provider_advertises_no_actions() {
    let provider = ReadOnlyProvider;
    assert!(provider.capabilities().is_empty());
    assert!(!provider.supports(Capability::SendText));
    assert!(!provider.supports(Capability::ReadMessages));
}

#[test]
fn capability_tags_are_stable() {
    assert_eq!(Capability::SendText.as_str(), "SendText");
    assert_eq!(Capability::ReadMessages.as_str(), "ReadMessages");
    assert_eq!(Capability::MarkRead.as_str(), "MarkRead");
}

#[test]
fn conversation_label_prefers_display_name() {
    let mut c = Conversation {
        id: 1,
        identifier: "+15551234567".into(),
        display_name: Some("Family".into()),
        service: Some("iMessage".into()),
        participants: vec![],
    };
    assert_eq!(c.label(), "Family");
    c.display_name = Some(String::new());
    assert_eq!(c.label(), "+15551234567");
    c.display_name = None;
    assert_eq!(c.label(), "+15551234567");
}

#[test]
fn every_capability_tag_is_its_variant_name() {
    let all = [
        (Capability::ReadMessages, "ReadMessages"),
        (Capability::SendText, "SendText"),
        (Capability::SendAttachment, "SendAttachment"),
        (Capability::React, "React"),
        (Capability::Edit, "Edit"),
        (Capability::Unsend, "Unsend"),
        (Capability::MarkRead, "MarkRead"),
    ];
    for (c, tag) in all {
        assert_eq!(c.as_str(), tag);
        assert_eq!(format!("{c:?}"), tag);
    }
}
