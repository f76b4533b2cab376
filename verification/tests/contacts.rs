use better_im::contacts::{
    display_name_from_parts, format_handle, normalize_email, normalize_handle_key, normalize_phone,
    ContactIndex, ContactRecord, PermissionStatus,
};
use better_im::contacts_store::{
    contact_to_record, data_url, load_contacts, permission_status, StoreAuthorization,
};

#[test]
fn normalize_phone_strips_formatting_and_country_code() {
    assert_eq!(normalize_phone("+1 (555) 123-4567").as_deref(), Some("5551234567"));
    assert_eq!(normalize_phone("1-555-123-4567").as_deref(), Some("5551234567"));
    assert_eq!(normalize_phone("5551234567").as_deref(), Some("5551234567"));
    assert_eq!(normalize_phone(" +15551234567 ").as_deref(), Some("5551234567"));
}

#[test]
fn normalize_phone_keeps_short_numbers_whole() {
    assert_eq!(normalize_phone("262966").as_deref(), Some("262966"));
    assert_eq!(normalize_phone("123-4567").as_deref(), Some("1234567"));
    assert_eq!(normalize_phone("no digits here"), None);
    assert_eq!(normalize_phone(""), None);
}

#[test]
fn normalize_phone_international_uses_trailing_ten() {
    assert_eq!(normalize_phone("+44 20 7946 0958").as_deref(), Some("2079460958"));
    assert_eq!(normalize_phone("+442079460958").as_deref(), Some("2079460958"));
}

#[test]
fn normalize_email_trims_and_lowercases() {
    assert_eq!(normalize_email("  Alice@Example.COM ").as_deref(), Some("alice@example.com"));
    assert_eq!(normalize_email("not-an-email"), None);
}

#[test]
fn handle_key_is_stable_across_formats() {
    let a = normalize_handle_key("+1 (555) 123-4567");
    let b = normalize_handle_key("5551234567");
    let c = normalize_handle_key("1.555.123.4567");
    assert!(a.is_some());
    assert_eq!(a, b);
    assert_eq!(b, c);
    assert_ne!(normalize_handle_key("5551234567"), normalize_handle_key("55512345@67"));
    assert_eq!(normalize_handle_key("  Bob@Work.io "), Some("e:bob@work.io".to_string()));
    assert_eq!(normalize_handle_key("   "), None);
}

#[test]
fn format_handle_pretty_prints_phones() {
    assert_eq!(format_handle("5551234567"), "(555) 123-4567");
    assert_eq!(format_handle("+15551234567"), "+1 (555) 123-4567");
    assert_eq!(format_handle("alice@example.com"), "alice@example.com");
    assert_eq!(format_handle("+442079460958"), "+442079460958");
    assert_eq!(format_handle(""), "Unknown");
}

#[test]
fn display_name_precedence() {
    assert_eq!(display_name_from_parts("Ada", "Lovelace", "Countess", "Analytical"), "Ada Lovelace");
    assert_eq!(display_name_from_parts("", "Lovelace", "", ""), "Lovelace");
    assert_eq!(display_name_from_parts("Ada", "", "", ""), "Ada");
    assert_eq!(display_name_from_parts("", "", "Ada!", "Analytical"), "Ada!");
    assert_eq!(display_name_from_parts("  ", " ", "  ", "Analytical Engine Co"), "Analytical Engine Co");
    assert_eq!(display_name_from_parts("", "", "", ""), "");
}

#[test]
fn index_matches_across_formatting_and_falls_back() {
    let records = vec![ContactRecord {
        display_name: "Grace Hopper".to_string(),
        phones: vec!["+1 (555) 123-4567".to_string()],
        emails: vec!["Grace@Navy.mil".to_string()],
        avatar_data_url: Some("data:image/png;base64,AAA".to_string()),
    }];
    let index = ContactIndex::build(records);

    let hit = index.resolve("5551234567");
    assert!(hit.matched);
    assert_eq!(hit.display_name, "Grace Hopper");
    assert_eq!(hit.avatar_data_url.as_deref(), Some("data:image/png;base64,AAA"));

    let hit = index.resolve("grace@navy.mil");
    assert!(hit.matched);
    assert_eq!(hit.display_name, "Grace Hopper");

    let miss = index.resolve("+15559999999");
    assert!(!miss.matched);
    assert_eq!(miss.display_name, "+1 (555) 999-9999");
    assert!(miss.avatar_data_url.is_none());
}

#[test]
fn empty_index_matches_nothing() {
    let index = ContactIndex::empty();
    assert!(index.lookup("alice@example.com").is_none());
    let r = index.resolve("alice@example.com");
    assert!(!r.matched);
    assert_eq!(r.display_name, "alice@example.com");
}

#[test]
fn nameless_card_keeps_avatar_but_formats_handle() {
    let records = vec![ContactRecord {
        display_name: String::new(),
        phones: vec!["5551234567".to_string()],
        emails: vec![],
        avatar_data_url: Some("data:image/jpeg;base64,ZZZ".to_string()),
    }];
    let index = ContactIndex::build(records);
    let hit = index.resolve("5551234567");
    assert!(hit.matched);
    assert_eq!(hit.display_name, "(555) 123-4567");
    assert_eq!(hit.avatar_data_url.as_deref(), Some("data:image/jpeg;base64,ZZZ"));
}

#[test]
fn later_card_wins_a_shared_number() {
    let records = vec![
        ContactRecord {
            display_name: "First".to_string(),
            phones: vec!["555-123-4567".to_string()],
            ..Default::default()
        },
        ContactRecord {
            display_name: "Second".to_string(),
            phones: vec!["+1 555 123 4567".to_string()],
            ..Default::default()
        },
    ];
    let index = ContactIndex::build(records);
    assert_eq!(index.lookup("5551234567").unwrap().display_name, "Second");
}

#[test]
fn permission_tags_are_stable() {
    assert_eq!(PermissionStatus::Authorized.as_str(), "authorized");
    assert_eq!(PermissionStatus::Denied.as_str(), "denied");
    assert_eq!(PermissionStatus::Restricted.as_str(), "restricted");
    assert_eq!(PermissionStatus::NotDetermined.as_str(), "notDetermined");
}

#[test]
fn limited_access_counts_as_authorized() {
    assert_eq!(permission_status(StoreAuthorization::Limited), PermissionStatus::Authorized);
    assert_eq!(permission_status(StoreAuthorization::Authorized), PermissionStatus::Authorized);
    assert_eq!(permission_status(StoreAuthorization::Denied), PermissionStatus::Denied);
    assert_eq!(permission_status(StoreAuthorization::Restricted), PermissionStatus::Restricted);
    assert_eq!(permission_status(StoreAuthorization::NotDetermined), PermissionStatus::NotDetermined);
}

#[test]
fn records_are_kept_only_when_authorized() {
    let rec = ContactRecord { display_name: "A".into(), phones: vec!["1".into()], ..Default::default() };
    let denied = load_contacts(PermissionStatus::Denied, Some(vec![rec.clone()]));
    assert_eq!(denied.status, PermissionStatus::Denied);
    assert!(denied.records.is_empty());
    let ok = load_contacts(PermissionStatus::Authorized, Some(vec![rec]));
    assert_eq!(ok.records.len(), 1);
    let failed = load_contacts(PermissionStatus::Authorized, None);
    assert!(failed.records.is_empty());
}

#[test]
fn cards_without_endpoints_are_skipped() {
    assert!(contact_to_record("Ada", "", "", "", vec![], vec![], None).is_none());
    let rec = contact_to_record(" Ada ", "Lovelace", "", "", vec![], vec!["ada@x.org".into()], None).unwrap();
    assert_eq!(rec.display_name, "Ada Lovelace");
    assert_eq!(rec.emails, vec!["ada@x.org".to_string()]);
}

#[test]
fn data_url_sniffs_the_image_type() {
    assert_eq!(data_url(&[0x89, b'P', b'N', b'G']), "data:image/png;base64,iVBORw==");
    assert_eq!(data_url(b"GIF8"), "data:image/gif;base64,R0lGOA==");
    assert_eq!(data_url(&[0xff, 0xd8]), "data:image/jpeg;base64,/9g=");
    assert_eq!(data_url(&[]), "data:image/jpeg;base64,");
}
