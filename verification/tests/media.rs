use std::path::{Path, PathBuf};

use better_im::media::{kind_from_mime, media_item, resolve_existing};
use better_im::models::MediaAttachment;
use better_im::paths::{basename, default_chat_db_path, expand_tilde, join, sidecar_paths};

#[test]
fn kind_classification() {
    assert_eq!(kind_from_mime(Some("image/jpeg")), "image");
    assert_eq!(kind_from_mime(Some("video/mp4")), "video");
    assert_eq!(kind_from_mime(Some("audio/mpeg")), "audio");
    assert_eq!(kind_from_mime(Some("application/pdf")), "file");
    assert_eq!(kind_from_mime(None), "file");
}

#[test]
fn tilde_expansion() {
    let home = "/Users/test";
    assert_eq!(
        PathBuf::from(expand_tilde("~/Library/Messages/Attachments/x.jpg", Some(home))),
        PathBuf::from("/Users/test/Library/Messages/Attachments/x.jpg")
    );
    assert_eq!(
        PathBuf::from(expand_tilde("/absolute/path.jpg", Some(home))),
        PathBuf::from("/absolute/path.jpg")
    );
    assert_eq!(PathBuf::from(expand_tilde("~/x.jpg", None)), PathBuf::from("~/x.jpg"));
}

#[test]
fn basename_extraction() {
    assert_eq!(
        basename("~/Library/Messages/Attachments/ab/cd/IMG_1.HEIC").as_deref(),
        Some("IMG_1.HEIC")
    );
}

#[test]
fn absolute_path_none_when_missing() {
    assert!(resolve_existing("~/definitely/not/here/xyz.jpg", Some("/no-such-home")).is_none());
}

#[test]
fn lone_tilde_is_home_and_join_matches_std() {
    assert_eq!(expand_tilde("~", Some("/Users/test")), "/Users/test");
    for (base, rel) in [("/a", "b"), ("/a/", "b"), ("", "b"), ("/a", "/c"), ("a", "")] {
        assert_eq!(
            PathBuf::from(join(base, rel)),
            Path::new(base).join(rel),
            "{base:?} + {rel:?}"
        );
    }
}

#[test]
fn sidecar_paths_includes_wal_and_shm() {
    let paths = sidecar_paths("/tmp/chat.db");
    assert_eq!(paths.len(), 3);
    assert!(paths.iter().any(|p| Path::new(p).ends_with("chat.db")));
    assert!(paths.iter().any(|p| Path::new(p).ends_with("chat.db-wal")));
    assert!(paths.iter().any(|p| Path::new(p).ends_with("chat.db-shm")));
    assert_eq!(paths[1], "/tmp/chat.db-wal");
    assert_eq!(paths[2], "/tmp/chat.db-shm");
}

#[test]
fn default_chat_db_is_under_the_home_library() {
    assert_eq!(default_chat_db_path(Some("/Users/me")), "/Users/me/Library/Messages/chat.db");
    assert_eq!(default_chat_db_path(None), "Library/Messages/chat.db");
}

#[test]
fn gallery_item_prefers_transfer_name_and_hides_missing_files() {
    let a = MediaAttachment {
        message_id: 7,
        chat_id: Some(1),
        path: Some("~/nowhere/IMG_2.JPG".into()),
        transfer_name: None,
        mime_type: Some("image/jpeg".into()),
        timestamp: None,
        sender: Some("+15551234567".into()),
        is_from_me: false,
    };
    let item = media_item(&a, Some("/no-such-home"));
    assert_eq!(item.message_id, 7);
    assert_eq!(item.filename.as_deref(), Some("IMG_2.JPG"));
    assert_eq!(item.kind, "image");
    assert!(item.absolute_path.is_none());
    assert!(item.timestamp.is_none());
    let named = MediaAttachment { transfer_name: Some("clip.mov".into()), ..a };
    assert_eq!(media_item(&named, None).filename.as_deref(), Some("clip.mov"));
}

#[test]
fn index_lives_under_the_data_directory() {
    let (dir, file) = better_im::paths::index_location("/Users/a/Library/Application Support");
    assert_eq!(dir, "/Users/a/Library/Application Support/better-im");
    assert_eq!(file, "/Users/a/Library/Application Support/better-im/index.db");
    assert!(file.ends_with("better-im/index.db"));
}

#[test]
fn existing_files_keep_their_expanded_path() {
    let p = better_im::media::kept_if_exists("/Users/t/x.jpg".to_string(), true);
    assert_eq!(p.as_deref(), Some("/Users/t/x.jpg"));
    assert_eq!(better_im::media::kept_if_exists("/Users/t/x.jpg".to_string(), false), None);
}
