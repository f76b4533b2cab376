//! The media gallery's shaping of attachment rows: media kind, on-disk path
//! resolution and display filename.

use vstd::prelude::*;
use crate::contacts::{clone_opt_string, opt_view};
use crate::dto::iso_spec;
use crate::models::MediaAttachment;
use crate::paths::{basename, expand_tilde, expand_tilde_spec, path_file_name};
use crate::text::{chars_of, starts_with, starts_with_chars, string_of};
use crate::time::iso;

verus! {

/// One attachment surfaced in a gallery grid.
#[derive(Debug, Clone)]
pub struct MediaItemDto {
    /// Source `message.ROWID` the attachment belongs to.
    pub message_id: i64,
    pub chat_id: Option<i64>,
    pub filename: Option<String>,
    pub mime_type: Option<String>,
    /// Absolute path of the file when it exists; `None` if it is missing.
    pub absolute_path: Option<String>,
    /// Coarse bucket: `"image" | "video" | "audio" | "file"`.
    pub kind: String,
    pub timestamp: Option<String>,
    pub sender: Option<String>,
    pub is_from_me: bool,
}

/// The media bucket of a MIME type: `image`, `video` or `audio` by its top
/// level type, `file` for anything else (including no MIME type).
pub open spec fn kind_spec(mime: Option<Seq<char>>) -> Seq<char> {
    match mime {
        Some(m) => if starts_with(m, "image/"@) {
            "image"@
        } else if starts_with(m, "video/"@) {
            "video"@
        } else if starts_with(m, "audio/"@) {
            "audio"@
        } else {
            "file"@
        },
        None => "file"@,
    }
}

/// Coarse media bucket from a MIME type.
pub fn kind_from_mime(mime: Option<&str>) -> (r: String)
    ensures
        r@ == kind_spec(match mime {
            Some(m) => Some(m@),
            None => None,
        }),
{
    match mime {
        Some(m) => {
            let c = chars_of(m);
            if starts_with_chars(c.as_slice(), chars_of("image/").as_slice()) {
                string_of("image")
            } else if starts_with_chars(c.as_slice(), chars_of("video/").as_slice()) {
                string_of("video")
            } else if starts_with_chars(c.as_slice(), chars_of("audio/").as_slice()) {
                string_of("audio")
            } else {
                string_of("file")
            }
        },
        None => string_of("file"),
    }
}

/// `Path::exists`: whether a file is at `path` right now. The answer depends
/// on the disk, so nothing is stated of it.
#[verifier::external_body]
fn path_exists(path: &str) -> bool {
    std::path::Path::new(path).exists()
}

/// Expand `~`, then return the absolute path only when the file exists on disk
/// (`None` otherwise, so the gallery can render a placeholder). Whether it
/// exists is the disk's answer; a returned path is always the expansion.
pub fn resolve_existing(path: &str, home: Option<&str>) -> (r: Option<String>)
    ensures
        r matches Some(p) ==> p@ == expand_tilde_spec(path@, match home {
            Some(h) => Some(h@),
            None => None,
        }),
{
    let expanded = expand_tilde(path, home);
    let exists = path_exists(expanded.as_str());
    kept_if_exists(expanded, exists)
}

/// The gallery's path of a file: the expanded path when the file exists,
/// else none (the gallery then shows a placeholder).
pub fn kept_if_exists(expanded: String, exists: bool) -> (r: Option<String>)
    ensures
        r == (if exists {
            Some(expanded)
        } else {
            None::<String>
        }),
{
    if exists {
        Some(expanded)
    } else {
        None
    }
}

fn opt_as_str(o: &Option<String>) -> (r: Option<&str>)
    ensures
        match r {
            Some(s) => o matches Some(t) && s@ == t@,
            None => o is None,
        },
{
    match o {
        Some(s) => Some(s.as_str()),
        None => None,
    }
}

/// The display filename of an attachment: its recorded transfer name, else
/// the final component of its path.
pub open spec fn media_filename(a: MediaAttachment) -> Option<Seq<char>> {
    match a.transfer_name {
        Some(n) => Some(n@),
        None => match a.path {
            Some(p) => path_file_name(p@),
            None => None,
        },
    }
}

/// Map an attachment row into the gallery item: expand `~`, keep the path
/// only if the file exists, classify the media `kind`.
pub fn media_item(a: &MediaAttachment, home: Option<&str>) -> (r: MediaItemDto)
    ensures
        r.message_id == a.message_id,
        r.chat_id == a.chat_id,
        opt_view(r.filename) == media_filename(*a),
        opt_view(r.mime_type) == opt_view(a.mime_type),
        r.absolute_path matches Some(p) ==> (a.path matches Some(src) && p@ == expand_tilde_spec(src@, match home {
            Some(h) => Some(h@),
            None => None,
        })),
        a.path is None ==> r.absolute_path is None,
        r.kind@ == kind_spec(opt_view(a.mime_type)),
        opt_view(r.timestamp) == iso_spec(a.timestamp),
        opt_view(r.sender) == opt_view(a.sender),
        r.is_from_me == a.is_from_me,
{
    let absolute_path = match &a.path {
        Some(p) => resolve_existing(p.as_str(), home),
        None => None,
    };
    let filename = match &a.transfer_name {
        Some(n) => Some(n.clone()),
        None => match &a.path {
            Some(p) => basename(p.as_str()),
            None => None,
        },
    };
    MediaItemDto {
        message_id: a.message_id,
        chat_id: a.chat_id,
        filename,
        mime_type: clone_opt_string(&a.mime_type),
        absolute_path,
        kind: kind_from_mime(opt_as_str(&a.mime_type)),
        timestamp: iso(a.timestamp),
        sender: clone_opt_string(&a.sender),
        is_from_me: a.is_from_me,
    }
}

} // verus!
