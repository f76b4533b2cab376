//! What is decided around the system Contacts store: how its authorization
//! status reads, which cards become records, and how a thumbnail becomes a
//! `data:` URL. Talking to the store itself is the platform shell's part.

use vstd::prelude::*;
use base64::Engine;
use crate::contacts::{display_name_from_parts, display_name_spec, ContactRecord, PermissionStatus};
use crate::query::strings_view;
use crate::text::{push_chars, push_str, string_from_chars, chars_of};

verus! {

/// The store's authorization states, as the platform reports them.
#[derive(Debug, Clone, Copy, PartialEq, Eq)]
pub enum StoreAuthorization {
    NotDetermined,
    Restricted,
    Denied,
    Authorized,
    /// Access to a user-chosen subset of contacts.
    Limited,
}

/// The permission status of a store authorization: full and limited access
/// both count as authorized.
pub fn map_status(status: StoreAuthorization) -> (r: PermissionStatus)
    ensures
        r == (match status {
            StoreAuthorization::Authorized | StoreAuthorization::Limited => PermissionStatus::Authorized,
            StoreAuthorization::Denied => PermissionStatus::Denied,
            StoreAuthorization::Restricted => PermissionStatus::Restricted,
            StoreAuthorization::NotDetermined => PermissionStatus::NotDetermined,
        }),
{
    match status {
        StoreAuthorization::Authorized | StoreAuthorization::Limited => PermissionStatus::Authorized,
        StoreAuthorization::Denied => PermissionStatus::Denied,
        StoreAuthorization::Restricted => PermissionStatus::Restricted,
        StoreAuthorization::NotDetermined => PermissionStatus::NotDetermined,
    }
}

/// Result of a full store load: the authorization status plus the records
/// (empty unless authorized).
pub struct LoadedContacts {
    pub status: PermissionStatus,
    pub records: Vec<ContactRecord>,
}

/// Whether a load should first ask the user (the prompt has never been
/// answered).
pub fn needs_request(status: PermissionStatus) -> (r: bool)
    ensures
        r == (status == PermissionStatus::NotDetermined),
{
    match status {
        PermissionStatus::NotDetermined => true,
        _ => false,
    }
}

/// The current permission status for a store authorization state (read
/// without prompting by the platform shell).
pub fn permission_status(authorization: StoreAuthorization) -> (r: PermissionStatus)
    ensures
        r == (match authorization {
            StoreAuthorization::Authorized | StoreAuthorization::Limited => PermissionStatus::Authorized,
            StoreAuthorization::Denied => PermissionStatus::Denied,
            StoreAuthorization::Restricted => PermissionStatus::Restricted,
            StoreAuthorization::NotDetermined => PermissionStatus::NotDetermined,
        }),
{
    map_status(authorization)
}

/// The outcome of a load, given the status read after any prompt and the
/// enumeration (when one ran): the records are kept only when authorized, and
/// an enumeration that failed counts as no records.
pub fn load_contacts(status: PermissionStatus, enumerated: Option<Vec<ContactRecord>>) -> (r: LoadedContacts)
    ensures
        r.status == status,
        status != PermissionStatus::Authorized ==> r.records@.len() == 0,
        status == PermissionStatus::Authorized ==> r.records@ == (match enumerated {
            Some(v) => v@,
            None => Seq::empty(),
        }),
{
    match status {
        PermissionStatus::Authorized => match enumerated {
            Some(v) => LoadedContacts { status, records: v },
            None => LoadedContacts { status, records: Vec::new() },
        },
        _ => LoadedContacts { status, records: Vec::new() },
    }
}

/// The record of a card, or `None` when it has no phone and no email (nothing
/// to key on). The display name is assembled from the name fields.
pub fn contact_to_record(
    given: &str,
    family: &str,
    nickname: &str,
    organization: &str,
    phones: Vec<String>,
    emails: Vec<String>,
    avatar: Option<String>,
) -> (r: Option<ContactRecord>)
    ensures
        (phones@.len() == 0 && emails@.len() == 0) <==> r is None,
        r matches Some(rec) ==> {
            &&& rec.display_name@ == display_name_spec(given@, family@, nickname@, organization@)
            &&& rec.phones@ == phones@
            &&& rec.emails@ == emails@
            &&& rec.avatar_data_url == avatar
        },
{
    if phones.len() == 0 && emails.len() == 0 {
        return None;
    }
    Some(ContactRecord {
        display_name: display_name_from_parts(given, family, nickname, organization),
        phones,
        emails,
        avatar_data_url: avatar,
    })
}

/// The MIME type of a thumbnail by its magic bytes: PNG, GIF, or JPEG for
/// anything else (thumbnails are usually JPEG).
pub open spec fn image_mime_spec(bytes: Seq<u8>) -> Seq<char> {
    if bytes.len() >= 4 && bytes[0] == 0x89u8 && bytes[1] == 0x50u8 && bytes[2] == 0x4eu8 && bytes[3] == 0x47u8 {
        "image/png"@
    } else if bytes.len() >= 4 && bytes[0] == 0x47u8 && bytes[1] == 0x49u8 && bytes[2] == 0x46u8 && bytes[3] == 0x38u8 {
        "image/gif"@
    } else {
        "image/jpeg"@
    }
}

/// The character of a six-bit value in the standard Base64 alphabet
/// (`A`–`Z`, `a`–`z`, `0`–`9`, `+`, `/`).
pub open spec fn base64_digit(v: int) -> char {
    if v < 26 {
        (65 + v) as char
    } else if v < 52 {
        (97 + (v - 26)) as char
    } else if v < 62 {
        (48 + (v - 52)) as char
    } else if v == 62 {
        '+'
    } else {
        '/'
    }
}

/// The standard (padded) Base64 text of `bytes` (RFC 4648, section 4): each
/// group of three bytes becomes four characters of six bits each, and a last
/// group of one or two bytes is filled out with `=`.
pub open spec fn base64_standard(bytes: Seq<u8>) -> Seq<char>
    decreases bytes.len(),
{
    if bytes.len() == 0 {
        Seq::empty()
    } else if bytes.len() == 1 {
        let x = bytes[0] as int;
        seq![base64_digit(x / 4), base64_digit((x % 4) * 16), '=', '=']
    } else if bytes.len() == 2 {
        let x = bytes[0] as int;
        let y = bytes[1] as int;
        seq![base64_digit(x / 4), base64_digit((x % 4) * 16 + y / 16), base64_digit((y % 16) * 4), '=']
    } else {
        let x = bytes[0] as int;
        let y = bytes[1] as int;
        let z = bytes[2] as int;
        seq![
            base64_digit(x / 4),
            base64_digit((x % 4) * 16 + y / 16),
            base64_digit((y % 16) * 4 + z / 64),
            base64_digit(z % 64),
        ] + base64_standard(bytes.subrange(3, bytes.len() as int))
    }
}

/// `base64::engine::general_purpose::STANDARD.encode`. It panics only when
/// the encoded length overflows `usize`, which no slice of at most
/// `isize::MAX` bytes reaches.
#[verifier::external_body]
fn base64_encode(bytes: &[u8]) -> (r: String)
    requires
        bytes@.len() <= isize::MAX,
    ensures
        r@ == base64_standard(bytes@),
{
    base64::engine::general_purpose::STANDARD.encode(bytes)
}

/// Encode raw image bytes as a `data:` URL, sniffing the MIME type from the
/// magic bytes.
pub fn data_url(bytes: &[u8]) -> (r: String)
    requires
        bytes@.len() <= isize::MAX,
    ensures
        r@ == "data:"@ + image_mime_spec(bytes@) + ";base64,"@ + base64_standard(bytes@),
{
    let n = bytes.len();
    let mime = if n >= 4 && bytes[0] == 0x89u8 && bytes[1] == 0x50u8 && bytes[2] == 0x4eu8 && bytes[3] == 0x47u8 {
        "image/png"
    } else if n >= 4 && bytes[0] == 0x47u8 && bytes[1] == 0x49u8 && bytes[2] == 0x46u8 && bytes[3] == 0x38u8 {
        "image/gif"
    } else {
        "image/jpeg"
    };
    let encoded = base64_encode(bytes);
    let mut out: Vec<char> = Vec::new();
    push_str(&mut out, "data:");
    push_str(&mut out, mime);
    push_str(&mut out, ";base64,");
    push_str(&mut out, encoded.as_str());
    assert(out@ =~= "data:"@ + image_mime_spec(bytes@) + ";base64,"@ + base64_standard(bytes@));
    string_from_chars(out.as_slice())
}

} // verus!
