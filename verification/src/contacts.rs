//! Contacts resolution: the platform-independent matching logic.
//!
//! A `chat.db` handle is a raw phone/email string. Contacts store the same
//! endpoints but formatted differently ("+1 (555) 123-4567" vs
//! "+15551234567"), so both sides go through the *same*
//! [`normalize_handle_key`] before comparison: that is what makes the match
//! tolerant of formatting. The enumeration of the system store itself lives
//! outside this crate; it hands over plain [`ContactRecord`]s.

use vstd::prelude::*;
use crate::dto::ContactInfoDto;
use crate::query::strings_view;
use crate::text::{
    ascii_lower_seq, ascii_lowercase, chars_of, has_char, has_char_exec, is_ascii_digit, is_digit,
    push_chars, push_str, slice_chars, string_from_chars, trim, trim_chars, trim_end, trim_start,
};

verus! {

/// Where the user stands on the Contacts permission (TCC) prompt.
#[derive(Debug, Clone, Copy, PartialEq, Eq)]
pub enum PermissionStatus {
    Authorized,
    Denied,
    Restricted,
    NotDetermined,
}

/// The stable tag of each status, mirrored by the frontend.
pub open spec fn permission_tag(s: PermissionStatus) -> Seq<char> {
    match s {
        PermissionStatus::Authorized => "authorized"@,
        PermissionStatus::Denied => "denied"@,
        PermissionStatus::Restricted => "restricted"@,
        PermissionStatus::NotDetermined => "notDetermined"@,
    }
}

impl PermissionStatus {
    /// Stable string tag mirrored by the frontend.
    pub fn as_str(self) -> (r: &'static str)
        ensures
            r@ == permission_tag(self),
    {
        match self {
            PermissionStatus::Authorized => "authorized",
            PermissionStatus::Denied => "denied",
            PermissionStatus::Restricted => "restricted",
            PermissionStatus::NotDetermined => "notDetermined",
        }
    }
}

/// A single contact as enumerated from the store, before indexing. Plain data
/// so it crosses the platform boundary cleanly and is trivial to build in
/// tests.
#[derive(Debug, Clone, Default)]
pub struct ContactRecord {
    /// Assembled display name (may be empty if the card had no name fields).
    pub display_name: String,
    /// Raw phone-number strings exactly as stored in Contacts.
    pub phones: Vec<String>,
    /// Raw email strings exactly as stored in Contacts.
    pub emails: Vec<String>,
    /// The thumbnail already encoded as a `data:` URL, if present.
    pub avatar_data_url: Option<String>,
}

/// The resolved identity for one handle: what the UI ultimately renders.
#[derive(Debug, Clone)]
pub struct ResolvedContact {
    pub display_name: String,
    pub avatar_data_url: Option<String>,
}

/// The content of a [`ResolvedContact`]: name and optional avatar.
pub type ContactView = (Seq<char>, Option<Seq<char>>);

pub open spec fn opt_view(o: Option<String>) -> Option<Seq<char>> {
    match o {
        Some(s) => Some(s@),
        None => None,
    }
}

impl View for ResolvedContact {
    type V = ContactView;

    open spec fn view(&self) -> ContactView {
        (self.display_name@, opt_view(self.avatar_data_url))
    }
}

/// A copy of an optional string.
pub fn clone_opt_string(o: &Option<String>) -> (r: Option<String>)
    ensures
        opt_view(r) == opt_view(*o),
{
    match o {
        Some(s) => Some(s.clone()),
        None => None,
    }
}

// ---------------------------------------------------------------------------
// Normalization
// ---------------------------------------------------------------------------

/// The ASCII digits of `s`, in order.
pub open spec fn digits(s: Seq<char>) -> Seq<char>
    decreases s.len(),
{
    if s.len() == 0 {
        Seq::empty()
    } else if is_digit(s.last()) {
        digits(s.drop_last()).push(s.last())
    } else {
        digits(s.drop_last())
    }
}

/// A phone number's comparable core: its digits, reduced to the trailing ten
/// when there are more; `None` when there are no digits.
pub open spec fn phone_key(raw: Seq<char>) -> Option<Seq<char>> {
    let d = digits(raw);
    if d.len() == 0 {
        None
    } else if d.len() > 10 {
        Some(d.subrange(d.len() - 10, d.len() as int))
    } else {
        Some(d)
    }
}

/// A trimmed, ASCII-lowercased email; `None` without an `@`.
pub open spec fn email_key(raw: Seq<char>) -> Option<Seq<char>> {
    let t = trim(raw);
    if has_char(t, '@') {
        Some(ascii_lower_seq(t))
    } else {
        None
    }
}

/// The lookup key of any handle: `e:` + the normalized email when it has an
/// `@`, else `p:` + the phone key; `None` for blank or digitless handles.
pub open spec fn handle_key(handle: Seq<char>) -> Option<Seq<char>> {
    let t = trim(handle);
    if t.len() == 0 {
        None
    } else if has_char(t, '@') {
        match email_key(t) {
            Some(e) => Some("e:"@ + e),
            None => None,
        }
    } else {
        match phone_key(t) {
            Some(p) => Some("p:"@ + p),
            None => None,
        }
    }
}

fn digits_of(s: &[char]) -> (r: Vec<char>)
    ensures
        r@ == digits(s@),
{
    let mut out: Vec<char> = Vec::new();
    let mut i: usize = 0;
    assert(s@.take(0) =~= Seq::<char>::empty());
    while i < s.len()
        invariant
            i <= s@.len(),
            out@ == digits(s@.take(i as int)),
        decreases s@.len() - i,
    {
        if is_ascii_digit(s[i]) {
            out.push(s[i]);
        }
        i = i + 1;
        assert(s@.take(i as int).drop_last() =~= s@.take(i - 1));
    }
    assert(s@.take(s@.len() as int) =~= s@);
    out
}

fn phone_key_chars(raw: &[char]) -> (r: Option<Vec<char>>)
    ensures
        match r {
            Some(v) => phone_key(raw@) == Some(v@),
            None => phone_key(raw@) is None,
        },
{
    let d = digits_of(raw);
    if d.len() == 0 {
        None
    } else if d.len() > 10 {
        Some(slice_chars(d.as_slice(), d.len() - 10, d.len()))
    } else {
        Some(d)
    }
}

/// Reduce a phone number to its comparable core: digits only, and (when there
/// are more than 10) just the trailing 10. This strips spaces, dashes, parens,
/// a leading `+`, and any country-code prefix. Numbers with fewer than 10
/// digits are kept whole. `None` when there are no digits at all.
pub fn normalize_phone(raw: &str) -> (r: Option<String>)
    ensures
        opt_view(r) == phone_key(raw@),
{
    let c = chars_of(raw);
    match phone_key_chars(c.as_slice()) {
        Some(v) => Some(string_from_chars(v.as_slice())),
        None => None,
    }
}

fn email_key_chars(raw: &[char]) -> (r: Option<Vec<char>>)
    ensures
        match r {
            Some(v) => email_key(raw@) == Some(v@),
            None => email_key(raw@) is None,
        },
{
    let t = trim_chars(raw);
    if !has_char_exec(t.as_slice(), '@') {
        return None;
    }
    Some(ascii_lowercase(t.as_slice()))
}

/// Normalize an email: trim surrounding whitespace and ASCII-lowercase. `None`
/// for strings without an `@` (not an email).
pub fn normalize_email(raw: &str) -> (r: Option<String>)
    ensures
        opt_view(r) == email_key(raw@),
{
    let c = chars_of(raw);
    match email_key_chars(c.as_slice()) {
        Some(v) => Some(string_from_chars(v.as_slice())),
        None => None,
    }
}

fn handle_key_chars(handle: &[char]) -> (r: Option<Vec<char>>)
    ensures
        match r {
            Some(v) => handle_key(handle@) == Some(v@),
            None => handle_key(handle@) is None,
        },
{
    let t = trim_chars(handle);
    if t.len() == 0 {
        return None;
    }
    if has_char_exec(t.as_slice(), '@') {
        match email_key_chars(t.as_slice()) {
            Some(e) => {
                let mut out: Vec<char> = Vec::new();
                push_str(&mut out, "e:");
                push_chars(&mut out, e.as_slice());
                Some(out)
            },
            None => None,
        }
    } else {
        match phone_key_chars(t.as_slice()) {
            Some(p) => {
                let mut out: Vec<char> = Vec::new();
                push_str(&mut out, "p:");
                push_chars(&mut out, p.as_slice());
                Some(out)
            },
            None => None,
        }
    }
}

/// Canonical lookup key for any handle (phone or email), prefixed so a
/// phone-shaped local part can never collide with a phone number. Both the
/// contact side and the `chat.db` side go through this.
pub fn normalize_handle_key(handle: &str) -> (r: Option<String>)
    ensures
        opt_view(r) == handle_key(handle@),
{
    let c = chars_of(handle);
    match handle_key_chars(c.as_slice()) {
        Some(v) => Some(string_from_chars(v.as_slice())),
        None => None,
    }
}

/// The pretty form of a handle: `Unknown` when blank, emails as-is, ten digits
/// as `(ddd) ddd-dddd`, eleven digits starting with `1` as
/// `+1 (ddd) ddd-dddd`, anything else as the trimmed handle.
pub open spec fn format_handle_spec(handle: Seq<char>) -> Seq<char> {
    let h = trim(handle);
    let d = digits(h);
    if h.len() == 0 {
        "Unknown"@
    } else if has_char(h, '@') {
        h
    } else if d.len() == 10 {
        seq!['('] + d.subrange(0, 3) + seq![')', ' '] + d.subrange(3, 6) + seq!['-'] + d.subrange(6, 10)
    } else if d.len() == 11 && d[0] == '1' {
        seq!['+', '1', ' ', '('] + d.subrange(1, 4) + seq![')', ' '] + d.subrange(4, 7) + seq!['-']
            + d.subrange(7, 11)
    } else {
        h
    }
}

/// Human-friendly rendering of a raw handle for the *unmatched* case: US-style
/// phone formatting when the shape is recognizable, otherwise the handle as-is.
pub fn format_handle(handle: &str) -> (r: String)
    ensures
        r@ == format_handle_spec(handle@),
{
    let c = chars_of(handle);
    let h = trim_chars(c.as_slice());
    if h.len() == 0 {
        return string_from_chars(chars_of("Unknown").as_slice());
    }
    if has_char_exec(h.as_slice(), '@') {
        return string_from_chars(h.as_slice());
    }
    let d = digits_of(h.as_slice());
    let ds = d.as_slice();
    let mut out: Vec<char> = Vec::new();
    if d.len() == 10 {
        out.push('(');
        push_chars(&mut out, slice_chars(ds, 0, 3).as_slice());
        out.push(')');
        out.push(' ');
        push_chars(&mut out, slice_chars(ds, 3, 6).as_slice());
        out.push('-');
        push_chars(&mut out, slice_chars(ds, 6, 10).as_slice());
        assert(out@ =~= format_handle_spec(handle@));
    } else if d.len() == 11 && d[0] == '1' {
        out.push('+');
        out.push('1');
        out.push(' ');
        out.push('(');
        push_chars(&mut out, slice_chars(ds, 1, 4).as_slice());
        out.push(')');
        out.push(' ');
        push_chars(&mut out, slice_chars(ds, 4, 7).as_slice());
        out.push('-');
        push_chars(&mut out, slice_chars(ds, 7, 11).as_slice());
        assert(out@ =~= format_handle_spec(handle@));
    } else {
        return string_from_chars(h.as_slice());
    }
    string_from_chars(out.as_slice())
}

/// The display name of a card: trimmed "given family" when not blank, else the
/// trimmed nickname when not blank, else the trimmed organization (possibly
/// empty).
pub open spec fn display_name_spec(given: Seq<char>, family: Seq<char>, nickname: Seq<char>, organization: Seq<char>) -> Seq<char> {
    let full = trim(trim(given).push(' ') + trim(family));
    if full.len() > 0 {
        full
    } else if trim(nickname).len() > 0 {
        trim(nickname)
    } else {
        trim(organization)
    }
}

/// Assemble a display name from the Contacts name fields, in priority order:
/// "given family" (either side may be blank), then nickname, then
/// organization. Empty when the card carries no usable name.
pub fn display_name_from_parts(given: &str, family: &str, nickname: &str, organization: &str) -> (r: String)
    ensures
        r@ == display_name_spec(given@, family@, nickname@, organization@),
{
    let g = trim_chars(chars_of(given).as_slice());
    let f = trim_chars(chars_of(family).as_slice());
    let mut joined = g;
    joined.push(' ');
    push_chars(&mut joined, f.as_slice());
    let full = trim_chars(joined.as_slice());
    if full.len() > 0 {
        return string_from_chars(full.as_slice());
    }
    let nick = trim_chars(chars_of(nickname).as_slice());
    if nick.len() > 0 {
        return string_from_chars(nick.as_slice());
    }
    let org = trim_chars(chars_of(organization).as_slice());
    string_from_chars(org.as_slice())
}

// ---------------------------------------------------------------------------
// The index
// ---------------------------------------------------------------------------

/// The content of a [`ContactRecord`]: name, phones, emails, avatar.
pub struct RecordView {
    pub display_name: Seq<char>,
    pub phones: Seq<Seq<char>>,
    pub emails: Seq<Seq<char>>,
    pub avatar: Option<Seq<char>>,
}

impl View for ContactRecord {
    type V = RecordView;

    open spec fn view(&self) -> RecordView {
        RecordView {
            display_name: self.display_name@,
            phones: strings_view(self.phones@),
            emails: strings_view(self.emails@),
            avatar: opt_view(self.avatar_data_url),
        }
    }
}

/// `(key, contact)` for each of `handles` that has a key, in order.
pub open spec fn keyed(handles: Seq<Seq<char>>, c: ContactView) -> Seq<(Seq<char>, ContactView)>
    decreases handles.len(),
{
    if handles.len() == 0 {
        Seq::empty()
    } else {
        match handle_key(handles.last()) {
            Some(k) => keyed(handles.drop_last(), c).push((k, c)),
            None => keyed(handles.drop_last(), c),
        }
    }
}

/// The entries one record contributes: every phone, then every email.
pub open spec fn record_entries(r: RecordView) -> Seq<(Seq<char>, ContactView)> {
    keyed(r.phones + r.emails, (r.display_name, r.avatar))
}

/// The entries of a list of records, in order.
pub open spec fn build_entries(records: Seq<RecordView>) -> Seq<(Seq<char>, ContactView)>
    decreases records.len(),
{
    if records.len() == 0 {
        Seq::empty()
    } else {
        build_entries(records.drop_last()) + record_entries(records.last())
    }
}

/// The contact for `key`: that of the last entry with this key (a later
/// contact wins a collision).
pub open spec fn entries_lookup(e: Seq<(Seq<char>, ContactView)>, key: Seq<char>) -> Option<ContactView>
    decreases e.len(),
{
    if e.len() == 0 {
        None
    } else if e.last().0 == key {
        Some(e.last().1)
    } else {
        entries_lookup(e.drop_last(), key)
    }
}

/// The contact a raw handle resolves to.
pub open spec fn handle_lookup(e: Seq<(Seq<char>, ContactView)>, handle: Seq<char>) -> Option<ContactView> {
    match handle_key(handle) {
        Some(k) => entries_lookup(e, k),
        None => None,
    }
}

/// A prebuilt lookup from normalized handle key to contact, built once from
/// the full store enumeration.
#[derive(Debug, Default)]
pub struct ContactIndex {
    by_key: Vec<(String, ResolvedContact)>,
}

pub open spec fn entry_view(e: (String, ResolvedContact)) -> (Seq<char>, ContactView) {
    (e.0@, e.1@)
}

impl View for ContactIndex {
    type V = Seq<(Seq<char>, ContactView)>;

    closed spec fn view(&self) -> Seq<(Seq<char>, ContactView)> {
        self.by_key@.map_values(|e: (String, ResolvedContact)| entry_view(e))
    }
}

impl ContactIndex {
    /// An index that matches nothing (used when permission is not granted so
    /// the app degrades to raw/formatted handles).
    pub fn empty() -> (r: Self)
        ensures
            r@ == Seq::<(Seq<char>, ContactView)>::empty(),
    {
        let r = ContactIndex { by_key: Vec::new() };
        assert(r@ =~= Seq::<(Seq<char>, ContactView)>::empty());
        r
    }

    fn add_handles(&mut self, handles: &Vec<String>, c: &ResolvedContact)
        ensures
            final(self)@ == old(self)@ + keyed(strings_view(handles@), c@),
    {
        let ghost hv = strings_view(handles@);
        let ghost start = self@;
        let mut i: usize = 0;
        assert(hv.take(0) =~= Seq::<Seq<char>>::empty());
        assert(start + keyed(hv.take(0), c@) =~= start);
        while i < handles.len()
            invariant
                i <= handles@.len(),
                hv == strings_view(handles@),
                self@ == start + keyed(hv.take(i as int), c@),
            decreases handles@.len() - i,
        {
            let hc = chars_of(handles[i].as_str());
            assert(hv.take(i + 1).drop_last() =~= hv.take(i as int));
            match handle_key_chars(hc.as_slice()) {
                Some(k) => {
                    let entry = (
                        string_from_chars(k.as_slice()),
                        ResolvedContact {
                            display_name: c.display_name.clone(),
                            avatar_data_url: clone_opt_string(&c.avatar_data_url),
                        },
                    );
                    let ghost before = self@;
                    assert(entry_view(entry) == (k@, c@));
                    self.by_key.push(entry);
                    assert(self@ =~= before.push(entry_view(entry)));
                    assert(self@ =~= start + keyed(hv.take(i as int), c@).push((k@, c@)));
                },
                None => {},
            }
            i = i + 1;
        }
        assert(hv.take(handles@.len() as int) =~= hv);
    }

    /// Build the index from enumerated records. Every phone and email of every
    /// contact becomes a key; on a collision the later contact wins.
    pub fn build(records: Vec<ContactRecord>) -> (r: Self)
        ensures
            r@ == build_entries(records@.map_values(|rec: ContactRecord| rec@)),
    {
        let ghost rv = records@.map_values(|rec: ContactRecord| rec@);
        let mut index = ContactIndex::empty();
        let mut i: usize = 0;
        assert(rv.take(0) =~= Seq::<RecordView>::empty());
        while i < records.len()
            invariant
                i <= records@.len(),
                rv == records@.map_values(|rec: ContactRecord| rec@),
                index@ == build_entries(rv.take(i as int)),
            decreases records@.len() - i,
        {
            let rec = &records[i];
            let resolved = ResolvedContact {
                display_name: rec.display_name.clone(),
                avatar_data_url: clone_opt_string(&rec.avatar_data_url),
            };
            let ghost mid = index@;
            index.add_handles(&rec.phones, &resolved);
            index.add_handles(&rec.emails, &resolved);
            proof {
                lemma_keyed_concat(rec@.phones, rec@.emails, resolved@);
                assert(rv.take(i + 1).drop_last() =~= rv.take(i as int));
                assert(rv.take(i + 1).last() == rec@);
                assert(index@ =~= build_entries(rv.take(i + 1)));
            }
            i = i + 1;
        }
        assert(rv.take(records@.len() as int) =~= rv);
        index
    }

    /// Look up the contact for a raw `chat.db` handle, if any.
    pub fn lookup(&self, handle: &str) -> (r: Option<&ResolvedContact>)
        ensures
            match r {
                Some(c) => handle_lookup(self@, handle@) == Some(c@),
                None => handle_lookup(self@, handle@) is None,
            },
    {
        let hc = chars_of(handle);
        let key = match handle_key_chars(hc.as_slice()) {
            Some(k) => k,
            None => return None,
        };
        let ghost e = self@;
        let mut i: usize = self.by_key.len();
        assert(e.take(i as int) =~= e);
        while i > 0
            invariant
                i <= self.by_key@.len(),
                e == self@,
                handle_key(handle@) == Some(key@),
                entries_lookup(e, key@) == entries_lookup(e.take(i as int), key@),
            decreases i,
        {
            let ek = chars_of(self.by_key[i - 1].0.as_str());
            assert(e.take(i as int).last() == entry_view(self.by_key@[i - 1]));
            if crate::text::chars_eq(ek.as_slice(), key.as_slice()) {
                let found = &self.by_key[i - 1].1;
                assert(e.take(i as int).last().0 == key@);
                assert(entries_lookup(e.take(i as int), key@) == Some(found@));
                assert(handle_lookup(self@, handle@) == Some(found@));
                return Some(found);
            }
            assert(e.take(i as int).drop_last() =~= e.take(i - 1));
            i = i - 1;
        }
        None
    }

    /// Resolve a handle into what the frontend renders. Unmatched handles, and
    /// matched contacts whose name is blank, fall back to the
    /// [`format_handle`]d raw handle; a matched contact's avatar is kept.
    pub fn resolve(&self, handle: &str) -> (r: ContactInfoDto)
        ensures
            r@ == resolve_spec(self@, handle@),
    {
        match self.lookup(handle) {
            Some(c) => {
                let name = trim_chars(chars_of(c.display_name.as_str()).as_slice());
                if name.len() > 0 {
                    ContactInfoDto {
                        display_name: c.display_name.clone(),
                        avatar_data_url: clone_opt_string(&c.avatar_data_url),
                        matched: true,
                    }
                } else {
                    ContactInfoDto {
                        display_name: format_handle(handle),
                        avatar_data_url: clone_opt_string(&c.avatar_data_url),
                        matched: true,
                    }
                }
            },
            None => ContactInfoDto {
                display_name: format_handle(handle),
                avatar_data_url: None,
                matched: false,
            },
        }
    }
}

/// What resolving `handle` against the index entries gives: `(display name,
/// avatar, matched)`.
pub open spec fn resolve_spec(e: Seq<(Seq<char>, ContactView)>, handle: Seq<char>) -> (Seq<char>, Option<Seq<char>>, bool) {
    match handle_lookup(e, handle) {
        Some(c) => if trim(c.0).len() > 0 {
            (c.0, c.1, true)
        } else {
            (format_handle_spec(handle), c.1, true)
        },
        None => (format_handle_spec(handle), None, false),
    }
}

proof fn lemma_keyed_concat(a: Seq<Seq<char>>, b: Seq<Seq<char>>, c: ContactView)
    ensures
        keyed(a + b, c) == keyed(a, c) + keyed(b, c),
    decreases b.len(),
{
    if b.len() == 0 {
        assert(a + b =~= a);
        assert(keyed(a, c) + keyed(b, c) =~= keyed(a, c));
    } else {
        lemma_keyed_concat(a, b.drop_last(), c);
        assert((a + b).drop_last() =~= a + b.drop_last());
        assert((a + b).last() == b.last());
        match handle_key(b.last()) {
            Some(k) => {
                assert(keyed(a, c) + keyed(b.drop_last(), c).push((k, c)) =~= (keyed(a, c) + keyed(
                    b.drop_last(),
                    c,
                )).push((k, c)));
            },
            None => {},
        }
    }
}

} // verus!

verus! {

// ---------------------------------------------------------------------------
// Laws
// ---------------------------------------------------------------------------

proof fn lemma_digits_concat(a: Seq<char>, b: Seq<char>)
    ensures
        digits(a + b) == digits(a) + digits(b),
    decreases b.len(),
{
    if b.len() == 0 {
        assert(a + b =~= a);
        assert(digits(a) + digits(b) =~= digits(a));
    } else {
        lemma_digits_concat(a, b.drop_last());
        assert((a + b).drop_last() =~= a + b.drop_last());
        if is_digit(b.last()) {
            assert(digits(a) + digits(b.drop_last()).push(b.last()) =~= (digits(a) + digits(
                b.drop_last(),
            )).push(b.last()));
        }
    }
}

proof fn lemma_digits_trim_start(s: Seq<char>)
    ensures
        digits(trim_start(s)) == digits(s),
    decreases s.len(),
{
    if s.len() > 0 && crate::text::is_ws(s[0]) {
        lemma_digits_trim_start(s.drop_first());
        let h = seq![s[0]];
        assert(s =~= h + s.drop_first());
        lemma_digits_concat(h, s.drop_first());
        assert(h.drop_last() =~= Seq::<char>::empty());
        assert(digits(h.drop_last()) =~= Seq::<char>::empty());
        assert(digits(h) =~= Seq::<char>::empty());
        assert(digits(s) =~= digits(s.drop_first()));
    }
}

proof fn lemma_digits_trim_end(s: Seq<char>)
    ensures
        digits(trim_end(s)) == digits(s),
    decreases s.len(),
{
    if s.len() > 0 && crate::text::is_ws(s.last()) {
        lemma_digits_trim_end(s.drop_last());
    }
}

proof fn lemma_digits_trim(s: Seq<char>)
    ensures
        digits(trim(s)) == digits(s),
{
    lemma_digits_trim_start(s);
    lemma_digits_trim_end(trim_start(s));
}

proof fn lemma_has_char_trim_start(s: Seq<char>, c: char)
    ensures
        has_char(trim_start(s), c) ==> has_char(s, c),
    decreases s.len(),
{
    if s.len() > 0 && crate::text::is_ws(s[0]) {
        lemma_has_char_trim_start(s.drop_first(), c);
        if has_char(s.drop_first(), c) {
            let i = choose|i: int| 0 <= i < s.drop_first().len() && s.drop_first()[i] == c;
            assert(s[i + 1] == c);
        }
    }
}

proof fn lemma_has_char_trim_end(s: Seq<char>, c: char)
    ensures
        has_char(trim_end(s), c) ==> has_char(s, c),
    decreases s.len(),
{
    if s.len() > 0 && crate::text::is_ws(s.last()) {
        lemma_has_char_trim_end(s.drop_last(), c);
        if has_char(s.drop_last(), c) {
            let i = choose|i: int| 0 <= i < s.drop_last().len() && s.drop_last()[i] == c;
            assert(s[i] == c);
        }
    }
}

proof fn lemma_has_char_trim(s: Seq<char>, c: char)
    ensures
        has_char(trim(s), c) ==> has_char(s, c),
{
    lemma_has_char_trim_start(s, c);
    lemma_has_char_trim_end(trim_start(s), c);
}

proof fn lemma_trim_start_clean(s: Seq<char>)
    ensures
        trim_start(s).len() > 0 ==> !crate::text::is_ws(trim_start(s)[0]),
    decreases s.len(),
{
    if s.len() > 0 && crate::text::is_ws(s[0]) {
        lemma_trim_start_clean(s.drop_first());
    }
}

proof fn lemma_trim_end_clean(s: Seq<char>)
    ensures
        trim_end(s).len() > 0 ==> !crate::text::is_ws(trim_end(s).last()),
        trim_end(s).len() <= s.len(),
        trim_end(s) =~= s.subrange(0, trim_end(s).len() as int),
    decreases s.len(),
{
    if s.len() > 0 && crate::text::is_ws(s.last()) {
        lemma_trim_end_clean(s.drop_last());
        let n = trim_end(s).len() as int;
        assert(s.drop_last().subrange(0, n) =~= s.subrange(0, n));
    } else {
        assert(s.subrange(0, s.len() as int) =~= s);
    }
}

/// Trimming twice is trimming once.
proof fn lemma_trim_idempotent(s: Seq<char>)
    ensures
        trim(trim(s)) == trim(s),
{
    let y = trim_start(s);
    let x = trim_end(y);
    lemma_trim_start_clean(s);
    lemma_trim_end_clean(y);
    if x.len() > 0 {
        assert(x[0] == y.subrange(0, x.len() as int)[0]);
        assert(x[0] == y[0]);
        assert(trim_start(x) == x);
        assert(trim_end(x) == x);
    } else {
        assert(trim_start(x) == x);
        assert(trim_end(x) == x);
    }
}

/// The handle key, case by case: none for a blank handle; for a handle whose
/// trimmed text holds `@`, `e:` and its normalized email; otherwise `p:` and
/// its normalized phone number (none when it has no digits). The email and
/// phone normalizations are those of the handle itself, so trimming first
/// changes neither.
pub proof fn lemma_handle_key_cases(h: Seq<char>)
    ensures
        trim(h).len() == 0 ==> handle_key(h) is None,
        trim(h).len() > 0 && has_char(trim(h), '@') ==> handle_key(h) == (match email_key(h) {
            Some(e) => Some("e:"@ + e),
            None => None::<Seq<char>>,
        }),
        trim(h).len() > 0 && !has_char(trim(h), '@') ==> handle_key(h) == (match phone_key(h) {
            Some(p) => Some("p:"@ + p),
            None => None::<Seq<char>>,
        }),
{
    lemma_trim_idempotent(h);
    lemma_digits_trim(h);
    assert(email_key(trim(h)) == email_key(h));
    assert(phone_key(trim(h)) == phone_key(h));
}

/// Phone handles match across formatting: two handles without an `@` whose
/// phone keys agree (the same digits, or the same trailing ten digits) get
/// the same lookup key, so "+1 (555) 123-4567", "1-555-123-4567" and
/// "5551234567" all find the same contact.
pub proof fn lemma_phone_key_stable(a: Seq<char>, b: Seq<char>)
    requires
        !has_char(a, '@'),
        !has_char(b, '@'),
        phone_key(a) is Some,
        phone_key(a) == phone_key(b),
    ensures
        handle_key(a) is Some,
        handle_key(a) == handle_key(b),
{
    lemma_digits_trim(a);
    lemma_digits_trim(b);
    lemma_has_char_trim(a, '@');
    lemma_has_char_trim(b, '@');
    assert(phone_key(trim(a)) == phone_key(a));
    assert(phone_key(trim(b)) == phone_key(b));
    if trim(a).len() == 0 {
        assert(digits(trim(a)) =~= Seq::<char>::empty());
    }
    if trim(b).len() == 0 {
        assert(digits(trim(b)) =~= Seq::<char>::empty());
    }
}

/// Emails and phones live in disjoint key spaces: a handle with an `@` and one
/// without never share a key, even when the email's text looks like the phone
/// number.
pub proof fn lemma_email_phone_keys_disjoint(a: Seq<char>, b: Seq<char>)
    requires
        has_char(trim(a), '@'),
        !has_char(trim(b), '@'),
        handle_key(a) is Some,
        handle_key(b) is Some,
    ensures
        handle_key(a) != handle_key(b),
{
    reveal_strlit("e:");
    reveal_strlit("p:");
    let ka = handle_key(a)->Some_0;
    let kb = handle_key(b)->Some_0;
    assert(ka[0] == 'e');
    assert(kb[0] == 'p');
}

proof fn lemma_lookup_concat(a: Seq<(Seq<char>, ContactView)>, b: Seq<(Seq<char>, ContactView)>, k: Seq<char>)
    ensures
        entries_lookup(a + b, k) == (if entries_lookup(b, k) is Some {
            entries_lookup(b, k)
        } else {
            entries_lookup(a, k)
        }),
    decreases b.len(),
{
    if b.len() == 0 {
        assert(a + b =~= a);
    } else {
        assert((a + b).drop_last() =~= a + b.drop_last());
        assert((a + b).last() == b.last());
        lemma_lookup_concat(a, b.drop_last(), k);
    }
}

proof fn lemma_keyed_finds(hs: Seq<Seq<char>>, c: ContactView, k: Seq<char>)
    requires
        exists|i: int| 0 <= i < hs.len() && handle_key(#[trigger] hs[i]) == Some(k),
    ensures
        entries_lookup(keyed(hs, c), k) == Some(c),
    decreases hs.len(),
{
    if handle_key(hs.last()) == Some(k) {
    } else {
        let i = choose|i: int| 0 <= i < hs.len() && handle_key(#[trigger] hs[i]) == Some(k);
        assert(hs.drop_last()[i] == hs[i]);
        lemma_keyed_finds(hs.drop_last(), c, k);
        match handle_key(hs.last()) {
            Some(k2) => {
                assert(keyed(hs, c).drop_last() == keyed(hs.drop_last(), c));
            },
            None => {},
        }
    }
}

/// Matching across formatting, as the index answers it: after building from a
/// list of cards, a handle resolves to the last card that lists a phone or
/// email with the same lookup key (a later card wins a collision).
pub proof fn lemma_build_then_lookup(records: Seq<RecordView>, handle: Seq<char>)
    requires
        records.len() > 0,
        handle_key(handle) is Some,
        exists|i: int|
            0 <= i < (records.last().phones + records.last().emails).len() && handle_key(
                #[trigger] (records.last().phones + records.last().emails)[i],
            ) == handle_key(handle),
    ensures
        handle_lookup(build_entries(records), handle) == Some(
            (records.last().display_name, records.last().avatar),
        ),
{
    let last = records.last();
    let k = handle_key(handle)->Some_0;
    lemma_keyed_finds(last.phones + last.emails, (last.display_name, last.avatar), k);
    lemma_lookup_concat(build_entries(records.drop_last()), record_entries(last), k);
}

} // verus!
