//! Path strings: joining, final components, and the locations derived from a
//! database path or a home directory (Unix conventions, `/` separators).

use vstd::prelude::*;
use crate::contacts::opt_view;
use crate::text::{chars_of, push_chars, push_str, string_from_chars, slice_chars, starts_with, starts_with_chars, chars_eq_str};

verus! {

/// `PathBuf::push` / `Path::join` on Unix: an absolute `rel` (starting with
/// `/`) replaces `base`; otherwise `rel` is appended, with a `/` in between
/// when `base` is non-empty and does not already end in one.
pub open spec fn join_spec(base: Seq<char>, rel: Seq<char>) -> Seq<char> {
    if rel.len() > 0 && rel[0] == '/' {
        rel
    } else if base.len() > 0 && base.last() != '/' {
        base.push('/') + rel
    } else {
        base + rel
    }
}

/// `Path::join` on Unix.
pub fn join(base: &str, rel: &str) -> (r: String)
    ensures
        r@ == join_spec(base@, rel@),
{
    let b = chars_of(base);
    let r = chars_of(rel);
    if r.len() > 0 && r[0] == '/' {
        return string_from_chars(r.as_slice());
    }
    let mut out = b;
    if out.len() > 0 && out[out.len() - 1] != '/' {
        out.push('/');
    }
    push_chars(&mut out, r.as_slice());
    string_from_chars(out.as_slice())
}

/// The final component `Path::file_name` reports for `path` (`None` when the
/// path ends in `..`, is a root, or is empty).
pub uninterp spec fn path_file_name(path: Seq<char>) -> Option<Seq<char>>;

/// The path `Path::parent` reports for `path` (`None` for a root or the empty
/// path; `Some("")` for a single relative component).
pub uninterp spec fn path_parent(path: Seq<char>) -> Option<Seq<char>>;

/// `Path::file_name`, converted back to a string (lossless: the input is a
/// `str`).
#[verifier::external_body]
pub(crate) fn std_file_name(path: &str) -> (r: Option<String>)
    ensures
        opt_view(r) == path_file_name(path@),
{
    std::path::Path::new(path).file_name().map(|n| n.to_string_lossy().into_owned())
}

/// `Path::parent`, converted back to a string (lossless: the input is a
/// `str`).
#[verifier::external_body]
pub(crate) fn std_parent(path: &str) -> (r: Option<String>)
    ensures
        opt_view(r) == path_parent(path@),
{
    std::path::Path::new(path).parent().map(|p| p.to_string_lossy().into_owned())
}

/// The final path component, as a display filename.
pub fn basename(path: &str) -> (r: Option<String>)
    ensures
        opt_view(r) == path_file_name(path@),
{
    std_file_name(path)
}

/// The database path and its write-ahead-log and shared-memory sidecars
/// (`<name>-wal`, `<name>-shm` beside it); just the path when it has no file
/// name or no parent.
pub open spec fn sidecars_spec(db: Seq<char>) -> Seq<Seq<char>> {
    match (path_file_name(db), path_parent(db)) {
        (Some(name), Some(dir)) => seq![db, join_spec(dir, name + "-wal"@), join_spec(dir, name + "-shm"@)],
        _ => seq![db],
    }
}

/// A path plus its SQLite WAL sidecars, for callers that want to register
/// extra watch targets explicitly.
pub fn sidecar_paths(db: &str) -> (r: Vec<String>)
    ensures
        r@.map_values(|s: String| s@) == sidecars_spec(db@),
{
    let mut out: Vec<String> = Vec::new();
    out.push(string_from_chars(chars_of(db).as_slice()));
    match (std_file_name(db), std_parent(db)) {
        (Some(name), Some(dir)) => {
            let mut wal = chars_of(name.as_str());
            push_str(&mut wal, "-wal");
            let mut shm = chars_of(name.as_str());
            push_str(&mut shm, "-shm");
            let wal_s = string_from_chars(wal.as_slice());
            let shm_s = string_from_chars(shm.as_slice());
            out.push(join(dir.as_str(), wal_s.as_str()));
            out.push(join(dir.as_str(), shm_s.as_str()));
        },
        _ => {},
    }
    assert(out@.map_values(|s: String| s@) =~= sidecars_spec(db@));
    out
}

/// Expand a leading `~` against `home`: `~/rest` becomes `home` joined with
/// `rest`, a lone `~` becomes `home`, anything else is unchanged; with no known
/// home the path is left as it is.
pub open spec fn expand_tilde_spec(path: Seq<char>, home: Option<Seq<char>>) -> Seq<char> {
    match home {
        Some(h) => if path.len() >= 2 && path[0] == '~' && path[1] == '/' {
            join_spec(h, path.subrange(2, path.len() as int))
        } else if path == seq!['~'] {
            h
        } else {
            path
        },
        None => path,
    }
}

/// Expand a leading `~` (relative to `home`) into an absolute path. Leaves
/// already-absolute paths untouched, and leaves `~` paths as-is when `home` is
/// unknown (best effort).
pub fn expand_tilde(path: &str, home: Option<&str>) -> (r: String)
    ensures
        r@ == expand_tilde_spec(path@, match home {
            Some(h) => Some(h@),
            None => None,
        }),
{
    let p = chars_of(path);
    match home {
        Some(h) => {
            if p.len() >= 2 && p[0] == '~' && p[1] == '/' {
                let rest = string_from_chars(slice_chars(p.as_slice(), 2, p.len()).as_slice());
                join(h, rest.as_str())
            } else if p.len() == 1 && p[0] == '~' {
                assert(p@ =~= seq!['~']);
                string_from_chars(chars_of(h).as_slice())
            } else {
                proof {
                    if p@ == seq!['~'] {
                        assert(p@.len() == 1);
                    }
                }
                string_from_chars(p.as_slice())
            }
        },
        None => string_from_chars(p.as_slice()),
    }
}

/// The default source database: `Library/Messages/chat.db` under the home
/// directory (relative when the home is unknown).
pub fn default_chat_db_path(home: Option<&str>) -> (r: String)
    ensures
        r@ == join_spec(match home {
            Some(h) => h@,
            None => Seq::empty(),
        }, "Library/Messages/chat.db"@),
{
    let base = match home {
        Some(h) => h,
        None => "",
    };
    proof {
        reveal_strlit("");
    }
    join(base, "Library/Messages/chat.db")
}


/// Where the index lives under the platform data directory: the
/// `better-im` directory and the `index.db` file inside it.
pub fn index_location(data_dir: &str) -> (r: (String, String))
    ensures
        r.0@ == join_spec(data_dir@, "better-im"@),
        r.1@ == join_spec(join_spec(data_dir@, "better-im"@), "index.db"@),
{
    let dir = join(data_dir, "better-im");
    let file = join(dir.as_str(), "index.db");
    (dir, file)
}

} // verus!
