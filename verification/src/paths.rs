//! Paths and the clock: joining path components, and the well-known
//! directories and the current time, which come from the environment.

use vstd::prelude::*;
use crate::text::{concat2, push_char};

verus! {

broadcast use vstd::string::group_string_axioms;

/// `base` joined with `comp` as `PathBuf::push` joins them on Unix: an
/// absolute component replaces the base; otherwise a `/` separates the two
/// unless the base is empty or already ends with one.
pub open spec fn join_path(base: Seq<char>, comp: Seq<char>) -> Seq<char> {
    if comp.len() > 0 && comp[0] == '/' {
        comp
    } else if base.len() == 0 || base.last() == '/' {
        base + comp
    } else {
        base + seq!['/'] + comp
    }
}

/// A piece of a path between slashes, as a component: none when empty or
/// `.`.
pub open spec fn kept_piece(piece: Seq<char>) -> Seq<Seq<char>> {
    if piece.len() == 0 || piece == "."@ {
        Seq::empty()
    } else {
        seq![piece]
    }
}

/// The pieces of `p` from character `i`, `piece` being the part of the
/// current piece read so far, with empty and `.` pieces left out.
pub open spec fn path_pieces(p: Seq<char>, i: int, piece: Seq<char>) -> Seq<Seq<char>>
    decreases p.len() - i,
{
    if i < 0 || i >= p.len() {
        kept_piece(piece)
    } else if p[i] == '/' {
        kept_piece(piece) + path_pieces(p, i + 1, Seq::empty())
    } else {
        path_pieces(p, i + 1, piece.push(p[i]))
    }
}

/// The components of a Unix path as `Path::components` yields them, each as
/// text: `/` for a leading root; `.` when the path begins with a `.` piece
/// (and no root); then every piece between slashes, repeated slashes and
/// other `.` pieces normalized away (`..` stays).
pub open spec fn path_parts(p: Seq<char>) -> Seq<Seq<char>> {
    let root = if p.len() > 0 && p[0] == '/' { seq!["/"@] } else { Seq::empty() };
    let cur = if p.len() > 0 && p[0] == '.' && (p.len() == 1 || p[1] == '/') {
        seq!["."@]
    } else {
        Seq::empty()
    };
    root + cur + path_pieces(p, 0, Seq::empty())
}

/// The file name of a path as `Path::file_name` gives it: the final
/// component when it is a normal one (not the root, `.` or `..`).
pub open spec fn path_file_name_of(p: Seq<char>) -> Option<Seq<char>> {
    let parts = path_parts(p);
    if parts.len() == 0 {
        None
    } else {
        let last = parts.last();
        if last == "/"@ || last == "."@ || last == ".."@ {
            None
        } else {
            Some(last)
        }
    }
}

/// The position of the last `.` in `s` before position `i`, or -1.
pub open spec fn last_dot_before(s: Seq<char>, i: int) -> int
    decreases i,
{
    if i <= 0 || i > s.len() {
        -1
    } else if s[i - 1] == '.' {
        i - 1
    } else {
        last_dot_before(s, i - 1)
    }
}

/// The extension of a path as `Path::extension` gives it: none without a
/// file name, none when the file name has no `.` or only a leading one,
/// otherwise what follows the final `.`.
pub open spec fn path_extension_of(p: Seq<char>) -> Option<Seq<char>> {
    match path_file_name_of(p) {
        None => None,
        Some(name) => {
            let k = last_dot_before(name, name.len() as int);
            if k <= 0 {
                None
            } else {
                Some(name.subrange(k + 1, name.len() as int))
            }
        },
    }
}

/// Whether `path` lies under `base` as `Path::starts_with` decides: the
/// components of `base` are a prefix of the components of `path`.
pub open spec fn path_has_prefix(path: Seq<char>, base: Seq<char>) -> bool {
    let a = path_parts(path);
    let b = path_parts(base);
    b.len() <= a.len() && a.take(b.len() as int) == b
}

/// Joins a path component onto a base path.
pub fn path_join(base: &str, comp: &str) -> (r: String)
    ensures
        r@ == join_path(base@, comp@),
{
    let absolute = comp.unicode_len() > 0 && comp.get_char(0) == '/';
    if absolute {
        return String::from_str(comp);
    }
    let n = base.unicode_len();
    if n == 0 || base.get_char(n - 1) == '/' {
        concat2(base, comp)
    } else {
        let mut s = String::from_str(base);
        push_char(&mut s, '/');
        s.append(comp);
        s
    }
}

/// The user's local data directory (`dirs::data_local_dir`), as a string.
///
/// Trusted, with nothing stated: the directory comes from the environment.
#[verifier::external_body]
pub(crate) fn data_local_dir() -> (r: Option<String>)
{
    match dirs::data_local_dir() {
        Some(p) => Some(p.to_string_lossy().into_owned()),
        None => None,
    }
}

/// The user's configuration directory (`dirs::config_dir`), as a string.
///
/// Trusted, with nothing stated: the directory comes from the environment.
#[verifier::external_body]
pub(crate) fn config_dir() -> (r: Option<String>)
{
    match dirs::config_dir() {
        Some(p) => Some(p.to_string_lossy().into_owned()),
        None => None,
    }
}

/// The user's home directory (`dirs::home_dir`), as a string.
///
/// Trusted, with nothing stated: the directory comes from the environment.
#[verifier::external_body]
pub(crate) fn home_dir() -> (r: Option<String>)
{
    match dirs::home_dir() {
        Some(p) => Some(p.to_string_lossy().into_owned()),
        None => None,
    }
}

/// Seconds since the Unix epoch (`SystemTime::now().duration_since`), or
/// `None` when the clock stands before the epoch.
///
/// Trusted, with nothing stated: the value depends on the clock.
#[verifier::external_body]
fn epoch_secs() -> (r: Option<u64>)
{
    match std::time::SystemTime::now().duration_since(std::time::UNIX_EPOCH) {
        Ok(d) => Some(d.as_secs()),
        Err(_) => None,
    }
}

/// Seconds since the Unix epoch; 0 when the clock stands before it.
pub fn now_secs() -> (r: u64)
{
    match epoch_secs() {
        Some(s) => s,
        None => 0,
    }
}

} // verus!
