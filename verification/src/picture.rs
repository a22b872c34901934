//! Profile pictures: where each mode's picture lives, and the emoji shown
//! when there is none. Decoding and drawing an image is the caller's part.

use vstd::prelude::*;
use crate::paths::{config_dir, join_path, path_join};
use crate::profile::Mode;

verus! {

broadcast use vstd::string::group_string_axioms;

/// Profile picture configuration.
#[derive(Debug, Clone)]
pub struct ProfilePicture {
    /// The image file.
    pub path: String,
    /// Width in terminal columns (0 = automatic).
    pub width: u32,
    /// Height in terminal rows (0 = automatic).
    pub height: u32,
}

/// The picture file name of a mode.
pub open spec fn picture_file_name(mode: Mode) -> Seq<char> {
    match mode {
        Mode::Kids => "profile_kids.png"@,
        Mode::Agent => "profile_agent.png"@,
        Mode::Admin => "profile_admin.png"@,
    }
}

/// `base/omnishell/pictures/<file of mode>`.
pub open spec fn picture_path_under(base: Seq<char>, mode: Mode) -> Seq<char> {
    join_path(join_path(join_path(base, "omnishell"@), "pictures"@), picture_file_name(mode))
}

/// The emoji of a mode.
pub open spec fn mode_emoji(mode: Mode) -> Seq<char> {
    match mode {
        Mode::Kids => "🧒"@,
        Mode::Agent => "🤖"@,
        Mode::Admin => "⚡"@,
    }
}

/// Whether a file exists at `path` (`Path::exists`).
///
/// Trusted, with nothing stated: the answer depends on the file system.
#[verifier::external_body]
fn path_exists(path: &str) -> (r: bool)
{
    std::path::Path::new(path).exists()
}

impl ProfilePicture {
    /// A picture at `path`, sized automatically.
    pub fn new(path: &str) -> (r: Self)
        ensures
            r.path@ == path@,
            r.width == 0,
            r.height == 0,
    {
        ProfilePicture { path: String::from_str(path), width: 0, height: 0 }
    }

    /// A picture at `path` with explicit dimensions.
    pub fn with_size(path: &str, width: u32, height: u32) -> (r: Self)
        ensures
            r.path@ == path@,
            r.width == width,
            r.height == height,
    {
        ProfilePicture { path: String::from_str(path), width, height }
    }

    /// The default picture of a mode: `omnishell/pictures/profile_<mode>.png`
    /// under the configuration directory, or under `/tmp` when there is none.
    pub fn default_path(mode: Mode) -> (r: String)
        ensures
            exists|base: Seq<char>| r@ == picture_path_under(base, mode),
    {
        let base = match config_dir() {
            Some(d) => d,
            None => String::from_str("/tmp"),
        };
        let a = path_join(base.as_str(), "omnishell");
        let b = path_join(a.as_str(), "pictures");
        let file = match mode {
            Mode::Kids => "profile_kids.png",
            Mode::Agent => "profile_agent.png",
            Mode::Admin => "profile_admin.png",
        };
        let r = path_join(b.as_str(), file);
        assert(r@ == picture_path_under(base@, mode));
        r
    }

    /// Whether the picture file exists.
    pub fn file_exists(&self) -> (r: bool)
    {
        path_exists(self.path.as_str())
    }

    /// The emoji shown for a mode without a picture.
    pub fn fallback_emoji(mode: Mode) -> (r: &'static str)
        ensures
            r@ == mode_emoji(mode),
    {
        match mode {
            Mode::Kids => "🧒",
            Mode::Agent => "🤖",
            Mode::Admin => "⚡",
        }
    }
}

} // verus!
