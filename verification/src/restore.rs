//! The bookkeeping of restoring the working tree to a snapshot: the relative
//! path of each tree entry, the set of paths the snapshot holds, which files
//! the prune pass deletes, and how errors are reported.

use vstd::prelude::*;
use crate::text::{concat2, join_strings, join_with, str_eq, u64_to_string, nat_digits, views};

verus! {

broadcast use vstd::string::group_string_axioms;

/// The relative path of the entry `name` of the tree at `prefix`.
pub open spec fn entry_path(prefix: Seq<char>, name: Seq<char>) -> Seq<char> {
    if prefix.len() == 0 { name } else { prefix + "/"@ + name }
}

/// The relative path of the entry `name` of the tree at `prefix`.
pub fn entry_rel_path(prefix: &str, name: &str) -> (r: String)
    ensures
        r@ == entry_path(prefix@, name@),
{
    if prefix.unicode_len() == 0 {
        String::from_str(name)
    } else {
        let a = concat2(prefix, "/");
        concat2(a.as_str(), name)
    }
}

/// The paths a snapshot's tree holds, each once.
pub struct TargetPaths {
    paths: Vec<String>,
}

impl View for TargetPaths {
    type V = Set<Seq<char>>;

    closed spec fn view(&self) -> Set<Seq<char>> {
        views(self.paths@).to_set()
    }
}

impl TargetPaths {
    /// No paths.
    pub fn new() -> (r: Self)
        ensures
            r@ == Set::<Seq<char>>::empty(),
    {
        let r = TargetPaths { paths: Vec::new() };
        assert(views(r.paths@) =~= Seq::<Seq<char>>::empty());
        assert(r@ =~= Set::<Seq<char>>::empty());
        r
    }

    /// Whether `path` is among the paths.
    pub fn contains(&self, path: &str) -> (r: bool)
        ensures
            r == self@.contains(path@),
    {
        let mut i: usize = 0;
        while i < self.paths.len()
            invariant
                i <= self.paths.len(),
                forall|k: int| 0 <= k < i ==> views(self.paths@)[k] != path@,
            decreases self.paths.len() - i,
        {
            assert(views(self.paths@)[i as int] == self.paths@[i as int]@);
            if str_eq(self.paths[i].as_str(), path) {
                assert(views(self.paths@).contains(path@));
                return true;
            }
            i += 1;
        }
        assert(!views(self.paths@).contains(path@));
        false
    }

    /// Adds `path`.
    pub fn insert(&mut self, path: String)
        ensures
            final(self)@ == old(self)@.insert(path@),
    {
        if !self.contains(path.as_str()) {
            let ghost before = views(self.paths@);
            let ghost p = path@;
            self.paths.push(path);
            proof {
                assert(views(self.paths@) =~= before.push(p));
                assert(views(self.paths@).to_set() =~= before.to_set().insert(p)) by {
                    assert forall|x: Seq<char>| views(self.paths@).to_set().contains(x) <==> before.to_set().insert(p).contains(x) by {
                        if x == p {
                            assert(views(self.paths@)[before.len() as int] == p);
                        } else if before.contains(x) {
                            let k = choose|k: int| 0 <= k < before.len() && before[k] == x;
                            assert(views(self.paths@)[k] == x);
                        }
                    }
                }
            }
        } else {
            assert(old(self)@.insert(path@) =~= old(self)@);
        }
    }
}

/// Whether the prune pass deletes the file at `rel` (its path relative to
/// the worktree, when it has one): only files the snapshot does not hold.
pub open spec fn prunes(rel: Option<Seq<char>>, targets: Set<Seq<char>>) -> bool {
    match rel {
        Some(p) => !targets.contains(p),
        None => false,
    }
}

/// Whether the prune pass deletes the file at `rel`.
pub fn should_prune(rel: Option<&str>, targets: &TargetPaths) -> (r: bool)
    ensures
        r == prunes(match rel {
            Some(p) => Some(p@),
            None => None,
        }, targets@),
{
    match rel {
        Some(p) => !targets.contains(p),
        None => false,
    }
}

/// Whether the walk of the worktree skips an entry: the git directory.
pub open spec fn skips_entry(name: Option<Seq<char>>) -> bool {
    name == Some(".git"@)
}

/// Whether the walk of the worktree skips the entry named `name`.
pub fn skip_entry(name: Option<&str>) -> (r: bool)
    ensures
        r == skips_entry(match name {
            Some(n) => Some(n@),
            None => None,
        }),
{
    match name {
        Some(n) => str_eq(n, ".git"),
        None => false,
    }
}

/// The report of a pass (`Restore` or `Prune`) that met errors:
/// `<pass> completed with <n> error(s): <errors joined by "; ">`.
pub open spec fn errors_text(pass: Seq<char>, errors: Seq<Seq<char>>) -> Seq<char> {
    pass + " completed with "@ + nat_digits(errors.len()) + " error(s): "@ + join_with(errors, "; "@)
}

/// The result of a pass: success without errors, else the report.
pub fn pass_result(pass: &str, errors: &Vec<String>) -> (r: Result<(), String>)
    ensures
        errors.len() == 0 ==> r is Ok,
        errors.len() > 0 ==> (r matches Err(m) && m@ == errors_text(pass@, views(errors@))),
{
    if errors.len() == 0 {
        return Ok(());
    }
    let count = u64_to_string(errors.len() as u64);
    let a = concat2(pass, " completed with ");
    let b = concat2(a.as_str(), count.as_str());
    let c = concat2(b.as_str(), " error(s): ");
    let joined = join_strings(errors, 0, "; ");
    proof {
        assert(errors@.subrange(0, errors@.len() as int) =~= errors@);
    }
    Err(concat2(c.as_str(), joined.as_str()))
}

} // verus!
