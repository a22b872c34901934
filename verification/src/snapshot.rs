//! Snapshot tracking: which commands are mutating, the commit messages of the
//! snapshots taken around them, and the in-memory history of snapshots.
//! Writing the commits themselves is the caller's part: it hands back the
//! commit id, if one was made.

use vstd::prelude::*;
use crate::error::OmniShellError;
use crate::paths::now_secs;
use crate::text::{concat2, i64_to_string, int_decimal, lowercase_of, seq_starts_with, str_eq, str_starts_with, to_lowercase, trim, trim_str};

verus! {

broadcast use vstd::string::group_string_axioms;

/// Whether a snapshot was taken before or after a command ran.
#[derive(Debug, Clone, Copy, PartialEq, Eq, Structural)]
pub enum SnapshotPhase {
    PreExecution,
    PostExecution,
}

/// Metadata for a single snapshot.
#[derive(Debug)]
pub struct Snapshot {
    /// The id of the commit written for it, if one was.
    pub commit_id: Option<String>,
    /// When the snapshot was taken (epoch seconds).
    pub timestamp: u64,
    /// The command that triggered it.
    pub trigger_command: String,
    /// Before or after the command.
    pub phase: SnapshotPhase,
    /// Exit code (post-execution snapshots only).
    pub exit_code: Option<i32>,
}

/// The value of a snapshot.
pub struct SnapshotView {
    pub commit_id: Option<Seq<char>>,
    pub timestamp: u64,
    pub trigger_command: Seq<char>,
    pub phase: SnapshotPhase,
    pub exit_code: Option<i32>,
}

impl View for Snapshot {
    type V = SnapshotView;

    open spec fn view(&self) -> SnapshotView {
        SnapshotView {
            commit_id: match self.commit_id {
                Some(c) => Some(c@),
                None => None,
            },
            timestamp: self.timestamp,
            trigger_command: self.trigger_command@,
            phase: self.phase,
            exit_code: self.exit_code,
        }
    }
}

/// The views of a sequence of snapshots.
pub open spec fn snapshot_views(s: Seq<Snapshot>) -> Seq<SnapshotView> {
    s.map_values(|x: Snapshot| x@)
}

impl Snapshot {
    /// A copy of this snapshot.
    pub fn duplicate(&self) -> (r: Snapshot)
        ensures
            r@ == self@,
    {
        Snapshot {
            commit_id: match &self.commit_id {
                Some(c) => Some(c.clone()),
                None => None,
            },
            timestamp: self.timestamp,
            trigger_command: self.trigger_command.clone(),
            phase: self.phase,
            exit_code: self.exit_code,
        }
    }
}

/// Where snapshot commits are stored.
#[derive(Debug, Clone, Copy, PartialEq, Eq, Structural)]
pub enum SnapshotTarget {
    /// A dedicated ref.
    DedicatedRef,
    /// The current branch.
    CurrentBranch,
    /// A detached branch per snapshot.
    Detached,
}

/// Retention policy for snapshots.
#[derive(Debug, Clone, Copy, PartialEq, Eq, Structural)]
pub enum SnapshotRetention {
    /// Keep all snapshots.
    Unlimited,
    /// Keep only the last N snapshots.
    Count(usize),
    /// Keep snapshots newer than the given number of seconds.
    TimeBased(u64),
}

/// When to take a post-execution snapshot.
#[derive(Debug, Clone, Copy, PartialEq, Eq, Structural)]
pub enum SnapshotTrigger {
    /// After every mutating command.
    Always,
    /// Only when the working tree changed.
    OnTreeChange,
}

impl Default for SnapshotTarget {
    fn default() -> (r: Self)
        ensures
            r == SnapshotTarget::DedicatedRef,
    {
        SnapshotTarget::DedicatedRef
    }
}

impl Default for SnapshotRetention {
    fn default() -> (r: Self)
        ensures
            r == SnapshotRetention::Unlimited,
    {
        SnapshotRetention::Unlimited
    }
}

impl Default for SnapshotTrigger {
    fn default() -> (r: Self)
        ensures
            r == SnapshotTrigger::Always,
    {
        SnapshotTrigger::Always
    }
}

/// Configuration of snapshots.
#[derive(Debug, Clone)]
pub struct SnapshotConfig {
    /// Where commits are stored.
    pub target: SnapshotTarget,
    /// Retention policy.
    pub retention: SnapshotRetention,
    /// When post-execution snapshots are taken.
    pub trigger: SnapshotTrigger,
    /// The ref of the dedicated target.
    pub ref_name: String,
}

/// The ref that snapshot commits go to.
pub open spec fn snapshot_ref() -> Seq<char> {
    "refs/heads/omnishell-snapshots"@
}

impl SnapshotConfig {
    /// The default configuration, committing to the dedicated snapshot ref.
    pub fn new() -> (r: Self)
        ensures
            r.target == SnapshotTarget::DedicatedRef,
            r.retention == SnapshotRetention::Unlimited,
            r.trigger == SnapshotTrigger::Always,
            r.ref_name@ == snapshot_ref(),
    {
        SnapshotConfig {
            target: SnapshotTarget::DedicatedRef,
            retention: SnapshotRetention::Unlimited,
            trigger: SnapshotTrigger::Always,
            ref_name: String::from_str("refs/heads/omnishell-snapshots"),
        }
    }
}

impl Default for SnapshotConfig {
    /// As `SnapshotConfig::new`, but with an empty ref name.
    fn default() -> (r: Self)
        ensures
            r.target == SnapshotTarget::DedicatedRef,
            r.retention == SnapshotRetention::Unlimited,
            r.trigger == SnapshotTrigger::Always,
            r.ref_name@.len() == 0,
    {
        SnapshotConfig {
            target: SnapshotTarget::DedicatedRef,
            retention: SnapshotRetention::Unlimited,
            trigger: SnapshotTrigger::Always,
            ref_name: String::new(),
        }
    }
}

/// The command words (and `git` subcommands) that change files.
pub open spec fn mutating_prefixes() -> Seq<Seq<char>> {
    seq![
        "rm"@, "mv"@, "cp"@, "mkdir"@, "touch"@, "chmod"@, "chown"@, "cargo"@, "pip"@, "npm"@,
        "yarn"@, "go"@, "make"@, "git push"@, "git commit"@, "git merge"@, "git rebase"@,
        "git reset"@, "dd"@, "truncate"@, "shred"@,
    ]
}

/// Whether a lower-cased command is one of the prefixes, or starts with one
/// followed by a space.
pub open spec fn has_mutating_prefix(cmd: Seq<char>) -> bool {
    exists|i: int| 0 <= i < mutating_prefixes().len()
        && (cmd == #[trigger] mutating_prefixes()[i] || seq_starts_with(cmd, mutating_prefixes()[i] + seq![' ']))
}

/// Whether a command triggers snapshots: its trimmed, lower-cased text is a
/// mutating command.
pub open spec fn is_mutating(command: Seq<char>) -> bool {
    has_mutating_prefix(lowercase_of(trim(command)))
}

fn mutating_prefix_list() -> (r: Vec<&'static str>)
    ensures
        r@.map_values(|s: &str| s@) == mutating_prefixes(),
{
    let r: Vec<&'static str> = vec![
        "rm", "mv", "cp", "mkdir", "touch", "chmod", "chown", "cargo", "pip", "npm", "yarn", "go",
        "make", "git push", "git commit", "git merge", "git rebase", "git reset", "dd", "truncate",
        "shred",
    ];
    assert(r@.map_values(|s: &str| s@) =~= mutating_prefixes());
    r
}

/// The commit message of a pre-execution snapshot.
pub open spec fn pre_message(command: Seq<char>) -> Seq<char> {
    "omnishell: PRE | "@ + command
}

/// The commit message of a post-execution snapshot.
pub open spec fn post_message(command: Seq<char>, exit_code: i32) -> Seq<char> {
    "omnishell: POST | "@ + command + " | exit="@ + int_decimal(exit_code as int)
}

/// The state of a snapshot engine.
pub struct EngineView {
    pub has_repo: bool,
    pub history: Seq<SnapshotView>,
}

/// Snapshot tracking for a working directory.
pub struct SnapshotEngine {
    has_repo: bool,
    history: Vec<Snapshot>,
    config: SnapshotConfig,
}

impl View for SnapshotEngine {
    type V = EngineView;

    closed spec fn view(&self) -> EngineView {
        EngineView { has_repo: self.has_repo, history: snapshot_views(self.history@) }
    }
}

impl SnapshotEngine {
    /// The configuration is the default one, from construction on.
    #[verifier::type_invariant]
    spec fn config_is_default(&self) -> bool {
        &&& self.config.target == SnapshotTarget::DedicatedRef
        &&& self.config.retention == SnapshotRetention::Unlimited
        &&& self.config.trigger == SnapshotTrigger::Always
        &&& self.config.ref_name@ == snapshot_ref()
    }

    /// An engine with an empty history, for a working directory that is a git
    /// repository or not. Without one, it only tracks.
    pub fn new(has_repo: bool) -> (r: Self)
        ensures
            r@.has_repo == has_repo,
            r@.history.len() == 0,
    {
        SnapshotEngine { has_repo, history: Vec::new(), config: SnapshotConfig::new() }
    }

    /// Whether the working directory is a git repository.
    pub fn has_repo(&self) -> (r: bool)
        ensures
            r == self@.has_repo,
    {
        self.has_repo
    }

    /// The configuration.
    pub fn config(&self) -> (r: &SnapshotConfig)
        ensures
            r.target == SnapshotTarget::DedicatedRef,
            r.retention == SnapshotRetention::Unlimited,
            r.trigger == SnapshotTrigger::Always,
            r.ref_name@ == snapshot_ref(),
    {
        proof {
            use_type_invariant(self);
        }
        &self.config
    }

    /// Whether a command should trigger a snapshot: after trimming and
    /// lower-casing, it is one of the mutating commands or starts with one
    /// followed by a space.
    pub fn is_mutating_command(command: &str) -> (r: bool)
        ensures
            r == is_mutating(command@),
    {
        let trimmed = trim_str(command);
        let lower = to_lowercase(trimmed.as_str());
        let prefixes = mutating_prefix_list();
        let ghost ps = prefixes@.map_values(|s: &str| s@);
        let mut i: usize = 0;
        while i < prefixes.len()
            invariant
                i <= prefixes.len(),
                ps == prefixes@.map_values(|s: &str| s@),
                ps == mutating_prefixes(),
                lower@ == lowercase_of(trim(command@)),
                forall|k: int| 0 <= k < i ==> !(lower@ == #[trigger] ps[k] || seq_starts_with(lower@, ps[k] + seq![' '])),
            decreases prefixes.len() - i,
        {
            let p = prefixes[i];
            assert(ps[i as int] == p@);
            let spaced = concat2(p, " ");
            proof {
                reveal_strlit(" ");
                assert(spaced@ == ps[i as int] + seq![' ']);
            }
            if str_eq(lower.as_str(), p) || str_starts_with(lower.as_str(), spaced.as_str()) {
                assert(lower@ == ps[i as int] || seq_starts_with(lower@, ps[i as int] + seq![' ']));
                return true;
            }
            i += 1;
        }
        false
    }

    /// The commit message of the snapshot taken before `command` runs.
    pub fn pre_commit_message(command: &str) -> (r: String)
        ensures
            r@ == pre_message(command@),
    {
        concat2("omnishell: PRE | ", command)
    }

    /// The commit message of the snapshot taken after `command` exited with
    /// `exit_code`.
    pub fn post_commit_message(command: &str, exit_code: i32) -> (r: String)
        ensures
            r@ == post_message(command@, exit_code),
    {
        let head = concat2("omnishell: POST | ", command);
        let with_exit = concat2(head.as_str(), " | exit=");
        let code = i64_to_string(exit_code as i64);
        concat2(with_exit.as_str(), code.as_str())
    }

    /// Records the snapshot taken before `command` runs, with the id of the
    /// commit written for it (kept only when there is a repository).
    pub fn pre_execution_snapshot(&mut self, command: &str, commit_id: Option<String>) -> (r: Result<Snapshot, OmniShellError>)
        ensures
            final(self)@.has_repo == old(self)@.has_repo,
            match r {
                Ok(s) => {
                    &&& s@.commit_id == (if old(self)@.has_repo { match commit_id { Some(c) => Some(c@), None => None } } else { None })
                    &&& s@.trigger_command == command@
                    &&& s@.phase == SnapshotPhase::PreExecution
                    &&& s@.exit_code is None
                    &&& final(self)@.history == old(self)@.history.push(s@)
                },
                Err(_) => false,
            },
    {
        let commit_id = if self.has_repo { commit_id } else { None };
        let snapshot = Snapshot {
            commit_id,
            timestamp: now_secs(),
            trigger_command: String::from_str(command),
            phase: SnapshotPhase::PreExecution,
            exit_code: None,
        };
        let kept = snapshot.duplicate();
        proof {
            use_type_invariant(&*self);
        }
        let mut history: Vec<Snapshot> = Vec::new();
        std::mem::swap(&mut history, &mut self.history);
        history.push(kept);
        self.history = history;
        assert(snapshot_views(self.history@) =~= snapshot_views(old(self).history@).push(snapshot@));
        Ok(snapshot)
    }

    /// Records the snapshot taken after `command` exited with `exit_code`,
    /// with the id of the commit written for it (kept only when there is a
    /// repository).
    pub fn post_execution_snapshot(&mut self, command: &str, exit_code: i32, commit_id: Option<String>) -> (r: Result<Snapshot, OmniShellError>)
        ensures
            final(self)@.has_repo == old(self)@.has_repo,
            match r {
                Ok(s) => {
                    &&& s@.commit_id == (if old(self)@.has_repo { match commit_id { Some(c) => Some(c@), None => None } } else { None })
                    &&& s@.trigger_command == command@
                    &&& s@.phase == SnapshotPhase::PostExecution
                    &&& s@.exit_code == Some(exit_code)
                    &&& final(self)@.history == old(self)@.history.push(s@)
                },
                Err(_) => false,
            },
    {
        let commit_id = if self.has_repo { commit_id } else { None };
        let snapshot = Snapshot {
            commit_id,
            timestamp: now_secs(),
            trigger_command: String::from_str(command),
            phase: SnapshotPhase::PostExecution,
            exit_code: Some(exit_code),
        };
        let kept = snapshot.duplicate();
        proof {
            use_type_invariant(&*self);
        }
        let mut history: Vec<Snapshot> = Vec::new();
        std::mem::swap(&mut history, &mut self.history);
        history.push(kept);
        self.history = history;
        assert(snapshot_views(self.history@) =~= snapshot_views(old(self).history@).push(snapshot@));
        Ok(snapshot)
    }

    /// The snapshots taken so far, oldest first.
    pub fn history(&self) -> (r: &[Snapshot])
        ensures
            snapshot_views(r@) == self@.history,
    {
        self.history.as_slice()
    }

    /// The most recent snapshot.
    pub fn last_snapshot(&self) -> (r: Option<&Snapshot>)
        ensures
            match r {
                Some(s) => self@.history.len() > 0 && s@ == self@.history.last(),
                None => self@.history.len() == 0,
            },
    {
        let n = self.history.len();
        if n == 0 {
            None
        } else {
            Some(&self.history[n - 1])
        }
    }
}

/// Each file-changing command, alone or followed by a space and its
/// arguments, triggers snapshots: `rm`, `mv`, `cp`, `mkdir`, `touch`,
/// `chmod`, `chown`, `cargo`, `pip`, `npm`, `yarn`, `go`, `make`, `git push`,
/// `git commit`, `git merge`, `git rebase`, `git reset`, `dd`, `truncate` and
/// `shred` (after trimming and lower-casing the command).
pub proof fn law_file_changing_commands_are_mutating(command: Seq<char>, w: Seq<char>, rest: Seq<char>)
    requires
        w == "rm"@ || w == "mv"@ || w == "cp"@ || w == "mkdir"@ || w == "touch"@ || w == "chmod"@ ||
            w == "chown"@ || w == "cargo"@ || w == "pip"@ || w == "npm"@ || w == "yarn"@ || w == "go"@ ||
            w == "make"@ || w == "git push"@ || w == "git commit"@ || w == "git merge"@ ||
            w == "git rebase"@ || w == "git reset"@ || w == "dd"@ || w == "truncate"@ || w == "shred"@,
        lowercase_of(trim(command)) == w || lowercase_of(trim(command)) == w + seq![' '] + rest,
    ensures
        is_mutating(command),
{
    let lc = lowercase_of(trim(command));
    if w == "rm"@ {
        assert(mutating_prefixes()[0] == w);
    } else if w == "mv"@ {
        assert(mutating_prefixes()[1] == w);
    } else if w == "cp"@ {
        assert(mutating_prefixes()[2] == w);
    } else if w == "mkdir"@ {
        assert(mutating_prefixes()[3] == w);
    } else if w == "touch"@ {
        assert(mutating_prefixes()[4] == w);
    } else if w == "chmod"@ {
        assert(mutating_prefixes()[5] == w);
    } else if w == "chown"@ {
        assert(mutating_prefixes()[6] == w);
    } else if w == "cargo"@ {
        assert(mutating_prefixes()[7] == w);
    } else if w == "pip"@ {
        assert(mutating_prefixes()[8] == w);
    } else if w == "npm"@ {
        assert(mutating_prefixes()[9] == w);
    } else if w == "yarn"@ {
        assert(mutating_prefixes()[10] == w);
    } else if w == "go"@ {
        assert(mutating_prefixes()[11] == w);
    } else if w == "make"@ {
        assert(mutating_prefixes()[12] == w);
    } else if w == "git push"@ {
        assert(mutating_prefixes()[13] == w);
    } else if w == "git commit"@ {
        assert(mutating_prefixes()[14] == w);
    } else if w == "git merge"@ {
        assert(mutating_prefixes()[15] == w);
    } else if w == "git rebase"@ {
        assert(mutating_prefixes()[16] == w);
    } else if w == "git reset"@ {
        assert(mutating_prefixes()[17] == w);
    } else if w == "dd"@ {
        assert(mutating_prefixes()[18] == w);
    } else if w == "truncate"@ {
        assert(mutating_prefixes()[19] == w);
    } else if w == "shred"@ {
        assert(mutating_prefixes()[20] == w);
    }
    let k = choose|k: int| 0 <= k < mutating_prefixes().len() && mutating_prefixes()[k] == w;
    if lc != w {
        assert(lc.subrange(0, (w + seq![' ']).len() as int) =~= w + seq![' ']);
        assert(seq_starts_with(lc, mutating_prefixes()[k] + seq![' ']));
    }
}

} // verus!
