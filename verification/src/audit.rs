//! Audit entries of command executions, their builder, and where each
//! mode's audit log lives. Writing the log lines is the caller's part.

use vstd::prelude::*;
use crate::paths::{data_local_dir, join_path, now_secs, path_join};
use crate::profile::Mode;

verus! {

broadcast use vstd::string::group_string_axioms;

/// An audit log entry.
#[derive(Debug, Clone)]
pub struct AuditEntry {
    /// Timestamp (epoch seconds).
    pub timestamp: u64,
    /// The command.
    pub command: String,
    /// Exit code.
    pub exit_code: i32,
    /// ACL verdict text.
    pub acl_verdict: String,
    /// Profile mode at the time.
    pub mode: Mode,
    /// Working directory.
    pub working_dir: Option<String>,
    /// Duration in milliseconds.
    pub duration_ms: u64,
    /// Whether a snapshot was created.
    pub snapshot_created: bool,
    /// User.
    pub user: Option<String>,
}

/// Audit log configuration.
#[derive(Debug, Clone)]
pub struct AuditConfig {
    /// Whether audit logging is enabled.
    pub enabled: bool,
    /// Directory of the audit log files.
    pub log_dir: Option<String>,
    /// Maximum log file size in bytes.
    pub max_file_size: u64,
}

impl Default for AuditConfig {
    /// Enabled, in the default directory, 10 MiB per file.
    fn default() -> (r: Self)
        ensures
            r.enabled,
            r.log_dir is None,
            r.max_file_size == 10485760,
    {
        AuditConfig { enabled: true, log_dir: None, max_file_size: 10 * 1024 * 1024 }
    }
}

/// The audit log file name of a mode.
pub open spec fn audit_file_name(mode: Mode) -> Seq<char> {
    match mode {
        Mode::Kids => "audit_kids.jsonl"@,
        Mode::Agent => "audit_agent.jsonl"@,
        Mode::Admin => "audit_admin.jsonl"@,
    }
}

/// The default audit directory under a local data directory.
pub open spec fn audit_dir_under(base: Seq<char>) -> Seq<char> {
    join_path(join_path(base, "omnishell"@), "audit"@)
}

fn audit_file_of(mode: Mode) -> (r: &'static str)
    ensures
        r@ == audit_file_name(mode),
{
    match mode {
        Mode::Kids => "audit_kids.jsonl",
        Mode::Agent => "audit_agent.jsonl",
        Mode::Admin => "audit_admin.jsonl",
    }
}

/// The default audit directory: `omnishell/audit` under the local data
/// directory, or under `/tmp` when there is none.
fn default_audit_dir() -> (r: String)
    ensures
        exists|base: Seq<char>| r@ == audit_dir_under(base),
{
    let base = match data_local_dir() {
        Some(d) => d,
        None => String::from_str("/tmp"),
    };
    let dir = path_join(base.as_str(), "omnishell");
    let r = path_join(dir.as_str(), "audit");
    assert(r@ == audit_dir_under(base@));
    r
}

/// The audit logger of a mode.
pub struct AuditLogger {
    config: AuditConfig,
    log_path: String,
}

impl AuditLogger {
    /// The configuration.
    pub closed spec fn config(&self) -> AuditConfig {
        self.config
    }

    /// The log file.
    pub closed spec fn path(&self) -> Seq<char> {
        self.log_path@
    }

    /// A logger for a mode: its log file is `audit_<mode>.jsonl` in the
    /// configured directory, or in the default one.
    pub fn new(mode: Mode, config: AuditConfig) -> (r: Self)
        ensures
            r.config() == config,
            match config.log_dir {
                Some(d) => r.path() == join_path(d@, audit_file_name(mode)),
                None => exists|base: Seq<char>| r.path() == join_path(audit_dir_under(base), audit_file_name(mode)),
            },
    {
        let dir = match &config.log_dir {
            Some(d) => d.clone(),
            None => default_audit_dir(),
        };
        let log_path = path_join(dir.as_str(), audit_file_of(mode));
        AuditLogger { config, log_path }
    }

    /// Whether audit logging is enabled.
    pub fn is_enabled(&self) -> (r: bool)
        ensures
            r == self.config().enabled,
    {
        self.config.enabled
    }

    /// The log file.
    pub fn log_path(&self) -> (r: &str)
        ensures
            r@ == self.path(),
    {
        self.log_path.as_str()
    }

    /// A builder for the entry of `command`, stamped now, with exit code 0,
    /// verdict `allowed`, no duration and no snapshot, in the given working
    /// directory and for the given user.
    pub fn entry_for(command: &str, mode: Mode, working_dir: Option<String>, user: Option<String>) -> (r: AuditEntryBuilder)
        ensures
            r@.command == command@,
            r@.mode == mode,
            r@.exit_code == 0,
            r@.acl_verdict == "allowed"@,
            r@.working_dir == opt_view(working_dir),
            r@.duration_ms == 0,
            !r@.snapshot_created,
            r@.user == opt_view(user),
    {
        AuditEntryBuilder {
            command: String::from_str(command),
            mode,
            timestamp: now_secs(),
            exit_code: 0,
            acl_verdict: String::from_str("allowed"),
            working_dir,
            duration_ms: 0,
            snapshot_created: false,
            user,
        }
    }
}

/// The characters of an optional string.
pub open spec fn opt_view(o: Option<String>) -> Option<Seq<char>> {
    match o {
        Some(s) => Some(s@),
        None => None,
    }
}

/// Builder for audit entries.
pub struct AuditEntryBuilder {
    command: String,
    mode: Mode,
    timestamp: u64,
    exit_code: i32,
    acl_verdict: String,
    working_dir: Option<String>,
    duration_ms: u64,
    snapshot_created: bool,
    user: Option<String>,
}

/// The fields of an audit entry under construction.
pub struct BuilderView {
    pub command: Seq<char>,
    pub mode: Mode,
    pub timestamp: u64,
    pub exit_code: i32,
    pub acl_verdict: Seq<char>,
    pub working_dir: Option<Seq<char>>,
    pub duration_ms: u64,
    pub snapshot_created: bool,
    pub user: Option<Seq<char>>,
}

impl View for AuditEntryBuilder {
    type V = BuilderView;

    closed spec fn view(&self) -> BuilderView {
        BuilderView {
            command: self.command@,
            mode: self.mode,
            timestamp: self.timestamp,
            exit_code: self.exit_code,
            acl_verdict: self.acl_verdict@,
            working_dir: opt_view(self.working_dir),
            duration_ms: self.duration_ms,
            snapshot_created: self.snapshot_created,
            user: opt_view(self.user),
        }
    }
}

impl AuditEntryBuilder {
    /// Sets the exit code.
    pub fn exit_code(self, code: i32) -> (r: Self)
        ensures
            r@ == (BuilderView { exit_code: code, ..self@ }),
    {
        let mut b = self;
        b.exit_code = code;
        b
    }

    /// Sets the ACL verdict text.
    pub fn acl_verdict(self, verdict: &str) -> (r: Self)
        ensures
            r@ == (BuilderView { acl_verdict: verdict@, ..self@ }),
    {
        let mut b = self;
        b.acl_verdict = String::from_str(verdict);
        b
    }

    /// Sets the duration.
    pub fn duration_ms(self, ms: u64) -> (r: Self)
        ensures
            r@ == (BuilderView { duration_ms: ms, ..self@ }),
    {
        let mut b = self;
        b.duration_ms = ms;
        b
    }

    /// Sets whether a snapshot was created.
    pub fn snapshot_created(self, created: bool) -> (r: Self)
        ensures
            r@ == (BuilderView { snapshot_created: created, ..self@ }),
    {
        let mut b = self;
        b.snapshot_created = created;
        b
    }

    /// The entry.
    pub fn build(self) -> (r: AuditEntry)
        ensures
            r.timestamp == self@.timestamp,
            r.command@ == self@.command,
            r.exit_code == self@.exit_code,
            r.acl_verdict@ == self@.acl_verdict,
            r.mode == self@.mode,
            opt_view(r.working_dir) == self@.working_dir,
            r.duration_ms == self@.duration_ms,
            r.snapshot_created == self@.snapshot_created,
            opt_view(r.user) == self@.user,
    {
        AuditEntry {
            timestamp: self.timestamp,
            command: self.command,
            exit_code: self.exit_code,
            acl_verdict: self.acl_verdict,
            mode: self.mode,
            working_dir: self.working_dir,
            duration_ms: self.duration_ms,
            snapshot_created: self.snapshot_created,
            user: self.user,
        }
    }
}

} // verus!
