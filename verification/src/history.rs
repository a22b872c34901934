//! Per-profile command history: bounded, with consecutive duplicates
//! skipped, searchable and walkable backwards. Reading and writing the
//! history file is left to the caller; `History::file_path` says where.

use std::collections::VecDeque;
use vstd::prelude::*;
use crate::paths::{data_local_dir, now_secs, path_join};
use crate::profile::Mode;
use crate::text::{is_blank, lowercase_of, seq_contains, str_contains, str_eq, to_lowercase, trim};

verus! {

broadcast use {vstd::string::group_string_axioms, vstd::std_specs::vecdeque::group_vec_dequeue_axioms};

/// A single history entry.
#[derive(Debug, Clone)]
pub struct HistoryEntry {
    /// The command that was executed.
    pub command: String,
    /// Timestamp (epoch seconds).
    pub timestamp: u64,
    /// Exit code.
    pub exit_code: i32,
    /// Working directory at the time of execution.
    pub working_dir: Option<String>,
}

/// History configuration.
#[derive(Debug, Clone, Copy)]
pub struct HistoryConfig {
    /// Maximum number of entries to keep.
    pub max_entries: usize,
    /// Whether the history is saved to disk.
    pub persistent: bool,
    /// Whether consecutive identical commands are recorded once.
    pub deduplicate: bool,
}

impl Default for HistoryConfig {
    /// 10 000 entries, persistent, deduplicating.
    fn default() -> (r: Self)
        ensures
            r.max_entries == 10_000,
            r.persistent,
            r.deduplicate,
    {
        HistoryConfig { max_entries: 10_000, persistent: true, deduplicate: true }
    }
}

/// The abstract state of a history.
pub struct HistoryModel {
    pub entries: Seq<HistoryEntry>,
    pub config: HistoryConfig,
    pub file_path: Seq<char>,
    pub search_pos: Option<usize>,
}

/// The shell history manager.
pub struct History {
    entries: VecDeque<HistoryEntry>,
    config: HistoryConfig,
    file_path: String,
    search_pos: Option<usize>,
}

impl View for History {
    type V = HistoryModel;

    closed spec fn view(&self) -> HistoryModel {
        HistoryModel {
            entries: self.entries@,
            config: self.config,
            file_path: self.file_path@,
            search_pos: self.search_pos,
        }
    }
}

/// How many entries a history keeps at most: `max_entries`, but never less
/// than the one just recorded.
pub open spec fn capacity(max_entries: usize) -> nat {
    if max_entries == 0 { 1 } else { max_entries as nat }
}

/// The entries after making room for one more: the oldest goes when the
/// history is full.
pub open spec fn make_room(es: Seq<HistoryEntry>, max_entries: usize) -> Seq<HistoryEntry> {
    if es.len() >= max_entries && es.len() > 0 {
        es.drop_first()
    } else {
        es
    }
}

/// Whether recording `command` is skipped: blank commands always, and with
/// deduplication a repeat of the last command.
pub open spec fn push_skipped(m: HistoryModel, command: Seq<char>) -> bool {
    ||| trim(command).len() == 0
    ||| (m.config.deduplicate && m.entries.len() > 0 && m.entries.last().command@ == command)
}

/// The file name of the history of a mode.
pub open spec fn history_file_name(mode: Mode) -> Seq<char> {
    match mode {
        Mode::Kids => "history_kids.jsonl"@,
        Mode::Agent => "history_agent.jsonl"@,
        Mode::Admin => "history_admin.jsonl"@,
    }
}

/// The reverse of a sequence.
pub open spec fn reversed<T>(s: Seq<T>) -> Seq<T> {
    Seq::new(s.len(), |i: int| s[s.len() - 1 - i])
}

/// Whether an entry matches a search pattern: its command contains the
/// pattern, both lower-cased.
pub open spec fn search_hit(e: HistoryEntry, pattern: Seq<char>) -> bool {
    seq_contains(lowercase_of(e.command@), lowercase_of(pattern))
}

fn file_name_of(mode: Mode) -> (r: &'static str)
    ensures
        r@ == history_file_name(mode),
{
    match mode {
        Mode::Kids => "history_kids.jsonl",
        Mode::Agent => "history_agent.jsonl",
        Mode::Admin => "history_admin.jsonl",
    }
}

/// The history file of a mode: `omnishell/history_<mode>.jsonl` under the
/// local data directory, or under `/tmp` when there is none.
pub fn history_file_path(mode: Mode) -> (r: String)
    ensures
        exists|base: Seq<char>| r@ == join_path_twice(base, mode),
{
    let base = match data_local_dir() {
        Some(d) => d,
        None => String::from_str("/tmp"),
    };
    let dir = path_join(base.as_str(), "omnishell");
    let r = path_join(dir.as_str(), file_name_of(mode));
    assert(r@ == join_path_twice(base@, mode));
    r
}

/// `base/omnishell/<file of mode>`.
pub open spec fn join_path_twice(base: Seq<char>, mode: Mode) -> Seq<char> {
    crate::paths::join_path(crate::paths::join_path(base, "omnishell"@), history_file_name(mode))
}

/// One step of a reverse search: the history afterwards and the position of
/// the entry returned, if any. The first step returns the newest entry, each
/// further step the next older one; after the oldest, nothing.
pub open spec fn prev_step(m: HistoryModel) -> (HistoryModel, Option<int>) {
    let len = m.entries.len();
    match m.search_pos {
        Some(pos) => if pos + 1 < len {
            (HistoryModel { search_pos: Some((pos + 1) as usize), ..m }, Some(len - pos - 2))
        } else {
            (m, None)
        },
        None => if len > 0 {
            (HistoryModel { search_pos: Some(0usize), ..m }, Some(len - 1))
        } else {
            (m, None)
        },
    }
}

/// The history after `n` reverse-search steps.
pub open spec fn after_prev_steps(m: HistoryModel, n: nat) -> HistoryModel
    decreases n,
{
    if n == 0 {
        m
    } else {
        after_prev_steps(prev_step(m).0, (n - 1) as nat)
    }
}

/// Where a search that started fresh stands after `n` steps.
pub open spec fn pos_after(len: nat, n: nat) -> Option<usize> {
    if n == 0 || len == 0 {
        None
    } else if n <= len {
        Some((n - 1) as usize)
    } else {
        Some((len - 1) as usize)
    }
}

proof fn lemma_after_prev_steps(m: HistoryModel, n: nat)
    requires
        m.search_pos is None,
        m.entries.len() <= usize::MAX,
    ensures
        after_prev_steps(m, n) == (HistoryModel { search_pos: pos_after(m.entries.len(), n), ..m }),
    decreases n,
{
    if n > 0 {
        lemma_after_prev_steps(m, (n - 1) as nat);
        let k = (n - 1) as nat;
        let mid = HistoryModel { search_pos: pos_after(m.entries.len(), k), ..m };
        lemma_after_prev_steps_split(m, k);
        assert(after_prev_steps(m, n) == prev_step(mid).0);
    }
}

proof fn lemma_after_prev_steps_split(m: HistoryModel, k: nat)
    ensures
        after_prev_steps(m, k + 1) == prev_step(after_prev_steps(m, k)).0,
    decreases k,
{
    let m1 = prev_step(m).0;
    assert(after_prev_steps(m, k + 1) == after_prev_steps(m1, k));
    if k > 0 {
        lemma_after_prev_steps_split(m1, (k - 1) as nat);
        assert((k - 1) as nat + 1 == k);
        assert(after_prev_steps(m, k) == after_prev_steps(m1, (k - 1) as nat));
    } else {
        assert(after_prev_steps(m1, 0) == m1);
        assert(after_prev_steps(m, 0) == m);
    }
}

/// A reverse search walks back through the whole history: from a history
/// with no search in progress (fresh, or after `reset_search`, `clear` or a
/// recorded command), the `j`-th further call of `search_prev` (from 0)
/// returns the entry `j` places before the newest while there is one, and
/// nothing from then on; the entries never change.
pub proof fn law_search_prev_walks_back(m: HistoryModel, j: nat)
    requires
        m.search_pos is None,
        m.entries.len() <= usize::MAX,
    ensures
        after_prev_steps(m, j).entries == m.entries,
        prev_step(after_prev_steps(m, j)).1 == (if j < m.entries.len() {
            Some(m.entries.len() - 1 - j)
        } else {
            None::<int>
        }),
{
    lemma_after_prev_steps(m, j);
}

impl History {
    #[verifier::type_invariant]
    spec fn well_formed(&self) -> bool {
        &&& self.entries@.len() <= capacity(self.config.max_entries)
        &&& match self.search_pos {
            Some(p) => p < self.entries@.len(),
            None => true,
        }
    }

    /// An empty history for a mode, stored (by the caller) in that mode's
    /// history file.
    pub fn new(mode: Mode, config: HistoryConfig) -> (r: Self)
        ensures
            r@.entries.len() == 0,
            r@.config == config,
            r@.search_pos is None,
            exists|base: Seq<char>| r@.file_path == join_path_twice(base, mode),
    {
        let file_path = history_file_path(mode);
        History { entries: VecDeque::new(), config, file_path, search_pos: None }
    }

    /// An empty history stored at the given path.
    pub fn with_file(config: HistoryConfig, file_path: String) -> (r: Self)
        ensures
            r@.entries.len() == 0,
            r@.config == config,
            r@.file_path == file_path@,
            r@.search_pos is None,
    {
        History { entries: VecDeque::new(), config, file_path, search_pos: None }
    }

    /// Where the history is saved.
    pub fn file_path(&self) -> (r: &str)
        ensures
            r@ == self@.file_path,
    {
        self.file_path.as_str()
    }

    /// The configuration.
    pub fn config(&self) -> (r: HistoryConfig)
        ensures
            r == self@.config,
    {
        self.config
    }

    /// Appends an entry as read back from the history file: the oldest entry
    /// goes when the history is full; nothing is skipped.
    pub fn load_entry(&mut self, entry: HistoryEntry)
        ensures
            final(self)@.entries == make_room(old(self)@.entries, old(self)@.config.max_entries).push(entry),
            final(self)@.config == old(self)@.config,
            final(self)@.file_path == old(self)@.file_path,
            final(self)@.search_pos == old(self)@.search_pos,
    {
        proof {
            use_type_invariant(&*self);
        }
        let pos = self.search_pos;
        self.search_pos = None;
        let mut entries: VecDeque<HistoryEntry> = VecDeque::new();
        std::mem::swap(&mut entries, &mut self.entries);
        if entries.len() >= self.config.max_entries && entries.len() > 0 {
            entries.pop_front();
        }
        entries.push_back(entry);
        self.entries = entries;
        self.search_pos = pos;
    }

    /// Records a command; blank commands, and with deduplication a repeat of
    /// the last command, are skipped. The oldest entry goes when the history
    /// is full; recording ends any search in progress.
    pub fn push(&mut self, command: &str, exit_code: i32, working_dir: Option<&str>)
        ensures
            final(self)@.config == old(self)@.config,
            final(self)@.file_path == old(self)@.file_path,
            push_skipped(old(self)@, command@) ==> final(self)@ == old(self)@,
            !push_skipped(old(self)@, command@) ==> {
                let e = final(self)@.entries.last();
                &&& final(self)@.entries.drop_last() == make_room(old(self)@.entries, old(self)@.config.max_entries)
                &&& final(self)@.entries.len() > 0
                &&& e.command@ == command@
                &&& e.exit_code == exit_code
                &&& match working_dir {
                    Some(w) => e.working_dir matches Some(d) && d@ == w@,
                    None => e.working_dir is None,
                }
                &&& final(self)@.search_pos is None
            },
            final(self)@.entries.len() <= capacity(final(self)@.config.max_entries),
    {
        proof {
            use_type_invariant(&*self);
        }
        if is_blank(command) {
            return;
        }
        if self.config.deduplicate && self.entries.len() > 0 {
            let last = self.entries.len() - 1;
            if str_eq(self.entries[last].command.as_str(), command) {
                return;
            }
        }
        let entry = HistoryEntry {
            command: String::from_str(command),
            timestamp: now_secs(),
            exit_code,
            working_dir: match working_dir {
                Some(w) => Some(String::from_str(w)),
                None => None,
            },
        };
        self.search_pos = None;
        let mut entries: VecDeque<HistoryEntry> = VecDeque::new();
        std::mem::swap(&mut entries, &mut self.entries);
        if entries.len() >= self.config.max_entries && entries.len() > 0 {
            entries.pop_front();
        }
        let ghost room = entries@;
        entries.push_back(entry);
        assert(entries@.drop_last() =~= room);
        self.entries = entries;
        proof {
            use_type_invariant(&*self);
        }
    }

    /// The `n` most recent entries, newest first.
    pub fn recent(&self, n: usize) -> (r: Vec<&HistoryEntry>)
        ensures
            r@.len() == if n < self@.entries.len() { n as nat } else { self@.entries.len() },
            forall|k: int| 0 <= k < r@.len() ==> *r@[k] == self@.entries[self@.entries.len() - 1 - k],
    {
        let len = self.entries.len();
        let mut r: Vec<&HistoryEntry> = Vec::new();
        let mut k: usize = 0;
        while k < n && k < len
            invariant
                len == self.entries.len(),
                k <= len,
                k <= n,
                r@.len() == k,
                forall|j: int| 0 <= j < k ==> *r@[j] == self@.entries[len - 1 - j],
            decreases len - k,
        {
            r.push(&self.entries[len - 1 - k]);
            k += 1;
        }
        r
    }

    /// All entries, oldest first.
    pub fn entries(&self) -> (r: &VecDeque<HistoryEntry>)
        ensures
            r@ == self@.entries,
    {
        &self.entries
    }

    /// The entries whose command contains `pattern`, ignoring case, newest
    /// first.
    pub fn search(&self, pattern: &str) -> (r: Vec<&HistoryEntry>)
        ensures
            r@.map_values(|e: &HistoryEntry| *e) == reversed(self@.entries).filter(|e: HistoryEntry| search_hit(e, pattern@)),
    {
        let pattern_lower = to_lowercase(pattern);
        let ghost hit = |e: HistoryEntry| search_hit(e, pattern@);
        let ghost rev = reversed(self@.entries);
        let len = self.entries.len();
        let mut r: Vec<&HistoryEntry> = Vec::new();
        let mut k: usize = 0;
        while k < len
            invariant
                len == self.entries.len(),
                k <= len,
                rev == reversed(self@.entries),
                hit == (|e: HistoryEntry| search_hit(e, pattern@)),
                pattern_lower@ == lowercase_of(pattern@),
                r@.map_values(|e: &HistoryEntry| *e) == rev.take(k as int).filter(hit),
            decreases len - k,
        {
            let e = &self.entries[len - 1 - k];
            let lower = to_lowercase(e.command.as_str());
            let found = str_contains(lower.as_str(), pattern_lower.as_str());
            let ghost before = r@;
            proof {
                assert(rev[k as int] == *e);
                assert(rev.take(k + 1) =~= rev.take(k as int).push(rev[k as int]));
                reveal(Seq::filter);
                assert(rev.take(k as int).push(rev[k as int]).drop_last() =~= rev.take(k as int));
            }
            if found {
                r.push(e);
                proof {
                    assert(r@.map_values(|e: &HistoryEntry| *e) =~= before.map_values(|e: &HistoryEntry| *e).push(*e));
                }
            }
            k += 1;
        }
        assert(rev.take(len as int) =~= rev);
        r
    }

    /// Steps one entry further back in a reverse search and returns it; the
    /// first step returns the newest entry. `None` once the oldest entry was
    /// returned, or when the history is empty.
    pub fn search_prev(&mut self) -> (r: Option<&HistoryEntry>)
        ensures
            final(self)@.entries == old(self)@.entries,
            final(self)@.config == old(self)@.config,
            final(self)@.file_path == old(self)@.file_path,
            final(self)@ == prev_step(old(self)@).0,
            match prev_step(old(self)@).1 {
                Some(k) => r == Some(&old(self)@.entries[k]),
                None => r is None,
            },
            ({
                let len = old(self)@.entries.len();
                match old(self)@.search_pos {
                    Some(pos) => if pos + 1 < len {
                        &&& final(self)@.search_pos == Some((pos + 1) as usize)
                        &&& r == Some(&old(self)@.entries[len - pos - 2])
                    } else {
                        &&& final(self)@.search_pos == old(self)@.search_pos
                        &&& r is None
                    },
                    None => if len > 0 {
                        &&& final(self)@.search_pos == Some(0usize)
                        &&& r == Some(&old(self)@.entries[len - 1])
                    } else {
                        &&& final(self)@.search_pos is None
                        &&& r is None
                    },
                }
            }),
    {
        proof {
            use_type_invariant(&*self);
        }
        let len = self.entries.len();
        match self.search_pos {
            Some(pos) => {
                if pos + 1 < len {
                    self.search_pos = Some(pos + 1);
                    Some(&self.entries[len - pos - 2])
                } else {
                    None
                }
            },
            None => {
                if len > 0 {
                    self.search_pos = Some(0);
                    Some(&self.entries[len - 1])
                } else {
                    None
                }
            },
        }
    }

    /// Ends a reverse search.
    pub fn reset_search(&mut self)
        ensures
            final(self)@ == (HistoryModel { search_pos: None, ..old(self)@ }),
    {
        proof {
            use_type_invariant(&*self);
        }
        self.search_pos = None;
    }

    /// Removes every entry.
    pub fn clear(&mut self)
        ensures
            final(self)@.entries.len() == 0,
            final(self)@.config == old(self)@.config,
            final(self)@.file_path == old(self)@.file_path,
            final(self)@.search_pos is None,
    {
        proof {
            use_type_invariant(&*self);
        }
        self.search_pos = None;
        self.entries = VecDeque::new();
    }

    /// The number of entries.
    pub fn len(&self) -> (r: usize)
        ensures
            r == self@.entries.len(),
    {
        self.entries.len()
    }

    /// Whether there are no entries.
    pub fn is_empty(&self) -> (r: bool)
        ensures
            r == (self@.entries.len() == 0),
    {
        self.entries.len() == 0
    }
}

impl Default for History {
    /// An empty Admin history with the default configuration.
    fn default() -> (r: Self)
        ensures
            r@.entries.len() == 0,
            r@.config.max_entries == 10_000,
            r@.config.persistent,
            r@.config.deduplicate,
            r@.search_pos is None,
    {
        History::new(Mode::Admin, HistoryConfig::default())
    }
}

} // verus!
