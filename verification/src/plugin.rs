//! Plugins: hooks into the shell's life cycle (init, shutdown), around each
//! command (before: allow, deny or replace it; after: observe it) and into
//! completion. Plugins are registered with a builder and run in order.

use vstd::prelude::*;
use crate::config::OmniShellConfig;
use crate::profile::Profile;
use crate::text::{concat2, i64_to_string, int_decimal, is_ws, str_eq, strings_contain, views};

verus! {

broadcast use vstd::string::group_string_axioms;

/// Plugin metadata.
#[derive(Debug, Clone)]
pub struct PluginMeta {
    /// Unique plugin name.
    pub name: String,
    /// Semantic version.
    pub version: String,
    /// Human-readable description.
    pub description: String,
}

/// What a plugin says about a command about to run.
#[derive(Debug, Clone)]
pub enum PluginCommandAction {
    /// Let it run.
    Allow,
    /// Block it, with a reason.
    Deny(String),
    /// Run another command in its place.
    Replace(String),
}

/// The value of an action.
pub enum ActionView {
    Allow,
    Deny(Seq<char>),
    Replace(Seq<char>),
}

impl View for PluginCommandAction {
    type V = ActionView;

    open spec fn view(&self) -> ActionView {
        match self {
            PluginCommandAction::Allow => ActionView::Allow,
            PluginCommandAction::Deny(s) => ActionView::Deny(s@),
            PluginCommandAction::Replace(s) => ActionView::Replace(s@),
        }
    }
}

impl PartialEq for PluginCommandAction {
    fn eq(&self, other: &Self) -> (r: bool) {
        match (self, other) {
            (PluginCommandAction::Allow, PluginCommandAction::Allow) => true,
            (PluginCommandAction::Deny(a), PluginCommandAction::Deny(b)) => str_eq(a.as_str(), b.as_str()),
            (PluginCommandAction::Replace(a), PluginCommandAction::Replace(b)) => str_eq(a.as_str(), b.as_str()),
            _ => false,
        }
    }
}

impl vstd::std_specs::cmp::PartialEqSpecImpl for PluginCommandAction {
    open spec fn obeys_eq_spec() -> bool {
        true
    }

    open spec fn eq_spec(&self, other: &Self) -> bool {
        self@ == other@
    }
}

/// What a plugin sees of the shell.
pub struct PluginContext<'a> {
    /// The active profile.
    pub profile: &'a Profile,
    /// The whole configuration.
    pub config: &'a OmniShellConfig,
    /// The working directory.
    pub working_dir: &'a str,
}

/// A shell plugin. Every hook but `meta` does nothing by default.
///
/// Plugins are written by the library's users, and nothing is stated of
/// what their hooks answer. The builder hands each hook the command (or
/// word) and the context, and decides from the answers it gets through
/// `first_decision`, `init_failures` and `joined_candidates`.
pub trait OmniShellPlugin: Send + Sync + 'static {
    /// The plugin's metadata.
    fn meta(&self) -> PluginMeta;

    /// Runs once when the shell starts.
    fn on_init(&self, ctx: &PluginContext) -> (r: Result<(), String>)
        default_ensures
            r is Ok,
    {
        Ok(())
    }

    /// Runs once when the shell shuts down.
    fn on_shutdown(&self, ctx: &PluginContext) {
    }

    /// Runs before a command; `Deny` blocks it, `Replace` swaps it.
    fn on_before_command(&self, command: &str, ctx: &PluginContext) -> (r: PluginCommandAction)
        default_ensures
            r@ == ActionView::Allow,
    {
        PluginCommandAction::Allow
    }

    /// Runs after a command completed.
    fn on_after_command(&self, command: &str, exit_code: i32, ctx: &PluginContext) {
    }

    /// More completion candidates for a partial word.
    fn on_complete(&self, partial: &str, ctx: &PluginContext) -> (r: Vec<String>)
        default_ensures
            r@.len() == 0,
    {
        Vec::new()
    }
}

/// Builds a shell from a configuration and plugins.
pub struct OmniShellBuilder {
    pub config: OmniShellConfig,
    pub plugins: Vec<Box<dyn OmniShellPlugin>>,
    /// Whether a failing plugin initialisation aborts start-up.
    pub fail_on_plugin_error: bool,
}

impl OmniShellBuilder {
    /// A builder without plugins.
    pub fn new(config: OmniShellConfig) -> (r: Self)
        ensures
            r.config == config,
            r.plugins@.len() == 0,
            !r.fail_on_plugin_error,
    {
        OmniShellBuilder { config, plugins: Vec::new(), fail_on_plugin_error: false }
    }

    /// Registers a plugin after the others.
    pub fn with_plugin<P: OmniShellPlugin>(self, plugin: P) -> (r: Self)
        ensures
            r.fail_on_plugin_error == self.fail_on_plugin_error,
            r.config == self.config,
            r.plugins@.len() == self.plugins@.len() + 1,
            r.plugins@.drop_last() == self.plugins@,
    {
        let mut b = self;
        let boxed: Box<dyn OmniShellPlugin> = Box::new(plugin);
        let ghost before = b.plugins@;
        b.plugins.push(boxed);
        proof {
            vstd::seq::axiom_seq_push_len(before, boxed);
            assert forall|i: int| 0 <= i < before.len() implies #[trigger] b.plugins@.drop_last()[i] == before[i] by {
                vstd::seq::axiom_seq_push_index_different(before, boxed, i);
            }
            assert(b.plugins@.drop_last() =~= before);
        }
        b
    }

    /// Sets whether a failing plugin initialisation aborts start-up.
    pub fn fail_on_plugin_error(self, fail: bool) -> (r: Self)
        ensures
            r.fail_on_plugin_error == fail,
            r.plugins@ == self.plugins@,
    {
        let mut b = self;
        b.fail_on_plugin_error = fail;
        b
    }

    /// Initialises every plugin, in order, handing each the context of
    /// `profile`, the configuration and `working_dir`; returns
    /// `init_failures` of each plugin's name and answer: the (plugin name,
    /// error) of each that failed, in order.
    pub fn init_plugins(&self, profile: &Profile, working_dir: &str) -> (r: Vec<(String, String)>)
        ensures
            r@.len() <= self.plugins@.len(),
    {
        let ctx = PluginContext { profile, config: &self.config, working_dir };
        let mut outcomes: Vec<(String, Result<(), String>)> = Vec::new();
        let mut i: usize = 0;
        while i < self.plugins.len()
            invariant
                i <= self.plugins.len(),
                outcomes@.len() == i,
            decreases self.plugins.len() - i,
        {
            let meta = self.plugins[i].meta();
            let answer = self.plugins[i].on_init(&ctx);
            outcomes.push((meta.name, answer));
            i += 1;
        }
        proof {
            lemma_init_errors_len(outcome_views(outcomes@));
        }
        init_failures(&outcomes)
    }

    /// Runs the before-command hooks in order, each handed the command and
    /// the context, until one does not allow the command; returns
    /// `first_decision` of the answers: that one, or `Allow` when all allow.
    /// Without plugins every command is allowed.
    pub fn before_command(&self, command: &str, profile: &Profile, working_dir: &str) -> (r: PluginCommandAction)
        ensures
            self.plugins@.len() == 0 ==> r@ == ActionView::Allow,
    {
        let ctx = PluginContext { profile, config: &self.config, working_dir };
        let mut answers: Vec<PluginCommandAction> = Vec::new();
        let mut decided = false;
        let mut i: usize = 0;
        while i < self.plugins.len() && !decided
            invariant
                i <= self.plugins.len(),
                answers@.len() == i,
            decreases self.plugins.len() - i,
        {
            let action = self.plugins[i].on_before_command(command, &ctx);
            decided = match action {
                PluginCommandAction::Allow => false,
                _ => true,
            };
            answers.push(action);
            i += 1;
        }
        first_decision(answers)
    }

    /// Runs the after-command hooks in order.
    pub fn after_command(&self, command: &str, exit_code: i32, profile: &Profile, working_dir: &str) {
        let ctx = PluginContext { profile, config: &self.config, working_dir };
        let mut i: usize = 0;
        while i < self.plugins.len()
            invariant
                i <= self.plugins.len(),
            decreases self.plugins.len() - i,
        {
            self.plugins[i].on_after_command(command, exit_code, &ctx);
            i += 1;
        }
    }

    /// The completion candidates of every plugin, each handed the partial
    /// word and the context: `joined_candidates` of their answers, in plugin
    /// order.
    pub fn completions(&self, partial: &str, profile: &Profile, working_dir: &str) -> (r: Vec<String>)
        ensures
            self.plugins@.len() == 0 ==> r@.len() == 0,
    {
        let ctx = PluginContext { profile, config: &self.config, working_dir };
        let mut lists: Vec<Vec<String>> = Vec::new();
        let mut i: usize = 0;
        while i < self.plugins.len()
            invariant
                i <= self.plugins.len(),
                lists@.len() == i,
            decreases self.plugins.len() - i,
        {
            lists.push(self.plugins[i].on_complete(partial, &ctx));
            i += 1;
        }
        let r = joined_candidates(&lists);
        proof {
            if self.plugins@.len() == 0 {
                assert(list_views(lists@) =~= Seq::<Seq<Seq<char>>>::empty());
                assert(views(r@).len() == r@.len());
            }
        }
        r
    }

    /// The number of plugins.
    pub fn plugin_count(&self) -> (r: usize)
        ensures
            r == self.plugins@.len(),
    {
        self.plugins.len()
    }

    /// The metadata of every plugin, in order.
    pub fn plugin_metas(&self) -> (r: Vec<PluginMeta>)
        ensures
            r@.len() == self.plugins@.len(),
    {
        let mut metas: Vec<PluginMeta> = Vec::new();
        let mut i: usize = 0;
        while i < self.plugins.len()
            invariant
                i <= self.plugins.len(),
                metas@.len() == i,
            decreases self.plugins.len() - i,
        {
            metas.push(self.plugins[i].meta());
            i += 1;
        }
        metas
    }
}

/// The decision of the before-command answers, in plugin order: the first
/// that is not `Allow`, or `Allow` when every one allows.
pub open spec fn first_decision_spec(answers: Seq<ActionView>) -> ActionView
    decreases answers.len(),
{
    if answers.len() == 0 {
        ActionView::Allow
    } else if answers[0] is Allow {
        first_decision_spec(answers.drop_first())
    } else {
        answers[0]
    }
}

/// The values of actions.
pub open spec fn action_views(v: Seq<PluginCommandAction>) -> Seq<ActionView> {
    v.map_values(|a: PluginCommandAction| a@)
}

/// Decides a command from the plugins' answers, in plugin order.
pub fn first_decision(answers: Vec<PluginCommandAction>) -> (r: PluginCommandAction)
    ensures
        r@ == first_decision_spec(action_views(answers@)),
{
    let ghost all = action_views(answers@);
    let mut v = answers;
    let mut i: usize = 0;
    assert(all.skip(0) =~= all);
    while i < v.len()
        invariant
            i <= v.len(),
            all == action_views(v@),
            all == action_views(answers@),
            first_decision_spec(all) == first_decision_spec(all.skip(i as int)),
        decreases v.len() - i,
    {
        proof {
            assert(all.skip(i as int)[0] == v@[i as int]@);
            assert(all.skip(i as int).drop_first() =~= all.skip(i + 1));
        }
        let allow = match &v[i] {
            PluginCommandAction::Allow => true,
            _ => false,
        };
        if !allow {
            assert(!(all.skip(i as int)[0] is Allow));
            assert(all.skip(i as int).len() > 0);
            assert(first_decision_spec(all.skip(i as int)) == all.skip(i as int)[0]);
            assert(all.skip(i as int)[0] == all[i as int]);
            assert(all[i as int] == v@[i as int]@);
            let ghost wanted = v@[i as int];
            let a = v.remove(i);
            assert(a == wanted);
            assert(a@ == wanted@);
            assert(a@ == first_decision_spec(all));
            return a;
        }
        i += 1;
    }
    proof {
        assert(all.skip(i as int) =~= Seq::<ActionView>::empty());
    }
    PluginCommandAction::Allow
}

/// The value of an initialisation answer.
pub open spec fn init_view(r: Result<(), String>) -> Result<(), Seq<char>> {
    match r {
        Ok(()) => Ok(()),
        Err(e) => Err(e@),
    }
}

/// The values of (plugin name, initialisation answer) pairs.
pub open spec fn outcome_views(v: Seq<(String, Result<(), String>)>) -> Seq<(Seq<char>, Result<(), Seq<char>>)> {
    v.map_values(|o: (String, Result<(), String>)| (o.0@, init_view(o.1)))
}

/// The (plugin name, error) of each failed initialisation, in order.
pub open spec fn init_errors(o: Seq<(Seq<char>, Result<(), Seq<char>>)>) -> Seq<(Seq<char>, Seq<char>)>
    decreases o.len(),
{
    if o.len() == 0 {
        Seq::empty()
    } else {
        let rest = init_errors(o.drop_last());
        match o.last().1 {
            Ok(()) => rest,
            Err(e) => rest.push((o.last().0, e)),
        }
    }
}

proof fn lemma_init_errors_len(o: Seq<(Seq<char>, Result<(), Seq<char>>)>)
    ensures
        init_errors(o).len() <= o.len(),
    decreases o.len(),
{
    if o.len() > 0 {
        lemma_init_errors_len(o.drop_last());
    }
}

/// The values of (name, error) pairs.
pub open spec fn pair_views(v: Seq<(String, String)>) -> Seq<(Seq<char>, Seq<char>)> {
    v.map_values(|p: (String, String)| (p.0@, p.1@))
}

/// The failures among the plugins' initialisation answers, each with the
/// plugin's name, in order.
pub fn init_failures(outcomes: &Vec<(String, Result<(), String>)>) -> (r: Vec<(String, String)>)
    ensures
        pair_views(r@) == init_errors(outcome_views(outcomes@)),
{
    let ghost all = outcome_views(outcomes@);
    let mut r: Vec<(String, String)> = Vec::new();
    let mut i: usize = 0;
    while i < outcomes.len()
        invariant
            i <= outcomes.len(),
            all == outcome_views(outcomes@),
            pair_views(r@) == init_errors(all.take(i as int)),
        decreases outcomes.len() - i,
    {
        proof {
            assert(all.take(i + 1).drop_last() =~= all.take(i as int));
            assert(all.take(i + 1).last() == all[i as int]);
        }
        match &outcomes[i].1 {
            Ok(()) => {},
            Err(e) => {
                let ghost before = pair_views(r@);
                r.push((outcomes[i].0.clone(), e.clone()));
                assert(pair_views(r@) =~= before.push((outcomes@[i as int].0@, e@)));
            },
        }
        i += 1;
    }
    assert(all.take(outcomes.len() as int) =~= all);
    r
}

/// The values of lists of candidates.
pub open spec fn list_views(v: Seq<Vec<String>>) -> Seq<Seq<Seq<char>>> {
    v.map_values(|l: Vec<String>| views(l@))
}

/// The lists one after the other.
pub open spec fn concat_lists(ls: Seq<Seq<Seq<char>>>) -> Seq<Seq<char>>
    decreases ls.len(),
{
    if ls.len() == 0 {
        Seq::empty()
    } else {
        concat_lists(ls.drop_last()) + ls.last()
    }
}

/// The plugins' completion answers, one after the other, in plugin order.
pub fn joined_candidates(lists: &Vec<Vec<String>>) -> (r: Vec<String>)
    ensures
        views(r@) == concat_lists(list_views(lists@)),
{
    let ghost all = list_views(lists@);
    let mut r: Vec<String> = Vec::new();
    let mut i: usize = 0;
    while i < lists.len()
        invariant
            i <= lists.len(),
            all == list_views(lists@),
            views(r@) == concat_lists(all.take(i as int)),
        decreases lists.len() - i,
    {
        let ghost start = views(r@);
        let list = &lists[i];
        let mut j: usize = 0;
        while j < list.len()
            invariant
                j <= list.len(),
                views(r@) == start + views(list@).take(j as int),
            decreases list.len() - j,
        {
            let ghost before = views(r@);
            r.push(list[j].clone());
            proof {
                assert(views(list@).take(j + 1) =~= views(list@).take(j as int).push(list@[j as int]@));
                assert(views(r@) =~= before.push(list@[j as int]@));
            }
            j += 1;
        }
        proof {
            assert(views(list@).take(list.len() as int) =~= views(list@));
            assert(all.take(i + 1).drop_last() =~= all.take(i as int));
            assert(all.take(i + 1).last() == views(list@));
        }
        i += 1;
    }
    assert(all.take(lists.len() as int) =~= all);
    r
}

fn meta_of(name: &str, description: &str) -> (r: PluginMeta)
    ensures
        r.name@ == name@,
        r.version@ == "0.1.0"@,
        r.description@ == description@,
{
    PluginMeta { name: String::from_str(name), version: String::from_str("0.1.0"), description: String::from_str(description) }
}

/// A plugin that allows everything.
pub struct EchoPlugin {
    pub prefix: String,
}

impl OmniShellPlugin for EchoPlugin {
    fn meta(&self) -> (r: PluginMeta)
        ensures
            r.name@ == "echo"@,
            r.version@ == "0.1.0"@,
            r.description@ == "Echo plugin for testing"@,
    {
        meta_of("echo", "Echo plugin for testing")
    }

    fn on_before_command(&self, command: &str, ctx: &PluginContext) -> (r: PluginCommandAction)
        ensures
            r@ == ActionView::Allow,
    {
        PluginCommandAction::Allow
    }
}

/// The first whitespace-separated word of a command, or the empty word.
pub open spec fn first_word(s: Seq<char>) -> Seq<char> {
    let start = first_non_ws(s, 0);
    s.subrange(start, word_end(s, start))
}

/// The first position at or after `i` that is no white space.
pub open spec fn first_non_ws(s: Seq<char>, i: int) -> int
    decreases s.len() - i,
{
    if i < 0 || i >= s.len() {
        if i < 0 { 0 } else { s.len() as int }
    } else if is_ws(s[i]) {
        first_non_ws(s, i + 1)
    } else {
        i
    }
}

/// The first position at or after `i` that is white space, or the end.
pub open spec fn word_end(s: Seq<char>, i: int) -> int
    decreases s.len() - i,
{
    if i < 0 || i >= s.len() {
        if i < 0 { 0 } else { s.len() as int }
    } else if is_ws(s[i]) {
        i
    } else {
        word_end(s, i + 1)
    }
}

proof fn lemma_scan_bounds(s: Seq<char>, i: int)
    requires
        0 <= i <= s.len(),
    ensures
        i <= first_non_ws(s, i) <= s.len(),
        i <= word_end(s, i) <= s.len(),
    decreases s.len() - i,
{
    if i < s.len() {
        lemma_scan_bounds(s, i + 1);
    }
}

/// The first whitespace-separated word of a command (`split_whitespace`).
pub fn first_word_of(command: &str) -> (r: String)
    ensures
        r@ == first_word(command@),
{
    let v = crate::text::chars_of(command);
    let n = v.len();
    let mut i: usize = 0;
    while i < n && crate::text::char_is_ws(v[i])
        invariant
            n == v@.len(),
            v@ == command@,
            i <= n,
            first_non_ws(v@, 0) == first_non_ws(v@, i as int),
        decreases n - i,
    {
        i += 1;
    }
    let start = i;
    let mut j: usize = start;
    while j < n && !crate::text::char_is_ws(v[j])
        invariant
            n == v@.len(),
            start <= j <= n,
            word_end(v@, start as int) == word_end(v@, j as int),
        decreases n - j,
    {
        j += 1;
    }
    crate::text::string_of_range(&v, start, j)
}

/// What the blocklist plugin answers: a denial when the command's first
/// word is blocked.
pub open spec fn blocklist_action(blocked: Seq<Seq<char>>, command: Seq<char>) -> ActionView {
    let name = first_word(command);
    if blocked.contains(name) {
        ActionView::Deny("Command '"@ + name + "' blocked by blocklist plugin"@)
    } else {
        ActionView::Allow
    }
}

/// A plugin that blocks commands by name.
pub struct BlocklistPlugin {
    pub blocked: Vec<String>,
}

impl BlocklistPlugin {
    /// Denies a command whose first word is blocked.
    pub fn check(&self, command: &str) -> (r: PluginCommandAction)
        ensures
            r@ == blocklist_action(views(self.blocked@), command@),
    {
        let name = first_word_of(command);
        if strings_contain(&self.blocked, &name) {
            let a = concat2("Command '", name.as_str());
            PluginCommandAction::Deny(concat2(a.as_str(), "' blocked by blocklist plugin"))
        } else {
            PluginCommandAction::Allow
        }
    }
}

impl OmniShellPlugin for BlocklistPlugin {
    fn meta(&self) -> (r: PluginMeta)
        ensures
            r.name@ == "blocklist"@,
            r.version@ == "0.1.0"@,
            r.description@ == "Blocks configured commands"@,
    {
        meta_of("blocklist", "Blocks configured commands")
    }

    fn on_before_command(&self, command: &str, ctx: &PluginContext) -> (r: PluginCommandAction)
        ensures
            r@ == blocklist_action(views(self.blocked@), command@),
    {
        self.check(command)
    }
}

#[verifier::external_type_specification]
#[verifier::external_body]
#[verifier::reject_recursive_types(T)]
pub struct ExMutex<T: ?Sized>(std::sync::Mutex<T>);

/// A lock holding an empty list (`Mutex::new`).
///
/// Trusted, with nothing stated: the lock's contents are opaque.
#[verifier::external_body]
fn new_log() -> (r: std::sync::Mutex<Vec<String>>)
{
    std::sync::Mutex::new(Vec::new())
}

#[verifier::external_type_specification]
#[verifier::external_body]
#[verifier::reject_recursive_types(T)]
pub struct ExMutexGuard<'a, T: ?Sized + 'a>(std::sync::MutexGuard<'a, T>);

/// Locks a list (`Mutex::lock`); `None` when the lock is poisoned.
///
/// Trusted, with nothing stated: the lock's contents are opaque.
#[verifier::external_body]
fn lock_log<'a>(log: &'a std::sync::Mutex<Vec<String>>) -> (r: Option<std::sync::MutexGuard<'a, Vec<String>>>)
{
    match log.lock() {
        Ok(g) => Some(g),
        Err(_) => None,
    }
}

/// The list behind a held lock (`DerefMut::deref_mut` of the guard).
///
/// Trusted, with nothing stated: the lock's contents are opaque.
#[verifier::external_body]
fn locked_list<'a, 'b>(guard: &'b mut std::sync::MutexGuard<'a, Vec<String>>) -> (r: &'b mut Vec<String>)
{
    &mut *guard
}

/// Appends a line to a locked list; nothing when the lock is poisoned.
fn append_line(log: &std::sync::Mutex<Vec<String>>, line: String) {
    match lock_log(log) {
        Some(mut guard) => {
            let list = locked_list(&mut guard);
            list.push(line);
        },
        None => {},
    }
}

/// The audit line of a command: `<command> [exit=<code>]`.
pub open spec fn audit_line(command: Seq<char>, exit_code: i32) -> Seq<char> {
    command + " [exit="@ + int_decimal(exit_code as int) + "]"@
}

/// A plugin that records every command with its exit code.
pub struct AuditPlugin {
    pub log: std::sync::Mutex<Vec<String>>,
}

impl AuditPlugin {
    /// An audit plugin with an empty log.
    pub fn new() -> (r: Self)
    {
        AuditPlugin { log: new_log() }
    }

    /// The line recorded for a command.
    pub fn line_for(command: &str, exit_code: i32) -> (r: String)
        ensures
            r@ == audit_line(command@, exit_code),
    {
        let a = concat2(command, " [exit=");
        let b = concat2(a.as_str(), i64_to_string(exit_code as i64).as_str());
        concat2(b.as_str(), "]")
    }
}

impl OmniShellPlugin for AuditPlugin {
    fn meta(&self) -> (r: PluginMeta)
        ensures
            r.name@ == "audit"@,
            r.version@ == "0.1.0"@,
            r.description@ == "Logs all commands"@,
    {
        meta_of("audit", "Logs all commands")
    }

    fn on_after_command(&self, command: &str, exit_code: i32, ctx: &PluginContext) {
        append_line(&self.log, AuditPlugin::line_for(command, exit_code));
    }
}

} // verus!
