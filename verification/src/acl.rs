//! Access Control List (ACL) engine.
//!
//! Every command line passes through `AclEngine::evaluate`. The line is split
//! into sub-commands on shell separators, and each sub-command is checked
//! against the blocklist (which always wins) and, when it is non-empty, the
//! allowlist.

use vstd::prelude::*;
use crate::glob_match::{glob_hit, glob_hits};
use crate::lexer::{
    has_substitution, law_newline_separates, split_closed, split_init, split_run, split_spec, substitutions,
    tokenize_spec,
};
use crate::profile::{mode_name, AclConfig, Mode};
use crate::text::{
    chars_of, join_strings, join_with, push_char, seq_contains, str_contains, str_eq, trim, trim_start,
    strings_contain, strings_of, views,
};
pub use crate::lexer::{
    contains_command_substitution, extract_substitution_commands, split_into_subcommands,
    tokenize,
};

verus! {

broadcast use vstd::string::group_string_axioms;

/// Verdict returned by the ACL engine for a proposed command.
#[derive(Debug, Clone, PartialEq, Eq)]
pub enum Verdict {
    /// Command is allowed to execute.
    Allow,
    /// Command is blocked, with the reason.
    Deny(String),
}

impl View for Verdict {
    /// `None` for `Allow`, the reason for `Deny`.
    type V = Option<Seq<char>>;

    open spec fn view(&self) -> Option<Seq<char>> {
        match self {
            Verdict::Allow => None,
            Verdict::Deny(s) => Some(s@),
        }
    }
}

/// Constraint on command arguments.
#[derive(Debug, Clone)]
pub enum ArgConstraint {
    /// The space-joined arguments must not contain this text.
    MustNotContain(String),
    /// The space-joined arguments must match this glob pattern; a pattern
    /// that does not compile matches nothing.
    MustMatchGlob(String),
    /// None of these flags may appear among the argument words; clusters of
    /// short flags such as `-rf` are checked flag by flag.
    MustNotContainFlag(Vec<String>),
    /// The argument at `index` must not match the glob `pattern`.
    PositionalMustNotMatch { index: usize, pattern: String },
}

/// The mathematical content of an `ArgConstraint`.
pub enum ConstraintModel {
    NotContain(Seq<char>),
    MatchGlob(Seq<char>),
    NotFlag(Seq<Seq<char>>),
    NotAt(int, Seq<char>),
}

impl View for ArgConstraint {
    type V = ConstraintModel;

    open spec fn view(&self) -> ConstraintModel {
        match self {
            ArgConstraint::MustNotContain(s) => ConstraintModel::NotContain(s@),
            ArgConstraint::MustMatchGlob(s) => ConstraintModel::MatchGlob(s@),
            ArgConstraint::MustNotContainFlag(v) => ConstraintModel::NotFlag(views(v@)),
            ArgConstraint::PositionalMustNotMatch { index, pattern } => ConstraintModel::NotAt(
                *index as int,
                pattern@,
            ),
        }
    }
}

/// A single ACL rule entry.
#[derive(Debug, Clone)]
pub struct AclRule {
    /// Glob pattern for the command name (e.g. `rm`, `git*`, `sudo*`).
    pub pattern: String,
    /// Argument constraints. Empty means any arguments.
    pub args: Vec<ArgConstraint>,
    /// Human-readable reason, shown in denial messages.
    pub reason: String,
}

/// The mathematical content of an `AclRule`.
pub struct RuleModel {
    pub pattern: Seq<char>,
    pub args: Seq<ConstraintModel>,
    pub reason: Seq<char>,
}

impl View for AclRule {
    type V = RuleModel;

    open spec fn view(&self) -> RuleModel {
        RuleModel {
            pattern: self.pattern@,
            args: self.args@.map_values(|c: ArgConstraint| c@),
            reason: self.reason@,
        }
    }
}

pub open spec fn rule_models(v: Seq<AclRule>) -> Seq<RuleModel> {
    v.map_values(|r: AclRule| r@)
}

// ---------------------------------------------------------------------------
// Pattern matching and messages
// ---------------------------------------------------------------------------

/// A command name matches a rule pattern when the pattern is `*`, equals the
/// name, or is a glob that compiles and matches it.
pub open spec fn pattern_matches(cmd: Seq<char>, pattern: Seq<char>) -> bool {
    pattern == "*"@ || cmd == pattern || glob_hit(pattern, cmd)
}

/// Decides `pattern_matches`.
pub fn matches_pattern(cmd: &str, pattern: &str) -> (r: bool)
    ensures
        r == pattern_matches(cmd@, pattern@),
{
    str_eq(pattern, "*") || str_eq(cmd, pattern) || glob_hits(pattern, cmd)
}

pub open spec fn msg_blocked(cmd: Seq<char>, reason: Seq<char>) -> Seq<char> {
    "Command '"@ + cmd + "' is blocked: "@ + reason
}

pub open spec fn msg_constraint(cmd: Seq<char>, reason: Seq<char>, what: Seq<char>, detail: Seq<char>) -> Seq<char> {
    "Command '"@ + cmd + "' blocked: "@ + reason + what + detail + ")"@
}

pub open spec fn msg_inner(cmd: Seq<char>, reason: Seq<char>) -> Seq<char> {
    "Command '"@ + cmd + "' is blocked inside substitution: "@ + reason
}

pub open spec fn msg_not_allowed(cmd: Seq<char>, mode: Mode) -> Seq<char> {
    "Command '"@ + cmd + "' is not on the allowlist for "@ + mode_name(mode) + " mode"@
}

pub open spec fn msg_kids_substitution() -> Seq<char> {
    "Command substitution ($(), ``, <()) is not allowed in Kids mode"@
}

pub open spec fn what_forbidden() -> Seq<char> { " (forbidden argument: "@ }
pub open spec fn what_pattern() -> Seq<char> { " (argument pattern not matched: "@ }
pub open spec fn what_flag() -> Seq<char> { " (dangerous flag: "@ }
pub open spec fn what_target() -> Seq<char> { " (dangerous target: "@ }

fn build_blocked(cmd: &str, reason: &str) -> (s: String)
    ensures
        s@ == msg_blocked(cmd@, reason@),
{
    let mut s = String::from_str("Command '");
    s.append(cmd);
    s.append("' is blocked: ");
    s.append(reason);
    s
}

fn build_constraint(cmd: &str, reason: &str, what: &str, detail: &str) -> (s: String)
    ensures
        s@ == "Command '"@ + cmd@ + "' blocked: "@ + reason@ + what@ + detail@ + ")"@,
{
    let mut s = String::from_str("Command '");
    s.append(cmd);
    s.append("' blocked: ");
    s.append(reason);
    s.append(what);
    s.append(detail);
    s.append(")");
    s
}

fn build_inner(cmd: &str, reason: &str) -> (s: String)
    ensures
        s@ == msg_inner(cmd@, reason@),
{
    let mut s = String::from_str("Command '");
    s.append(cmd);
    s.append("' is blocked inside substitution: ");
    s.append(reason);
    s
}

fn build_not_allowed(cmd: &str, mode: Mode) -> (s: String)
    ensures
        s@ == msg_not_allowed(cmd@, mode),
{
    let mut s = String::from_str("Command '");
    s.append(cmd);
    s.append("' is not on the allowlist for ");
    s.append(mode.as_str());
    s.append(" mode");
    s
}

// ---------------------------------------------------------------------------
// Argument constraints
// ---------------------------------------------------------------------------

/// The long form of a short flag character for the known dangerous flags.
pub open spec fn expand_spec(ch: char) -> Seq<char> {
    if ch == 'r' || ch == 'R' {
        "recursive"@
    } else if ch == 'f' {
        "force"@
    } else {
        ""@
    }
}

fn expand_short_flag(ch: char) -> (r: &'static str)
    ensures
        r@ == expand_spec(ch),
{
    if ch == 'r' || ch == 'R' {
        "recursive"
    } else if ch == 'f' {
        "force"
    } else {
        ""
    }
}

/// A word of the form `-x...` (a cluster of short flags, not `--long`).
pub open spec fn is_short_cluster(a: Seq<char>) -> bool {
    a.len() > 1 && a[0] == '-' && a[1] != '-'
}

/// The first forbidden flag in the cluster `a`, scanning characters from `j`.
pub open spec fn cluster_deny(a: Seq<char>, j: int, flags: Seq<Seq<char>>, cmd: Seq<char>, reason: Seq<char>) -> Option<Seq<char>>
    decreases a.len() - j,
{
    if j < 1 || j >= a.len() {
        None
    } else {
        let short = seq!['-', a[j]];
        if flags.contains(short) || flags.contains("--"@ + expand_spec(a[j])) {
            Some(msg_constraint(cmd, reason, what_flag(), short))
        } else {
            cluster_deny(a, j + 1, flags, cmd, reason)
        }
    }
}

/// The first forbidden flag among the argument words from index `i`.
pub open spec fn flags_deny(args: Seq<Seq<char>>, i: int, flags: Seq<Seq<char>>, cmd: Seq<char>, reason: Seq<char>) -> Option<Seq<char>>
    decreases args.len() - i,
{
    if i < 0 || i >= args.len() {
        None
    } else {
        let a = args[i];
        if is_short_cluster(a) {
            match cluster_deny(a, 1, flags, cmd, reason) {
                Some(d) => Some(d),
                None => flags_deny(args, i + 1, flags, cmd, reason),
            }
        } else if flags.contains(a) {
            Some(msg_constraint(cmd, reason, what_flag(), a))
        } else {
            flags_deny(args, i + 1, flags, cmd, reason)
        }
    }
}

/// The denial that one constraint gives for the arguments of `cmd`, if any.
pub open spec fn constraint_deny(c: ConstraintModel, args: Seq<Seq<char>>, cmd: Seq<char>, reason: Seq<char>) -> Option<Seq<char>> {
    let joined = join_with(args, " "@);
    match c {
        ConstraintModel::NotContain(f) => if seq_contains(joined, f) {
            Some(msg_constraint(cmd, reason, what_forbidden(), f))
        } else {
            None
        },
        ConstraintModel::MatchGlob(p) => if !glob_hit(p, joined) {
            Some(msg_constraint(cmd, reason, what_pattern(), p))
        } else {
            None
        },
        ConstraintModel::NotFlag(flags) => flags_deny(args, 0, flags, cmd, reason),
        ConstraintModel::NotAt(index, p) => if 0 <= index < args.len() && glob_hit(p, args[index]) {
            Some(msg_constraint(cmd, reason, what_target(), args[index]))
        } else {
            None
        },
    }
}

/// The first denial among the constraints `cs[j..]`.
pub open spec fn constraints_deny(cs: Seq<ConstraintModel>, j: int, args: Seq<Seq<char>>, cmd: Seq<char>, reason: Seq<char>) -> Option<Seq<char>>
    decreases cs.len() - j,
{
    if j < 0 || j >= cs.len() {
        None
    } else {
        match constraint_deny(cs[j], args, cmd, reason) {
            Some(d) => Some(d),
            None => constraints_deny(cs, j + 1, args, cmd, reason),
        }
    }
}

pub open spec fn opt_view(o: Option<String>) -> Option<Seq<char>> {
    match o {
        Some(s) => Some(s@),
        None => None,
    }
}

fn cluster_denial(a: &String, flags: &Vec<String>, cmd: &str, reason: &str) -> (r: Option<String>)
    requires
        is_short_cluster(a@),
    ensures
        opt_view(r) == cluster_deny(a@, 1, views(flags@), cmd@, reason@),
{
    let v = chars_of(a.as_str());
    let mut j: usize = 1;
    while j < v.len()
        invariant
            1 <= j <= v.len(),
            v@ == a@,
            cluster_deny(a@, 1, views(flags@), cmd@, reason@) == cluster_deny(
                a@,
                j as int,
                views(flags@),
                cmd@,
                reason@,
            ),
        decreases v.len() - j,
    {
        let ch = v[j];
        let mut short = String::new();
        push_char(&mut short, '-');
        push_char(&mut short, ch);
        let mut long = String::from_str("--");
        long.append(expand_short_flag(ch));
        assert(short@ =~= seq!['-', ch]);
        if strings_contain(flags, &short) || strings_contain(flags, &long) {
            return Some(build_constraint(cmd, reason, " (dangerous flag: ", short.as_str()));
        }
        j += 1;
    }
    None
}

fn flags_denial(args: &Vec<String>, flags: &Vec<String>, cmd: &str, reason: &str) -> (r: Option<String>)
    ensures
        opt_view(r) == flags_deny(views(args@), 0, views(flags@), cmd@, reason@),
{
    let mut i: usize = 0;
    while i < args.len()
        invariant
            i <= args.len(),
            flags_deny(views(args@), 0, views(flags@), cmd@, reason@) == flags_deny(
                views(args@),
                i as int,
                views(flags@),
                cmd@,
                reason@,
            ),
        decreases args.len() - i,
    {
        let a = &args[i];
        let av = chars_of(a.as_str());
        assert(views(args@)[i as int] == a@);
        if av.len() > 1 && av[0] == '-' && av[1] != '-' {
            match cluster_denial(a, flags, cmd, reason) {
                Some(d) => {
                    return Some(d);
                },
                None => {},
            }
        } else if strings_contain(flags, a) {
            return Some(build_constraint(cmd, reason, " (dangerous flag: ", a.as_str()));
        }
        i += 1;
    }
    None
}

/// The denial one argument constraint gives for `cmd args`, if any.
pub fn check_arg_constraint(args: &Vec<String>, constraint: &ArgConstraint, cmd: &str, reason: &str) -> (r: Option<String>)
    ensures
        opt_view(r) == constraint_deny(constraint@, views(args@), cmd@, reason@),
{
    proof {
        assert(args@.subrange(0, args@.len() as int) =~= args@);
    }
    match constraint {
        ArgConstraint::MustNotContain(forbidden) => {
            let full = join_strings(args, 0, " ");
            if str_contains(full.as_str(), forbidden.as_str()) {
                Some(build_constraint(cmd, reason, " (forbidden argument: ", forbidden.as_str()))
            } else {
                None
            }
        },
        ArgConstraint::MustMatchGlob(pattern) => {
            let full = join_strings(args, 0, " ");
            if !glob_hits(pattern.as_str(), full.as_str()) {
                Some(build_constraint(cmd, reason, " (argument pattern not matched: ", pattern.as_str()))
            } else {
                None
            }
        },
        ArgConstraint::MustNotContainFlag(flags) => flags_denial(args, flags, cmd, reason),
        ArgConstraint::PositionalMustNotMatch { index, pattern } => {
            if *index < args.len() {
                let a = &args[*index];
                assert(views(args@)[*index as int] == a@);
                if glob_hits(pattern.as_str(), a.as_str()) {
                    Some(build_constraint(cmd, reason, " (dangerous target: ", a.as_str()))
                } else {
                    None
                }
            } else {
                None
            }
        },
    }
}

/// The first denial among a rule's constraints.
fn constraints_denial(cs: &Vec<ArgConstraint>, args: &Vec<String>, cmd: &str, reason: &str) -> (r: Option<String>)
    ensures
        opt_view(r) == constraints_deny(
            cs@.map_values(|c: ArgConstraint| c@),
            0,
            views(args@),
            cmd@,
            reason@,
        ),
{
    let ghost models = cs@.map_values(|c: ArgConstraint| c@);
    let mut j: usize = 0;
    while j < cs.len()
        invariant
            j <= cs.len(),
            models == cs@.map_values(|c: ArgConstraint| c@),
            constraints_deny(models, 0, views(args@), cmd@, reason@) == constraints_deny(
                models,
                j as int,
                views(args@),
                cmd@,
                reason@,
            ),
        decreases cs.len() - j,
    {
        assert(models[j as int] == cs@[j as int]@);
        match check_arg_constraint(args, &cs[j], cmd, reason) {
            Some(d) => {
                return Some(d);
            },
            None => {},
        }
        j += 1;
    }
    None
}

} // verus!

verus! {



// ---------------------------------------------------------------------------
// The engine
// ---------------------------------------------------------------------------

/// The ACL engine: evaluates commands against allowlist and blocklist rules.
#[derive(Debug, Clone)]
pub struct AclEngine {
    /// Profile mode this engine was built for.
    pub mode: Mode,
    /// Allowlist. Empty means every command is allowed unless blocked.
    pub allowlist: Vec<AclRule>,
    /// Blocklist. It always overrides the allowlist.
    pub blocklist: Vec<AclRule>,
}

/// The mathematical content of an `AclEngine`.
pub struct EngineModel {
    pub mode: Mode,
    pub allowlist: Seq<RuleModel>,
    pub blocklist: Seq<RuleModel>,
}

impl View for AclEngine {
    type V = EngineModel;

    open spec fn view(&self) -> EngineModel {
        EngineModel {
            mode: self.mode,
            allowlist: rule_models(self.allowlist@),
            blocklist: rule_models(self.blocklist@),
        }
    }
}

impl ArgConstraint {
    /// A copy of the constraint.
    pub fn duplicate(&self) -> (r: Self)
        ensures
            r@ == self@,
    {
        match self {
            ArgConstraint::MustNotContain(s) => ArgConstraint::MustNotContain(s.clone()),
            ArgConstraint::MustMatchGlob(s) => ArgConstraint::MustMatchGlob(s.clone()),
            ArgConstraint::MustNotContainFlag(v) => ArgConstraint::MustNotContainFlag(strings_of(v.as_slice())),
            ArgConstraint::PositionalMustNotMatch { index, pattern } => ArgConstraint::PositionalMustNotMatch {
                index: *index,
                pattern: pattern.clone(),
            },
        }
    }
}

impl AclRule {
    /// A copy of the rule.
    pub fn duplicate(&self) -> (r: Self)
        ensures
            r@ == self@,
    {
        let mut args: Vec<ArgConstraint> = Vec::new();
        let mut i: usize = 0;
        while i < self.args.len()
            invariant
                i <= self.args.len(),
                args@.map_values(|c: ArgConstraint| c@) == self.args@.map_values(|c: ArgConstraint| c@).take(i as int),
            decreases self.args.len() - i,
        {
            let ghost before = args@.map_values(|c: ArgConstraint| c@);
            args.push(self.args[i].duplicate());
            proof {
                assert(args@.map_values(|c: ArgConstraint| c@) =~= before.push(self.args@[i as int]@));
                assert(self.args@.map_values(|c: ArgConstraint| c@).take(i + 1)
                    =~= self.args@.map_values(|c: ArgConstraint| c@).take(i as int).push(self.args@[i as int]@));
            }
            i += 1;
        }
        assert(self.args@.map_values(|c: ArgConstraint| c@).take(self.args.len() as int)
            =~= self.args@.map_values(|c: ArgConstraint| c@));
        AclRule { pattern: self.pattern.clone(), args, reason: self.reason.clone() }
    }
}

fn duplicate_rules(rules: &Vec<AclRule>) -> (r: Vec<AclRule>)
    ensures
        rule_models(r@) == rule_models(rules@),
{
    let mut r: Vec<AclRule> = Vec::new();
    let mut i: usize = 0;
    while i < rules.len()
        invariant
            i <= rules.len(),
            rule_models(r@) == rule_models(rules@).take(i as int),
        decreases rules.len() - i,
    {
        let ghost before = rule_models(r@);
        r.push(rules[i].duplicate());
        proof {
            assert(rule_models(r@) =~= before.push(rules@[i as int]@));
            assert(rule_models(rules@).take(i + 1) =~= rule_models(rules@).take(i as int).push(rules@[i as int]@));
        }
        i += 1;
    }
    assert(rule_models(rules@).take(rules.len() as int) =~= rule_models(rules@));
    r
}

impl AclEngine {
    /// A copy of the engine, with the same mode and rules.
    pub fn duplicate(&self) -> (r: Self)
        ensures
            r@ == self@,
    {
        AclEngine {
            mode: self.mode,
            allowlist: duplicate_rules(&self.allowlist),
            blocklist: duplicate_rules(&self.blocklist),
        }
    }
}

/// The first blocklist denial for `cmd args`, scanning rules from `i`: a
/// matching rule without constraints denies outright, one with constraints
/// denies through its first violated constraint.
pub open spec fn block_deny(rules: Seq<RuleModel>, i: int, cmd: Seq<char>, args: Seq<Seq<char>>) -> Option<Seq<char>>
    decreases rules.len() - i,
{
    if i < 0 || i >= rules.len() {
        None
    } else {
        let r = rules[i];
        if pattern_matches(cmd, r.pattern) {
            if r.args.len() == 0 {
                Some(msg_blocked(cmd, r.reason))
            } else {
                match constraints_deny(r.args, 0, args, cmd, r.reason) {
                    Some(d) => Some(d),
                    None => block_deny(rules, i + 1, cmd, args),
                }
            }
        } else {
            block_deny(rules, i + 1, cmd, args)
        }
    }
}

/// The reason of the first rule from `j` whose pattern matches `name`.
pub open spec fn first_match_reason(rules: Seq<RuleModel>, j: int, name: Seq<char>) -> Option<Seq<char>>
    decreases rules.len() - j,
{
    if j < 0 || j >= rules.len() {
        None
    } else if pattern_matches(name, rules[j].pattern) {
        Some(rules[j].reason)
    } else {
        first_match_reason(rules, j + 1, name)
    }
}

/// The first denial of a substituted command (from `k`) by name alone.
pub open spec fn subst_deny(rules: Seq<RuleModel>, inners: Seq<Seq<char>>, k: int) -> Option<Seq<char>>
    decreases inners.len() - k,
{
    if k < 0 || k >= inners.len() {
        None
    } else {
        let toks = tokenize_spec(inners[k]);
        if toks.len() == 0 {
            subst_deny(rules, inners, k + 1)
        } else {
            match first_match_reason(rules, 0, toks[0]) {
                Some(reason) => Some(msg_inner(toks[0], reason)),
                None => subst_deny(rules, inners, k + 1),
            }
        }
    }
}

/// Some rule from `i` matches `cmd` and none of its constraints is violated.
pub open spec fn allowed_by(rules: Seq<RuleModel>, i: int, cmd: Seq<char>, args: Seq<Seq<char>>) -> bool
    decreases rules.len() - i,
{
    if i < 0 || i >= rules.len() {
        false
    } else {
        (pattern_matches(cmd, rules[i].pattern) && constraints_deny(
            rules[i].args,
            0,
            args,
            cmd,
            rules[i].reason,
        ) is None) || allowed_by(rules, i + 1, cmd, args)
    }
}

/// The verdict for one sub-command (no separators): blocklist first, then (off
/// Admin mode) substituted commands against the blocklist, then the allowlist.
pub open spec fn single_verdict(eng: EngineModel, line: Seq<char>) -> Option<Seq<char>> {
    let toks = tokenize_spec(line);
    if toks.len() == 0 {
        None
    } else {
        let cmd = toks[0];
        let args = toks.subrange(1, toks.len() as int);
        match block_deny(eng.blocklist, 0, cmd, args) {
            Some(d) => Some(d),
            None => {
                let inner = if eng.mode != Mode::Admin {
                    subst_deny(eng.blocklist, substitutions(line), 0)
                } else {
                    None
                };
                match inner {
                    Some(d) => Some(d),
                    None => if eng.allowlist.len() > 0 && !allowed_by(eng.allowlist, 0, cmd, args) {
                        Some(msg_not_allowed(cmd, eng.mode))
                    } else {
                        None
                    },
                }
            },
        }
    }
}

/// The first denied sub-command from `i`.
pub open spec fn first_sub_deny(eng: EngineModel, subs: Seq<Seq<char>>, i: int) -> Option<Seq<char>>
    decreases subs.len() - i,
{
    if i < 0 || i >= subs.len() {
        None
    } else {
        match single_verdict(eng, subs[i]) {
            Some(d) => Some(d),
            None => first_sub_deny(eng, subs, i + 1),
        }
    }
}

/// The verdict for a whole command line: in Kids mode any command
/// substitution is denied; otherwise the first denied sub-command decides.
pub open spec fn acl_verdict(eng: EngineModel, line: Seq<char>) -> Option<Seq<char>> {
    if eng.mode == Mode::Kids && has_substitution(line) {
        Some(msg_kids_substitution())
    } else {
        first_sub_deny(eng, split_spec(line), 0)
    }
}

fn block_denial(rules: &Vec<AclRule>, cmd: &String, args: &Vec<String>) -> (r: Option<String>)
    ensures
        opt_view(r) == block_deny(rule_models(rules@), 0, cmd@, views(args@)),
{
    let ghost models = rule_models(rules@);
    let mut i: usize = 0;
    while i < rules.len()
        invariant
            i <= rules.len(),
            models == rule_models(rules@),
            block_deny(models, 0, cmd@, views(args@)) == block_deny(models, i as int, cmd@, views(args@)),
        decreases rules.len() - i,
    {
        let rule = &rules[i];
        assert(models[i as int] == rule@);
        if matches_pattern(cmd.as_str(), rule.pattern.as_str()) {
            if rule.args.len() == 0 {
                return Some(build_blocked(cmd.as_str(), rule.reason.as_str()));
            }
            match constraints_denial(&rule.args, args, cmd.as_str(), rule.reason.as_str()) {
                Some(d) => {
                    return Some(d);
                },
                None => {},
            }
        }
        i += 1;
    }
    None
}

fn first_matching_reason(rules: &Vec<AclRule>, name: &String) -> (r: Option<String>)
    ensures
        opt_view(r) == first_match_reason(rule_models(rules@), 0, name@),
{
    let ghost models = rule_models(rules@);
    let mut j: usize = 0;
    while j < rules.len()
        invariant
            j <= rules.len(),
            models == rule_models(rules@),
            first_match_reason(models, 0, name@) == first_match_reason(models, j as int, name@),
        decreases rules.len() - j,
    {
        assert(models[j as int] == rules@[j as int]@);
        if matches_pattern(name.as_str(), rules[j].pattern.as_str()) {
            return Some(rules[j].reason.clone());
        }
        j += 1;
    }
    None
}

fn subst_denial(rules: &Vec<AclRule>, line: &str) -> (r: Option<String>)
    ensures
        opt_view(r) == subst_deny(rule_models(rules@), substitutions(line@), 0),
{
    let inners = extract_substitution_commands(line);
    let ghost iv = views(inners@);
    let mut k: usize = 0;
    while k < inners.len()
        invariant
            k <= inners.len(),
            iv == views(inners@),
            iv == substitutions(line@),
            subst_deny(rule_models(rules@), iv, 0) == subst_deny(rule_models(rules@), iv, k as int),
        decreases inners.len() - k,
    {
        assert(iv[k as int] == inners@[k as int]@);
        let toks = tokenize(inners[k].as_str());
        if toks.len() > 0 {
            assert(views(toks@)[0] == toks@[0]@);
            match first_matching_reason(rules, &toks[0]) {
                Some(reason) => {
                    return Some(build_inner(toks[0].as_str(), reason.as_str()));
                },
                None => {},
            }
        }
        k += 1;
    }
    None
}

fn allowlist_admits(rules: &Vec<AclRule>, cmd: &String, args: &Vec<String>) -> (r: bool)
    ensures
        r == allowed_by(rule_models(rules@), 0, cmd@, views(args@)),
{
    let ghost models = rule_models(rules@);
    let mut i: usize = 0;
    while i < rules.len()
        invariant
            i <= rules.len(),
            models == rule_models(rules@),
            allowed_by(models, 0, cmd@, views(args@)) == allowed_by(models, i as int, cmd@, views(args@)),
        decreases rules.len() - i,
    {
        let rule = &rules[i];
        assert(models[i as int] == rule@);
        if matches_pattern(cmd.as_str(), rule.pattern.as_str()) {
            if constraints_denial(&rule.args, args, cmd.as_str(), rule.reason.as_str()).is_none() {
                return true;
            }
        }
        i += 1;
    }
    false
}

/// Clones `v[from..]`.
fn tail_strings(v: &Vec<String>, from: usize) -> (r: Vec<String>)
    requires
        from <= v.len(),
    ensures
        views(r@) == views(v@).subrange(from as int, v@.len() as int),
{
    let mut r: Vec<String> = Vec::new();
    let mut i = from;
    while i < v.len()
        invariant
            from <= i <= v.len(),
            views(r@) == views(v@).subrange(from as int, i as int),
        decreases v.len() - i,
    {
        let ghost before = views(r@);
        let c = v[i].clone();
        assert(c@ == v@[i as int]@);
        r.push(c);
        i += 1;
        assert(views(r@) =~= before.push(c@));
        assert(views(r@) =~= views(v@).subrange(from as int, i as int));
    }
    r
}

impl AclEngine {
    /// The verdict for a single sub-command (no separators).
    fn evaluate_single(&self, command_line: &str) -> (r: Verdict)
        ensures
            r@ == single_verdict(self@, command_line@),
    {
        let tokens = tokenize(command_line);
        if tokens.len() == 0 {
            return Verdict::Allow;
        }
        let cmd = &tokens[0];
        let args = tail_strings(&tokens, 1);
        assert(views(tokens@)[0] == cmd@);
        match block_denial(&self.blocklist, cmd, &args) {
            Some(d) => {
                return Verdict::Deny(d);
            },
            None => {},
        }
        if self.mode != Mode::Admin {
            match subst_denial(&self.blocklist, command_line) {
                Some(d) => {
                    return Verdict::Deny(d);
                },
                None => {},
            }
        }
        if self.allowlist.len() > 0 && !allowlist_admits(&self.allowlist, cmd, &args) {
            return Verdict::Deny(build_not_allowed(cmd.as_str(), self.mode));
        }
        Verdict::Allow
    }

    /// Evaluates a command line against the ACL rules.
    ///
    /// In Kids mode any command substitution (`$(...)`, backticks, `<(...)`,
    /// `>(...)`) is denied outright. Otherwise the line is split on `|`, `;`,
    /// `&&`, `||`, `&` and newlines, and each sub-command is evaluated on its
    /// own; the first denied sub-command denies the whole line, so
    /// `ls | sudo rm -rf /` cannot slip through.
    pub fn evaluate(&self, command_line: &str) -> (r: Verdict)
        ensures
            r@ == acl_verdict(self@, command_line@),
    {
        if self.mode == Mode::Kids && contains_command_substitution(command_line) {
            return Verdict::Deny(
                String::from_str("Command substitution ($(), ``, <()) is not allowed in Kids mode"),
            );
        }
        let subcommands = split_into_subcommands(command_line);
        let ghost subs = views(subcommands@);
        let mut i: usize = 0;
        while i < subcommands.len()
            invariant
                i <= subcommands.len(),
                subs == views(subcommands@),
                subs == split_spec(command_line@),
                !(self.mode == Mode::Kids && has_substitution(command_line@)),
                first_sub_deny(self@, subs, 0) == first_sub_deny(self@, subs, i as int),
            decreases subcommands.len() - i,
        {
            assert(subs[i as int] == subcommands@[i as int]@);
            match self.evaluate_single(subcommands[i].as_str()) {
                Verdict::Deny(reason) => {
                    return Verdict::Deny(reason);
                },
                Verdict::Allow => {},
            }
            i += 1;
        }
        Verdict::Allow
    }
}

} // verus!

verus! {

// ---------------------------------------------------------------------------
// Default rule sets
// ---------------------------------------------------------------------------

/// A rule without argument constraints.
pub open spec fn simple_model(pattern: Seq<char>, reason: Seq<char>) -> RuleModel {
    RuleModel { pattern, args: Seq::empty(), reason }
}

/// A `git` rule that admits only the sub-commands whose arguments match
/// `glob` (e.g. `status*`): `git status` passes it, `git push` does not.
pub open spec fn git_model(glob: Seq<char>, reason: Seq<char>) -> RuleModel {
    RuleModel { pattern: "git"@, args: seq![ConstraintModel::MatchGlob(glob)], reason }
}

/// The Kids allowlist: a fixed set of safe commands (the tutor command `?`
/// written as the glob `[?]`, which matches `?` alone) and the read-only git
/// sub-commands `status`, `log`, `diff` and `branch`.
pub open spec fn kids_allowlist() -> Seq<RuleModel> {
    seq![
        simple_model("ls"@, "List directory contents"@),
        simple_model("cd"@, "Change directory"@),
        simple_model("pwd"@, "Print working directory"@),
        simple_model("echo"@, "Print text"@),
        simple_model("cat"@, "View file contents"@),
        simple_model("cowsay"@, "Fun cow message"@),
        simple_model("cowthink"@, "Fun cow thought"@),
        simple_model("fortune"@, "Random quote"@),
        simple_model("clear"@, "Clear screen"@),
        simple_model("help"@, "Show help"@),
        simple_model("[?]"@, "Ask AI tutor"@),
        simple_model("ai"@, "Ask AI tutor"@),
        simple_model("exit"@, "Exit the shell"@),
        simple_model("quit"@, "Exit the shell"@),
        simple_model("mode"@, "Show or switch mode"@),
        simple_model("snapshots"@, "List snapshots"@),
        simple_model("undo"@, "Undo last command"@),
        simple_model("redo"@, "Redo last undone command"@),
        simple_model("true"@, "No-op success"@),
        simple_model("false"@, "No-op failure"@),
        simple_model("test"@, "Test expression"@),
        simple_model("date"@, "Show date and time"@),
        simple_model("whoami"@, "Show current user"@),
        git_model("status*"@, "View git status"@),
        git_model("log*"@, "View git log"@),
        git_model("diff*"@, "View git diff"@),
        git_model("branch*"@, "List git branches"@),
    ]
}

/// The Kids blocklist: any command with `--no-preserve-root`.
pub open spec fn kids_blocklist() -> Seq<RuleModel> {
    seq![RuleModel {
        pattern: "*"@,
        args: seq![ConstraintModel::NotContain("--no-preserve-root"@)],
        reason: "Destructive flag blocked"@,
    }]
}

/// The Agent blocklist: `sudo`, `su`, `rm --no-preserve-root`, `mkfs*`, `dd`,
/// `rm` with `/` as its second argument (`rm -rf /`) and `passwd`.
pub open spec fn agent_blocklist() -> Seq<RuleModel> {
    seq![
        simple_model("sudo"@, "Privilege escalation blocked in agent mode"@),
        simple_model("su"@, "User switching blocked in agent mode"@),
        RuleModel {
            pattern: "rm"@,
            args: seq![ConstraintModel::NotContain("--no-preserve-root"@)],
            reason: "Root filesystem preservation bypass blocked"@,
        },
        simple_model("mkfs*"@, "Filesystem formatting blocked in agent mode"@),
        simple_model("dd"@, "Block device operations blocked in agent mode"@),
        RuleModel {
            pattern: "rm"@,
            args: seq![ConstraintModel::NotAt(1, "/"@)],
            reason: "Recursive deletion of the root filesystem blocked in agent mode"@,
        },
        simple_model("passwd"@, "Password changes blocked in agent mode"@),
    ]
}

/// The default engine of a mode.
pub open spec fn default_engine(mode: Mode) -> EngineModel {
    match mode {
        Mode::Kids => EngineModel { mode, allowlist: kids_allowlist(), blocklist: kids_blocklist() },
        Mode::Agent => EngineModel { mode, allowlist: Seq::empty(), blocklist: agent_blocklist() },
        Mode::Admin => EngineModel { mode, allowlist: Seq::empty(), blocklist: Seq::empty() },
    }
}

fn simple_rule(cmd: &str, reason: &str) -> (r: AclRule)
    ensures
        r@ == simple_model(cmd@, reason@),
{
    let r = AclRule { pattern: String::from_str(cmd), args: Vec::new(), reason: String::from_str(reason) };
    assert(r@.args =~= Seq::<ConstraintModel>::empty());
    r
}

fn pattern_rule(cmd: &str, subcmd: &str, reason: &str) -> (r: AclRule)
    ensures
        r@ == (RuleModel { pattern: cmd@, args: seq![ConstraintModel::MatchGlob(subcmd@ + "*"@)], reason: reason@ }),
{
    let mut glob = String::from_str(subcmd);
    glob.append("*");
    let mut args: Vec<ArgConstraint> = Vec::new();
    args.push(ArgConstraint::MustMatchGlob(glob));
    let r = AclRule { pattern: String::from_str(cmd), args, reason: String::from_str(reason) };
    assert(r@.args =~= seq![ConstraintModel::MatchGlob(subcmd@ + "*"@)]);
    r
}

impl AclEngine {
    /// Kids mode: strict allowlist of safe commands.
    fn kids_default() -> (r: Self)
        ensures
            r@ == default_engine(Mode::Kids),
    {
        let mut allow: Vec<AclRule> = Vec::new();
        allow.push(simple_rule("ls", "List directory contents"));
        allow.push(simple_rule("cd", "Change directory"));
        allow.push(simple_rule("pwd", "Print working directory"));
        allow.push(simple_rule("echo", "Print text"));
        allow.push(simple_rule("cat", "View file contents"));
        allow.push(simple_rule("cowsay", "Fun cow message"));
        allow.push(simple_rule("cowthink", "Fun cow thought"));
        allow.push(simple_rule("fortune", "Random quote"));
        allow.push(simple_rule("clear", "Clear screen"));
        allow.push(simple_rule("help", "Show help"));
        allow.push(simple_rule("[?]", "Ask AI tutor"));
        allow.push(simple_rule("ai", "Ask AI tutor"));
        allow.push(simple_rule("exit", "Exit the shell"));
        allow.push(simple_rule("quit", "Exit the shell"));
        allow.push(simple_rule("mode", "Show or switch mode"));
        allow.push(simple_rule("snapshots", "List snapshots"));
        allow.push(simple_rule("undo", "Undo last command"));
        allow.push(simple_rule("redo", "Redo last undone command"));
        allow.push(simple_rule("true", "No-op success"));
        allow.push(simple_rule("false", "No-op failure"));
        allow.push(simple_rule("test", "Test expression"));
        allow.push(simple_rule("date", "Show date and time"));
        allow.push(simple_rule("whoami", "Show current user"));
        allow.push(pattern_rule("git", "status", "View git status"));
        allow.push(pattern_rule("git", "log", "View git log"));
        allow.push(pattern_rule("git", "diff", "View git diff"));
        allow.push(pattern_rule("git", "branch", "List git branches"));
        proof {
            reveal_strlit("status");
            reveal_strlit("log");
            reveal_strlit("diff");
            reveal_strlit("branch");
            reveal_strlit("*");
            reveal_strlit("status*");
            reveal_strlit("log*");
            reveal_strlit("diff*");
            reveal_strlit("branch*");
            assert("status"@ + "*"@ =~= "status*"@);
            assert("log"@ + "*"@ =~= "log*"@);
            assert("diff"@ + "*"@ =~= "diff*"@);
            assert("branch"@ + "*"@ =~= "branch*"@);
        }
        let mut cs: Vec<ArgConstraint> = Vec::new();
        cs.push(ArgConstraint::MustNotContain(String::from_str("--no-preserve-root")));
        let mut block: Vec<AclRule> = Vec::new();
        block.push(AclRule {
            pattern: String::from_str("*"),
            args: cs,
            reason: String::from_str("Destructive flag blocked"),
        });
        let r = AclEngine { mode: Mode::Kids, allowlist: allow, blocklist: block };
        assert(r@.allowlist =~= kids_allowlist());
        assert(r@.blocklist[0].args =~= kids_blocklist()[0].args);
        assert(r@.blocklist =~= kids_blocklist());
        r
    }

    /// Agent mode: blocklist only, everything else allowed.
    fn agent_default() -> (r: Self)
        ensures
            r@ == default_engine(Mode::Agent),
    {
        let mut block: Vec<AclRule> = Vec::new();
        block.push(simple_rule("sudo", "Privilege escalation blocked in agent mode"));
        block.push(simple_rule("su", "User switching blocked in agent mode"));
        let mut cs: Vec<ArgConstraint> = Vec::new();
        cs.push(ArgConstraint::MustNotContain(String::from_str("--no-preserve-root")));
        block.push(AclRule {
            pattern: String::from_str("rm"),
            args: cs,
            reason: String::from_str("Root filesystem preservation bypass blocked"),
        });
        block.push(simple_rule("mkfs*", "Filesystem formatting blocked in agent mode"));
        block.push(simple_rule("dd", "Block device operations blocked in agent mode"));
        let mut root_cs: Vec<ArgConstraint> = Vec::new();
        root_cs.push(ArgConstraint::PositionalMustNotMatch { index: 1, pattern: String::from_str("/") });
        block.push(AclRule {
            pattern: String::from_str("rm"),
            args: root_cs,
            reason: String::from_str("Recursive deletion of the root filesystem blocked in agent mode"),
        });
        block.push(simple_rule("passwd", "Password changes blocked in agent mode"));
        let r = AclEngine { mode: Mode::Agent, allowlist: Vec::new(), blocklist: block };
        assert(r@.blocklist[2].args =~= agent_blocklist()[2].args);
        assert(r@.blocklist[5].args =~= agent_blocklist()[5].args);
        assert(r@.blocklist =~= agent_blocklist());
        assert(r@.allowlist =~= Seq::<RuleModel>::empty());
        r
    }

    /// Admin mode: everything allowed.
    fn admin_default() -> (r: Self)
        ensures
            r@ == default_engine(Mode::Admin),
    {
        let r = AclEngine { mode: Mode::Admin, allowlist: Vec::new(), blocklist: Vec::new() };
        assert(r@.allowlist =~= Seq::<RuleModel>::empty());
        assert(r@.blocklist =~= Seq::<RuleModel>::empty());
        r
    }

    /// The default ACL engine of a mode: Kids has a strict allowlist, Agent a
    /// blocklist of dangerous commands, Admin no rules.
    pub fn new(mode: Mode) -> (r: Self)
        ensures
            r@ == default_engine(mode),
    {
        match mode {
            Mode::Kids => Self::kids_default(),
            Mode::Agent => Self::agent_default(),
            Mode::Admin => Self::admin_default(),
        }
    }
}

} // verus!

verus! {

/// The rules that `with_config` adds for configured patterns.
pub open spec fn config_rules(patterns: Seq<Seq<char>>, reason: Seq<char>) -> Seq<RuleModel> {
    patterns.map_values(|p: Seq<char>| simple_model(p, reason))
}

/// The engine of a mode with the profile's extra rules. Each `extra_block`
/// pattern is appended to the blocklist. Each `extra_allow` pattern is
/// appended to the allowlist where the mode has one (Kids); where the mode
/// allows every command it does not block (Agent, Admin) an extra allow adds
/// nothing, and the allowlist stays empty, since a non-empty allowlist would
/// admit only what it lists.
pub open spec fn configured_engine(mode: Mode, extra_allow: Seq<Seq<char>>, extra_block: Seq<Seq<char>>) -> EngineModel {
    let d = default_engine(mode);
    let blocks = config_rules(extra_block, "Blocked by profile config"@);
    if d.allowlist.len() > 0 {
        EngineModel {
            mode,
            allowlist: d.allowlist + config_rules(extra_allow, "Allowed by profile config"@),
            blocklist: d.blocklist + blocks,
        }
    } else {
        EngineModel { mode, allowlist: d.allowlist, blocklist: d.blocklist + blocks }
    }
}

fn push_config_rules(rules: &mut Vec<AclRule>, patterns: &Vec<String>, reason: &str)
    ensures
        rule_models(final(rules)@) == rule_models(old(rules)@) + config_rules(views(patterns@), reason@),
{
    let ghost start = rule_models(rules@);
    let mut i: usize = 0;
    while i < patterns.len()
        invariant
            i <= patterns.len(),
            rule_models(rules@) == start + config_rules(views(patterns@).take(i as int), reason@),
        decreases patterns.len() - i,
    {
        let ghost before = rules@;
        rules.push(AclRule { pattern: patterns[i].clone(), args: Vec::new(), reason: String::from_str(reason) });
        proof {
            assert(rules@.last()@.args =~= Seq::<ConstraintModel>::empty());
            assert(views(patterns@).take(i + 1) =~= views(patterns@).take(i as int).push(patterns@[i as int]@));
            assert(rule_models(rules@) =~= rule_models(before).push(rules@.last()@));
            assert(config_rules(views(patterns@).take(i + 1), reason@) =~= config_rules(views(patterns@).take(i as int), reason@).push(simple_model(patterns@[i as int]@, reason@)));
        }
        i += 1;
    }
    assert(views(patterns@).take(patterns.len() as int) =~= views(patterns@));
}

impl AclEngine {
    /// The mode's default engine plus the profile's extra rules
    /// (`configured_engine`): `extra_block` patterns are appended to the
    /// blocklist; `extra_allow` patterns are appended to the allowlist where
    /// the mode has one, and add nothing where the mode allows every command
    /// it does not block.
    pub fn with_config(mode: Mode, config: Option<&AclConfig>) -> (r: Self)
        ensures
            r@ == match config {
                Some(c) => configured_engine(mode, views(c.extra_allow@), views(c.extra_block@)),
                None => default_engine(mode),
            },
    {
        let mut engine = Self::new(mode);
        match config {
            Some(cfg) => {
                if engine.allowlist.len() > 0 {
                    push_config_rules(&mut engine.allowlist, &cfg.extra_allow, "Allowed by profile config");
                }
                push_config_rules(&mut engine.blocklist, &cfg.extra_block, "Blocked by profile config");
            },
            None => {},
        }
        engine
    }
}

/// Schema for a command's dangerous flags and argument patterns.
#[derive(Debug, Clone)]
pub struct CommandSchema {
    /// The command name this schema describes.
    pub command: String,
    /// Flags that are always dangerous.
    pub dangerous_flags: Vec<String>,
    /// Argument glob patterns that are dangerous.
    pub dangerous_args: Vec<String>,
    /// Why the command is dangerous.
    pub reason: String,
}

/// The mathematical content of a `CommandSchema`.
pub struct SchemaModel {
    pub command: Seq<char>,
    pub dangerous_flags: Seq<Seq<char>>,
    pub dangerous_args: Seq<Seq<char>>,
    pub reason: Seq<char>,
}

impl View for CommandSchema {
    type V = SchemaModel;

    open spec fn view(&self) -> SchemaModel {
        SchemaModel {
            command: self.command@,
            dangerous_flags: views(self.dangerous_flags@),
            dangerous_args: views(self.dangerous_args@),
            reason: self.reason@,
        }
    }
}

/// The built-in schemas of common dangerous commands.
pub open spec fn default_schema_models() -> Seq<SchemaModel> {
    seq![
        SchemaModel {
            command: "rm"@,
            dangerous_flags: seq!["-rf"@, "-r"@, "--force"@, "--no-preserve-root"@],
            dangerous_args: seq!["/*"@, "/"@],
            reason: "Recursive/forced file deletion"@,
        },
        SchemaModel {
            command: "mv"@,
            dangerous_flags: seq!["--force"@],
            dangerous_args: Seq::empty(),
            reason: "Force file move/overwrite"@,
        },
        SchemaModel {
            command: "cp"@,
            dangerous_flags: seq!["--force"@, "-r"@],
            dangerous_args: Seq::empty(),
            reason: "Force recursive copy"@,
        },
        SchemaModel {
            command: "chmod"@,
            dangerous_flags: seq!["-R"@, "--recursive"@],
            dangerous_args: seq!["/*"@, "/"@],
            reason: "Recursive permission change on root"@,
        },
        SchemaModel {
            command: "chown"@,
            dangerous_flags: seq!["-R"@, "--recursive"@],
            dangerous_args: seq!["/*"@, "/"@],
            reason: "Recursive ownership change on root"@,
        },
        SchemaModel {
            command: "dd"@,
            dangerous_flags: Seq::empty(),
            dangerous_args: seq!["/dev/sd*"@, "/dev/nvme*"@],
            reason: "Direct disk write operations"@,
        },
        SchemaModel {
            command: "git"@,
            dangerous_flags: seq!["--force"@],
            dangerous_args: Seq::empty(),
            reason: "Force git operations"@,
        },
        SchemaModel {
            command: "sudo"@,
            dangerous_flags: Seq::empty(),
            dangerous_args: Seq::empty(),
            reason: "Elevated privilege execution"@,
        },
        SchemaModel {
            command: "mkfs"@,
            dangerous_flags: Seq::empty(),
            dangerous_args: seq!["/dev/sd*"@, "/dev/nvme*"@],
            reason: "Filesystem formatting"@,
        },
    ]
}

fn strs1(a: &str) -> (v: Vec<String>)
    ensures
        views(v@) == seq![a@],
{
    let mut v: Vec<String> = Vec::new();
    v.push(String::from_str(a));
    assert(views(v@) =~= seq![a@]);
    v
}

fn strs2(a: &str, b: &str) -> (v: Vec<String>)
    ensures
        views(v@) == seq![a@, b@],
{
    let mut v: Vec<String> = Vec::new();
    v.push(String::from_str(a));
    v.push(String::from_str(b));
    assert(views(v@) =~= seq![a@, b@]);
    v
}

fn strs4(a: &str, b: &str, c: &str, d: &str) -> (v: Vec<String>)
    ensures
        views(v@) == seq![a@, b@, c@, d@],
{
    let mut v: Vec<String> = Vec::new();
    v.push(String::from_str(a));
    v.push(String::from_str(b));
    v.push(String::from_str(c));
    v.push(String::from_str(d));
    assert(views(v@) =~= seq![a@, b@, c@, d@]);
    v
}

fn no_strs() -> (v: Vec<String>)
    ensures
        views(v@) == Seq::<Seq<char>>::empty(),
{
    let v: Vec<String> = Vec::new();
    assert(views(v@) =~= Seq::<Seq<char>>::empty());
    v
}

fn schema(command: &str, dangerous_flags: Vec<String>, dangerous_args: Vec<String>, reason: &str) -> (s: CommandSchema)
    ensures
        s@ == (SchemaModel {
            command: command@,
            dangerous_flags: views(dangerous_flags@),
            dangerous_args: views(dangerous_args@),
            reason: reason@,
        }),
{
    CommandSchema {
        command: String::from_str(command),
        dangerous_flags,
        dangerous_args,
        reason: String::from_str(reason),
    }
}

/// The default built-in command schemas for common dangerous commands.
pub fn default_schemas() -> (r: Vec<CommandSchema>)
    ensures
        r@.map_values(|s: CommandSchema| s@) == default_schema_models(),
{
    let mut r: Vec<CommandSchema> = Vec::new();
    r.push(schema("rm", strs4("-rf", "-r", "--force", "--no-preserve-root"), strs2("/*", "/"), "Recursive/forced file deletion"));
    r.push(schema("mv", strs1("--force"), no_strs(), "Force file move/overwrite"));
    r.push(schema("cp", strs2("--force", "-r"), no_strs(), "Force recursive copy"));
    r.push(schema("chmod", strs2("-R", "--recursive"), strs2("/*", "/"), "Recursive permission change on root"));
    r.push(schema("chown", strs2("-R", "--recursive"), strs2("/*", "/"), "Recursive ownership change on root"));
    r.push(schema("dd", no_strs(), strs2("/dev/sd*", "/dev/nvme*"), "Direct disk write operations"));
    r.push(schema("git", strs1("--force"), no_strs(), "Force git operations"));
    r.push(schema("sudo", no_strs(), no_strs(), "Elevated privilege execution"));
    r.push(schema("mkfs", no_strs(), strs2("/dev/sd*", "/dev/nvme*"), "Filesystem formatting"));
    assert(r@.map_values(|s: CommandSchema| s@) =~= default_schema_models());
    r
}

} // verus!

verus! {

// ---------------------------------------------------------------------------
// Laws
// ---------------------------------------------------------------------------

proof fn lemma_block_deny_some(rules: Seq<RuleModel>, i: int, r: int, cmd: Seq<char>, args: Seq<Seq<char>>)
    requires
        0 <= i <= r < rules.len(),
        rules[r].args.len() == 0,
        pattern_matches(cmd, rules[r].pattern),
    ensures
        block_deny(rules, i, cmd, args) is Some,
    decreases r - i,
{
    if i < r {
        let x = rules[i];
        if pattern_matches(cmd, x.pattern) && x.args.len() != 0 {
            if constraints_deny(x.args, 0, args, cmd, x.reason) is None {
                lemma_block_deny_some(rules, i + 1, r, cmd, args);
            }
        } else if !pattern_matches(cmd, x.pattern) {
            lemma_block_deny_some(rules, i + 1, r, cmd, args);
        }
    }
}

proof fn lemma_first_sub_deny_some(eng: EngineModel, subs: Seq<Seq<char>>, i: int, k: int)
    requires
        0 <= i <= k < subs.len(),
        single_verdict(eng, subs[k]) is Some,
    ensures
        first_sub_deny(eng, subs, i) is Some,
    decreases k - i,
{
    if i < k && single_verdict(eng, subs[i]) is None {
        lemma_first_sub_deny_some(eng, subs, i + 1, k);
    }
}

proof fn lemma_first_sub_deny_none(eng: EngineModel, subs: Seq<Seq<char>>, i: int)
    requires
        0 <= i <= subs.len(),
        forall|k: int| i <= k < subs.len() ==> single_verdict(eng, #[trigger] subs[k]) is None,
    ensures
        first_sub_deny(eng, subs, i) is None,
    decreases subs.len() - i,
{
    if i < subs.len() {
        lemma_first_sub_deny_none(eng, subs, i + 1);
    }
}

/// One denied sub-command denies the whole line: a command line cannot pass
/// the ACL by chaining a denied command after an allowed one (`ls | sudo
/// bash`, `true && sudo bash`, `echo hi ; rm -rf /`).
pub proof fn law_denied_subcommand_denies_line(eng: EngineModel, line: Seq<char>, k: int)
    requires
        0 <= k < split_spec(line).len(),
        single_verdict(eng, split_spec(line)[k]) is Some,
    ensures
        acl_verdict(eng, line) is Some,
{
    lemma_first_sub_deny_some(eng, split_spec(line), 0, k);
}

/// The blocklist overrides the allowlist: when a blocklist rule without
/// argument constraints matches the command name of any sub-command, the
/// line is denied, whatever the allowlist holds.
pub proof fn law_blocklist_overrides_allowlist(eng: EngineModel, line: Seq<char>, k: int, r: int)
    requires
        0 <= k < split_spec(line).len(),
        tokenize_spec(split_spec(line)[k]).len() > 0,
        0 <= r < eng.blocklist.len(),
        eng.blocklist[r].args.len() == 0,
        pattern_matches(tokenize_spec(split_spec(line)[k])[0], eng.blocklist[r].pattern),
    ensures
        acl_verdict(eng, line) is Some,
{
    let toks = tokenize_spec(split_spec(line)[k]);
    lemma_block_deny_some(eng.blocklist, 0, r, toks[0], toks.subrange(1, toks.len() as int));
    law_denied_subcommand_denies_line(eng, line, k);
}

/// With a non-empty allowlist, a sub-command whose name no allowlist rule
/// admits denies the line.
pub proof fn law_allowlist_is_exclusive(eng: EngineModel, line: Seq<char>, k: int)
    requires
        0 <= k < split_spec(line).len(),
        tokenize_spec(split_spec(line)[k]).len() > 0,
        eng.allowlist.len() > 0,
        !allowed_by(
            eng.allowlist,
            0,
            tokenize_spec(split_spec(line)[k])[0],
            tokenize_spec(split_spec(line)[k]).subrange(1, tokenize_spec(split_spec(line)[k]).len() as int),
        ),
    ensures
        acl_verdict(eng, line) is Some,
{
    law_denied_subcommand_denies_line(eng, line, k);
}

/// In Kids mode every command line with command substitution is denied.
pub proof fn law_kids_denies_substitution(eng: EngineModel, line: Seq<char>)
    requires
        eng.mode == Mode::Kids,
        has_substitution(line),
    ensures
        acl_verdict(eng, line) == Some(msg_kids_substitution()),
{
}

/// The default Admin engine allows every command line.
pub proof fn law_admin_allows_everything(line: Seq<char>)
    ensures
        acl_verdict(default_engine(Mode::Admin), line) is None,
{
    let eng = default_engine(Mode::Admin);
    let subs = split_spec(line);
    assert forall|k: int| 0 <= k < subs.len() implies single_verdict(eng, #[trigger] subs[k]) is None by {
        let toks = tokenize_spec(subs[k]);
        if toks.len() > 0 {
            assert(block_deny(eng.blocklist, 0, toks[0], toks.subrange(1, toks.len() as int)) is None);
        }
    }
    lemma_first_sub_deny_none(eng, subs, 0);
}

/// The empty command line is allowed by every engine.
pub proof fn law_empty_line_allowed(eng: EngineModel)
    ensures
        acl_verdict(eng, Seq::empty()) is None,
{
    assert(split_run(Seq::<char>::empty()) == split_init());
    assert(trim(Seq::<char>::empty()) =~= Seq::<char>::empty()) by {
        assert(trim_start(Seq::<char>::empty()) =~= Seq::<char>::empty());
    }
}

/// A pattern listed in a profile's `extra_block` blocks a sub-command with
/// exactly that name, whatever the mode and the extra allows.
pub proof fn law_configured_block_denies(
    mode: Mode,
    extra_allow: Seq<Seq<char>>,
    extra_block: Seq<Seq<char>>,
    line: Seq<char>,
    k: int,
    j: int,
)
    requires
        0 <= k < split_spec(line).len(),
        tokenize_spec(split_spec(line)[k]).len() > 0,
        0 <= j < extra_block.len(),
        tokenize_spec(split_spec(line)[k])[0] == extra_block[j],
    ensures
        acl_verdict(configured_engine(mode, extra_allow, extra_block), line) is Some,
{
    let eng = configured_engine(mode, extra_allow, extra_block);
    let d = default_engine(mode).blocklist;
    let r = d.len() + j;
    assert(eng.blocklist[r] == simple_model(extra_block[j], "Blocked by profile config"@));
    law_blocklist_overrides_allowlist(eng, line, k, r);
}

proof fn lemma_allowed_append(a: Seq<RuleModel>, extra: Seq<RuleModel>, i: int, cmd: Seq<char>, args: Seq<Seq<char>>)
    requires
        0 <= i,
        allowed_by(a, i, cmd, args),
    ensures
        allowed_by(a + extra, i, cmd, args),
    decreases a.len() - i,
{
    assert((a + extra)[i] == a[i]);
    if !(pattern_matches(cmd, a[i].pattern) && constraints_deny(a[i].args, 0, args, cmd, a[i].reason) is None) {
        lemma_allowed_append(a, extra, i + 1, cmd, args);
    }
}

proof fn lemma_single_widens(mode: Mode, extra_allow: Seq<Seq<char>>, line: Seq<char>)
    requires
        single_verdict(default_engine(mode), line) is None,
    ensures
        single_verdict(configured_engine(mode, extra_allow, Seq::empty()), line) is None,
{
    let d = default_engine(mode);
    let c = configured_engine(mode, extra_allow, Seq::empty());
    assert(config_rules(Seq::<Seq<char>>::empty(), "Blocked by profile config"@) =~= Seq::<RuleModel>::empty());
    let toks = tokenize_spec(line);
    if toks.len() > 0 {
        let cmd = toks[0];
        let args = toks.subrange(1, toks.len() as int);
        if d.allowlist.len() > 0 {
            assert(c.blocklist =~= d.blocklist);
            assert(allowed_by(d.allowlist, 0, cmd, args));
            lemma_allowed_append(d.allowlist, config_rules(extra_allow, "Allowed by profile config"@), 0, cmd, args);
        } else {
            assert(c.blocklist =~= d.blocklist);
        }
    }
}

proof fn lemma_subs_widen(mode: Mode, extra_allow: Seq<Seq<char>>, subs: Seq<Seq<char>>, i: int)
    requires
        first_sub_deny(default_engine(mode), subs, i) is None,
    ensures
        first_sub_deny(configured_engine(mode, extra_allow, Seq::empty()), subs, i) is None,
    decreases subs.len() - i,
{
    if 0 <= i < subs.len() {
        lemma_single_widens(mode, extra_allow, subs[i]);
        lemma_subs_widen(mode, extra_allow, subs, i + 1);
    }
}

/// Extra allows only widen what a mode allows: a command line that the
/// mode's default rules allow is allowed by the mode's rules with any
/// `extra_allow` patterns and no `extra_block` patterns.
pub proof fn law_extra_allow_only_widens(mode: Mode, extra_allow: Seq<Seq<char>>, line: Seq<char>)
    requires
        acl_verdict(default_engine(mode), line) is None,
    ensures
        acl_verdict(configured_engine(mode, extra_allow, Seq::empty()), line) is None,
{
    lemma_subs_widen(mode, extra_allow, split_spec(line), 0);
}

proof fn lemma_sub_deny_shift(eng: EngineModel, s1: Seq<Seq<char>>, s2: Seq<Seq<char>>, j: int)
    requires
        0 <= j,
    ensures
        first_sub_deny(eng, s1 + s2, s1.len() + j) == first_sub_deny(eng, s2, j),
    decreases s2.len() - j,
{
    if j < s2.len() {
        assert((s1 + s2)[s1.len() + j] == s2[j]);
        lemma_sub_deny_shift(eng, s1, s2, j + 1);
        assert(s1.len() + j + 1 == s1.len() + (j + 1));
    }
}

proof fn lemma_sub_deny_concat(eng: EngineModel, s1: Seq<Seq<char>>, s2: Seq<Seq<char>>, i: int)
    requires
        0 <= i <= s1.len(),
    ensures
        first_sub_deny(eng, s1 + s2, i) == match first_sub_deny(eng, s1, i) {
            Some(d) => Some(d),
            None => first_sub_deny(eng, s2, 0),
        },
    decreases s1.len() - i,
{
    if i < s1.len() {
        assert((s1 + s2)[i] == s1[i]);
        lemma_sub_deny_concat(eng, s1, s2, i + 1);
    } else {
        lemma_sub_deny_shift(eng, s1, s2, 0);
    }
}

/// The lines of a command are checked in turn: for a first line that ends
/// outside quotes, escapes and parentheses, the verdict on it, a newline and
/// a second line is the first line's denial, or else the second line's
/// verdict. (In Kids mode, for lines without command substitution.)
pub proof fn law_lines_checked_in_turn(eng: EngineModel, a: Seq<char>, b: Seq<char>)
    requires
        split_closed(a),
        eng.mode != Mode::Kids || (!has_substitution(a) && !has_substitution(b) && !has_substitution(a + seq!['\n'] + b)),
    ensures
        acl_verdict(eng, a + seq!['\n'] + b) == match acl_verdict(eng, a) {
            Some(d) => Some(d),
            None => acl_verdict(eng, b),
        },
{
    law_newline_separates(a, b);
    lemma_sub_deny_concat(eng, split_spec(a), split_spec(b), 0);
}

} // verus!
