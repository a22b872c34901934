//! The top-level configuration: named profiles, the default profile, global
//! ACL overrides; merging of user and system configuration; profile
//! resolution.

use vstd::prelude::*;
use crate::profile::{is_default_profile, opt_str, AclConfig, Profile};
use crate::error::OmniShellError;
use crate::paths::{config_dir, join_path, path_extension_of, path_join};
use crate::text::{concat2, str_eq};

verus! {

broadcast use vstd::string::group_string_axioms;

/// Profiles keyed by name, in insertion order, with no name twice.
#[derive(Debug)]
pub struct ProfileMap {
    entries: Vec<(String, Profile)>,
}

/// The names of a sequence of entries.
pub open spec fn entry_names(es: Seq<(Seq<char>, Profile)>) -> Seq<Seq<char>> {
    es.map_values(|e: (Seq<char>, Profile)| e.0)
}

/// Whether the entry at `i` is stored under `name`.
pub open spec fn named_at(es: Seq<(Seq<char>, Profile)>, name: Seq<char>, i: int) -> bool {
    0 <= i < es.len() && es[i].0 == name
}

/// The position of `name` among the entries, if present.
pub open spec fn find_entry(es: Seq<(Seq<char>, Profile)>, name: Seq<char>) -> Option<int> {
    if exists|i: int| #[trigger] named_at(es, name, i) {
        Some(choose|i: int| #[trigger] named_at(es, name, i))
    } else {
        None
    }
}

/// The profile stored under `name`.
pub open spec fn lookup(es: Seq<(Seq<char>, Profile)>, name: Seq<char>) -> Option<Profile> {
    match find_entry(es, name) {
        Some(i) => Some(es[i].1),
        None => None,
    }
}

/// The entries after storing `p` under `name`: the existing entry is replaced
/// in place, otherwise the pair is appended.
pub open spec fn insert_entry(es: Seq<(Seq<char>, Profile)>, name: Seq<char>, p: Profile) -> Seq<(Seq<char>, Profile)> {
    match find_entry(es, name) {
        Some(i) => es.update(i, (name, p)),
        None => es.push((name, p)),
    }
}

impl ProfileMap {
    #[verifier::type_invariant]
    spec fn names_unique(&self) -> bool {
        entry_names(self@).no_duplicates()
    }
}

impl View for ProfileMap {
    type V = Seq<(Seq<char>, Profile)>;

    closed spec fn view(&self) -> Seq<(Seq<char>, Profile)> {
        self.entries@.map_values(|e: (String, Profile)| (e.0@, e.1))
    }
}

proof fn lemma_find_unique(es: Seq<(Seq<char>, Profile)>, name: Seq<char>, i: int)
    requires
        entry_names(es).no_duplicates(),
        0 <= i < es.len(),
        es[i].0 == name,
    ensures
        find_entry(es, name) == Some(i),
{
    let names = entry_names(es);
    assert(names.len() == es.len());
    assert(named_at(es, name, i));
    let j = choose|j: int| #[trigger] named_at(es, name, j);
    assert(names[i] == es[i].0);
    assert(names[j] == es[j].0);
    if i != j {
        assert(names[i] != names[j]);
    }
    assert(find_entry(es, name) == Some(j));
}

impl ProfileMap {
    /// An empty map.
    pub fn new() -> (r: Self)
        ensures
            r@ == Seq::<(Seq<char>, Profile)>::empty(),
    {
        let entries: Vec<(String, Profile)> = Vec::new();
        assert(entry_names(entries@.map_values(|e: (String, Profile)| (e.0@, e.1))) =~= Seq::<Seq<char>>::empty());
        let r = ProfileMap { entries };
        assert(r@ =~= Seq::<(Seq<char>, Profile)>::empty());
        r
    }

    fn position(&self, name: &str) -> (r: Option<usize>)
        ensures
            match r {
                Some(i) => find_entry(self@, name@) == Some(i as int),
                None => find_entry(self@, name@) is None,
            },
    {
        proof {
            use_type_invariant(self);
        }
        let mut i: usize = 0;
        while i < self.entries.len()
            invariant
                i <= self.entries.len(),
                entry_names(self@).no_duplicates(),
                forall|k: int| 0 <= k < i ==> self@[k].0 != name@,
            decreases self.entries.len() - i,
        {
            assert(self@[i as int].0 == self.entries@[i as int].0@);
            if str_eq(self.entries[i].0.as_str(), name) {
                proof {
                    lemma_find_unique(self@, name@, i as int);
                }
                return Some(i);
            }
            i += 1;
        }
        None
    }

    /// Stores `profile` under `name`, returning the profile it replaces.
    pub fn insert(&mut self, name: String, profile: Profile) -> (r: Option<Profile>)
        ensures
            final(self)@ == insert_entry(old(self)@, name@, profile),
            r == lookup(old(self)@, name@),
    {
        proof {
            use_type_invariant(&*self);
        }
        match self.position(name.as_str()) {
            Some(i) => {
                let ghost old_view = self@;
                let ghost nm = name@;
                let mut entries: Vec<(String, Profile)> = Vec::new();
                std::mem::swap(&mut entries, &mut self.entries);
                let old_entry = entries.remove(i);
                entries.insert(i, (name, profile));
                proof {
                    assert(entries@.map_values(|e: (String, Profile)| (e.0@, e.1)) =~= old_view.update(i as int, (nm, profile)));
                    assert forall|a: int, b: int| 0 <= a < b < entries@.len() implies entries@[a].0@ != entries@[b].0@ by {
                        assert(entry_names(old_view)[a] != entry_names(old_view)[b]);
                    }
                    assert(entry_names(entries@.map_values(|e: (String, Profile)| (e.0@, e.1))).no_duplicates());
                }
                self.entries = entries;
                Some(old_entry.1)
            },
            None => {
                let ghost old_view = self@;
                let ghost nm = name@;
                let mut entries: Vec<(String, Profile)> = Vec::new();
                std::mem::swap(&mut entries, &mut self.entries);
                entries.push((name, profile));
                proof {
                    assert(entries@.map_values(|e: (String, Profile)| (e.0@, e.1)) =~= old_view.push((nm, profile)));
                    assert forall|a: int, b: int| 0 <= a < b < entries@.len() implies entries@[a].0@ != entries@[b].0@ by {
                        if b == entries@.len() - 1 {
                            assert(old_view[a].0 == entries@[a].0@);
                            assert(!named_at(old_view, nm, a));
                        } else {
                            assert(entry_names(old_view)[a] != entry_names(old_view)[b]);
                        }
                    }
                    assert(entry_names(entries@.map_values(|e: (String, Profile)| (e.0@, e.1))).no_duplicates());
                }
                self.entries = entries;
                None
            },
        }
    }

    /// The profile stored under `name`.
    pub fn get(&self, name: &str) -> (r: Option<&Profile>)
        ensures
            match r {
                Some(p) => lookup(self@, name@) == Some(*p),
                None => lookup(self@, name@) is None,
            },
    {
        match self.position(name) {
            Some(i) => Some(&self.entries[i].1),
            None => None,
        }
    }

    /// Whether a profile is stored under `name`.
    pub fn contains_key(&self, name: &str) -> (r: bool)
        ensures
            r == (lookup(self@, name@) is Some),
    {
        self.position(name).is_some()
    }

    /// The number of profiles.
    pub fn len(&self) -> (r: usize)
        ensures
            r == self@.len(),
    {
        self.entries.len()
    }

    /// Whether the map is empty.
    pub fn is_empty(&self) -> (r: bool)
        ensures
            r == (self@.len() == 0),
    {
        self.entries.len() == 0
    }

    /// The entries, in insertion order.
    pub fn entries(&self) -> (r: &Vec<(String, Profile)>)
        ensures
            r@.map_values(|e: (String, Profile)| (e.0@, e.1)) == self@,
    {
        &self.entries
    }
}

/// Whether no name occurs twice among the entries.
pub open spec fn unique_names(es: Seq<(Seq<char>, Profile)>) -> bool {
    entry_names(es).no_duplicates()
}

/// With unique names, the lookup of the name at `k` finds the entry at `k`.
proof fn lemma_lookup_at(es: Seq<(Seq<char>, Profile)>, m: Seq<char>, k: int)
    requires
        unique_names(es),
        named_at(es, m, k),
    ensures
        lookup(es, m) == Some(es[k].1),
{
    lemma_find_unique(es, m, k);
}

/// Storing under `n` keeps names unique, and changes the lookup of `n` only.
proof fn lemma_insert_entry(es: Seq<(Seq<char>, Profile)>, n: Seq<char>, p: Profile)
    requires
        unique_names(es),
    ensures
        unique_names(insert_entry(es, n, p)),
        forall|m: Seq<char>| #[trigger] lookup(insert_entry(es, n, p), m) == if m == n {
            Some(p)
        } else {
            lookup(es, m)
        },
{
    let es2 = insert_entry(es, n, p);
    let names = entry_names(es);
    let names2 = entry_names(es2);
    assert(names.len() == es.len());
    assert(names2.len() == es2.len());
    assert forall|a: int, b: int| 0 <= a < b < es2.len() implies names2[a] != names2[b] by {
        assert(names2[a] == es2[a].0);
        assert(names2[b] == es2[b].0);
        match find_entry(es, n) {
            Some(i) => {
                if a != i && b != i {
                    assert(names[a] != names[b]);
                } else if a == i {
                    assert(named_at(es, n, i));
                    if es[b].0 == n {
                        assert(names[a] == names[b]);
                    }
                } else {
                    assert(named_at(es, n, i));
                    if es[a].0 == n {
                        assert(names[a] == names[b]);
                    }
                }
            },
            None => {
                if b == es.len() {
                    assert(!named_at(es, n, a));
                } else {
                    assert(names[a] != names[b]);
                }
            },
        }
    }
    assert(unique_names(es2));
    assert forall|m: Seq<char>| #[trigger] lookup(es2, m) == if m == n {
        Some(p)
    } else {
        lookup(es, m)
    } by {
        match find_entry(es, n) {
            Some(i) => {
                assert(named_at(es, n, i));
                assert(named_at(es2, n, i));
                if m == n {
                    lemma_lookup_at(es2, m, i);
                } else {
                    match find_entry(es, m) {
                        Some(k) => {
                            assert(named_at(es, m, k));
                            assert(k != i);
                            assert(named_at(es2, m, k));
                            lemma_lookup_at(es, m, k);
                            lemma_lookup_at(es2, m, k);
                        },
                        None => {
                            assert forall|k: int| !named_at(es2, m, k) by {
                                if named_at(es2, m, k) && k != i {
                                    assert(named_at(es, m, k));
                                }
                            }
                        },
                    }
                }
            },
            None => {
                let last = es.len() as int;
                if m == n {
                    assert(named_at(es2, m, last));
                    lemma_lookup_at(es2, m, last);
                } else {
                    match find_entry(es, m) {
                        Some(k) => {
                            assert(named_at(es, m, k));
                            assert(named_at(es2, m, k));
                            lemma_lookup_at(es, m, k);
                            lemma_lookup_at(es2, m, k);
                        },
                        None => {
                            assert forall|k: int| !named_at(es2, m, k) by {
                                if named_at(es2, m, k) && k != last {
                                    assert(named_at(es, m, k));
                                }
                            }
                        },
                    }
                }
            },
        }
    }
}

/// The top-level configuration.
#[derive(Debug)]
pub struct OmniShellConfig {
    /// All profiles keyed by name.
    pub profile: ProfileMap,
    /// Default profile name.
    pub default_profile: Option<String>,
    /// Global ACL configuration.
    pub acl: Option<AclConfig>,
}

impl Default for OmniShellConfig {
    /// One default profile, named `default`, which is also the default
    /// profile name.
    fn default() -> (r: Self)
        ensures
            r.profile@.len() == 1,
            r.profile@[0].0 == "default"@,
            is_default_profile(r.profile@[0].1),
            opt_str(r.default_profile) == Some("default"@),
            r.acl is None,
    {
        let mut profile = ProfileMap::new();
        profile.insert(String::from_str("default"), Profile::default());
        OmniShellConfig { profile, default_profile: Some(String::from_str("default")), acl: None }
    }
}

/// The entries after storing each of `add`, in order.
pub open spec fn insert_all(es: Seq<(Seq<char>, Profile)>, add: Seq<(Seq<char>, Profile)>) -> Seq<(Seq<char>, Profile)>
    decreases add.len(),
{
    if add.len() == 0 {
        es
    } else {
        let x = add.last();
        insert_entry(insert_all(es, add.drop_last()), x.0, x.1)
    }
}

/// Merges two configurations; the system one wins on conflicts: each system
/// profile replaces the user profile of the same name, and a system default
/// profile name replaces the user one.
pub fn merge_configs(user: OmniShellConfig, system: OmniShellConfig) -> (r: OmniShellConfig)
    ensures
        r.profile@ == insert_all(user.profile@, system.profile@),
        opt_str(r.default_profile) == match system.default_profile {
            Some(d) => Some(d@),
            None => opt_str(user.default_profile),
        },
        r.acl == user.acl,
{
    let mut user = user;
    let ghost base = user.profile@;
    let ghost add = system.profile@;
    let ghost user_default = user.default_profile;
    let ghost user_acl = user.acl;
    let OmniShellConfig { profile: sys_profile, default_profile: sys_default, acl: _ } = system;
    let mut rest = sys_profile.entries;
    let n = rest.len();
    let mut i: usize = 0;
    while rest.len() > 0
        invariant
            n == add.len(),
            rest.len() + i == n,
            rest@.map_values(|e: (String, Profile)| (e.0@, e.1)) == add.skip(i as int),
            user.profile@ == insert_all(base, add.take(i as int)),
            user.default_profile == user_default,
            user.acl == user_acl,
        decreases rest.len(),
    {
        let ghost before = rest@;
        let (name, profile) = rest.remove(0);
        proof {
            assert(add.skip(i as int)[0] == add[i as int]);
            assert(before.map_values(|e: (String, Profile)| (e.0@, e.1))[0] == (before[0].0@, before[0].1));
            let bm = before.map_values(|e: (String, Profile)| (e.0@, e.1));
            let rm = rest@.map_values(|e: (String, Profile)| (e.0@, e.1));
            assert forall|k: int| 0 <= k < rest@.len() implies #[trigger] rm[k] == add.skip(i + 1)[k] by {
                assert(rest@[k] == before[k + 1]);
                assert(bm[k + 1] == add.skip(i as int)[k + 1]);
            }
            assert(rest@.map_values(|e: (String, Profile)| (e.0@, e.1)) =~= add.skip(i + 1));
            assert(add.take(i + 1).drop_last() =~= add.take(i as int));
            assert(add.take(i + 1).last() == add[i as int]);
        }
        user.profile.insert(name, profile);
        i += 1;
    }
    proof {
        assert(add.take(n as int) =~= add);
    }
    match sys_default {
        Some(d) => {
            user.default_profile = Some(d);
        },
        None => {},
    }
    user
}

/// With unique names, the lookup in `es.push(x)` finds `x` under its own name
/// and otherwise what `es` holds.
proof fn lemma_lookup_push(es: Seq<(Seq<char>, Profile)>, x: (Seq<char>, Profile), m: Seq<char>)
    requires
        unique_names(es.push(x)),
    ensures
        unique_names(es),
        lookup(es.push(x), m) == if m == x.0 {
            Some(x.1)
        } else {
            lookup(es, m)
        },
{
    let all = es.push(x);
    let last = es.len() as int;
    assert(entry_names(es) =~= entry_names(all).drop_last());
    if m == x.0 {
        assert(named_at(all, m, last));
        lemma_lookup_at(all, m, last);
    } else {
        match find_entry(es, m) {
            Some(k) => {
                assert(named_at(es, m, k));
                assert(named_at(all, m, k));
                lemma_lookup_at(es, m, k);
                lemma_lookup_at(all, m, k);
            },
            None => {
                assert forall|k: int| !named_at(all, m, k) by {
                    if named_at(all, m, k) && k != last {
                        assert(named_at(es, m, k));
                    }
                }
            },
        }
    }
}

/// Merging configurations: under every name, the merged profiles hold the
/// system profile where the system configuration defines that name, and the
/// user profile otherwise; no name occurs twice.
pub proof fn law_merge_system_wins(user: Seq<(Seq<char>, Profile)>, system: Seq<(Seq<char>, Profile)>, m: Seq<char>)
    requires
        unique_names(user),
        unique_names(system),
    ensures
        unique_names(insert_all(user, system)),
        lookup(insert_all(user, system), m) == match lookup(system, m) {
            Some(p) => Some(p),
            None => lookup(user, m),
        },
    decreases system.len(),
{
    if system.len() > 0 {
        let x = system.last();
        let rest = system.drop_last();
        assert(rest.push(x) =~= system);
        lemma_lookup_push(rest, x, m);
        law_merge_system_wins(user, rest, m);
        lemma_insert_entry(insert_all(user, rest), x.0, x.1);
    }
}

/// The name of the first profile (in order) bound to OS user `user`.
pub open spec fn first_bound(es: Seq<(Seq<char>, Profile)>, user: Seq<char>, i: int) -> Option<Seq<char>>
    decreases es.len() - i,
{
    if i < 0 || i >= es.len() {
        None
    } else if opt_str(es[i].1.username) == Some(user) {
        Some(es[i].0)
    } else {
        first_bound(es, user, i + 1)
    }
}

/// The profile chosen for a session: the first profile bound to the OS user,
/// which no request overrides; else the requested profile when it exists;
/// else the default profile name; else the first profile; else `default`.
pub open spec fn resolved_profile(
    es: Seq<(Seq<char>, Profile)>,
    default_profile: Option<Seq<char>>,
    cli: Option<Seq<char>>,
    user: Option<Seq<char>>,
) -> Seq<char> {
    let bound = match user {
        Some(u) => first_bound(es, u, 0),
        None => None,
    };
    if bound is Some {
        bound->0
    } else if cli is Some && lookup(es, cli->0) is Some {
        cli->0
    } else if default_profile is Some {
        default_profile->0
    } else if es.len() > 0 {
        es[0].0
    } else {
        "default"@
    }
}

/// A profile bound to the OS user is enforced: whatever profile is
/// requested, the session gets the first profile bound to the user.
pub proof fn law_user_binding_enforced(
    es: Seq<(Seq<char>, Profile)>,
    default_profile: Option<Seq<char>>,
    cli: Option<Seq<char>>,
    user: Seq<char>,
)
    requires
        first_bound(es, user, 0) is Some,
    ensures
        resolved_profile(es, default_profile, cli, Some(user)) == first_bound(es, user, 0)->0,
{
}

/// Without a bound profile, an existing requested profile is used.
pub proof fn law_request_used_when_unbound(
    es: Seq<(Seq<char>, Profile)>,
    default_profile: Option<Seq<char>>,
    cli: Seq<char>,
    user: Option<Seq<char>>,
)
    requires
        user is None || first_bound(es, user->0, 0) is None,
        lookup(es, cli) is Some,
    ensures
        resolved_profile(es, default_profile, Some(cli), user) == cli,
{
}

fn find_bound(es: &Vec<(String, Profile)>, user: &str) -> (r: Option<usize>)
    ensures
        match r {
            Some(i) => i < es.len() && first_bound(es@.map_values(|e: (String, Profile)| (e.0@, e.1)), user@, 0) == Some(es@[i as int].0@),
            None => first_bound(es@.map_values(|e: (String, Profile)| (e.0@, e.1)), user@, 0) is None,
        },
{
    let ghost v = es@.map_values(|e: (String, Profile)| (e.0@, e.1));
    let mut i: usize = es.len();
    let mut found: Option<usize> = None;
    while i > 0
        invariant
            i <= es.len(),
            v == es@.map_values(|e: (String, Profile)| (e.0@, e.1)),
            match found {
                Some(j) => j < es.len() && first_bound(v, user@, i as int) == Some(es@[j as int].0@),
                None => first_bound(v, user@, i as int) is None,
            },
        decreases i,
    {
        i -= 1;
        let hit = match &es[i].1.username {
            Some(u) => str_eq(u.as_str(), user),
            None => false,
        };
        assert(v[i as int] == (es@[i as int].0@, es@[i as int].1));
        if hit {
            found = Some(i);
        }
    }
    found
}

/// Resolves which profile a session uses, given the requested profile name
/// and the OS user name.
pub fn resolve_profile(config: &OmniShellConfig, cli_profile: Option<&str>, username: Option<&str>) -> (r: String)
    ensures
        r@ == resolved_profile(
            config.profile@,
            opt_str(config.default_profile),
            match cli_profile {
                Some(c) => Some(c@),
                None => None,
            },
            match username {
                Some(u) => Some(u@),
                None => None,
            },
        ),
{
    let entries = config.profile.entries();
    if let Some(user) = username {
        if let Some(i) = find_bound(entries, user) {
            return entries[i].0.clone();
        }
    }
    if let Some(name) = cli_profile {
        if config.profile.contains_key(name) {
            return String::from_str(name);
        }
    }
    match &config.default_profile {
        Some(d) => d.clone(),
        None => {
            if entries.len() > 0 {
                entries[0].0.clone()
            } else {
                String::from_str("default")
            }
        },
    }
}

/// The configuration file formats.
#[derive(Debug, Clone, Copy, PartialEq, Eq, Structural)]
pub enum ConfigFormat {
    Json,
    Toml,
}

/// The extension of a path (`Path::extension`).
///
/// Trusted: `Path::extension` gives what follows the final `.` of the file
/// name, none without a file name or without a `.` after its first
/// character (`path_extension_of`), as its documentation describes.
#[verifier::external_body]
fn path_extension(p: &str) -> (r: Option<String>)
    ensures
        match r {
            Some(e) => path_extension_of(p@) == Some(e@),
            None => path_extension_of(p@) is None,
        },
{
    match std::path::Path::new(p).extension() {
        Some(e) => Some(e.to_string_lossy().into_owned()),
        None => None,
    }
}

/// The format of a configuration file, by its extension: `.json` or
/// `.toml`; any other is refused.
pub fn config_format(path: &str) -> (r: Result<ConfigFormat, OmniShellError>)
    ensures
        path_extension_of(path@) == Some("json"@) ==> r == Ok::<ConfigFormat, OmniShellError>(ConfigFormat::Json),
        path_extension_of(path@) == Some("toml"@) ==> r == Ok::<ConfigFormat, OmniShellError>(ConfigFormat::Toml),
        path_extension_of(path@) != Some("json"@) && path_extension_of(path@) != Some("toml"@) ==> (r matches Err(OmniShellError::Config(m))
            && m@ == "Unknown config format: "@ + path@ + " (expected .toml or .json)"@),
{
    proof {
        reveal_strlit("json");
        reveal_strlit("toml");
        assert("json"@[0] != "toml"@[0]);
    }
    match path_extension(path) {
        Some(e) => {
            if str_eq(e.as_str(), "json") {
                return Ok(ConfigFormat::Json);
            }
            if str_eq(e.as_str(), "toml") {
                return Ok(ConfigFormat::Toml);
            }
        },
        None => {},
    }
    let a = concat2("Unknown config format: ", path);
    Err(OmniShellError::Config(concat2(a.as_str(), " (expected .toml or .json)")))
}

/// The configuration file of a directory: `config.json` when it exists
/// (JSON wins), else `config.toml` when it exists, else an error.
pub fn config_file_in(dir: &str, json_exists: bool, toml_exists: bool) -> (r: Result<String, OmniShellError>)
    ensures
        json_exists ==> (r matches Ok(p) && p@ == join_path(dir@, "config.json"@)),
        !json_exists && toml_exists ==> (r matches Ok(p) && p@ == join_path(dir@, "config.toml"@)),
        !json_exists && !toml_exists ==> (r matches Err(OmniShellError::Config(m)) && m@ == "No config file in "@ + dir@),
{
    if json_exists {
        Ok(path_join(dir, "config.json"))
    } else if toml_exists {
        Ok(path_join(dir, "config.toml"))
    } else {
        Err(OmniShellError::Config(concat2("No config file in ", dir)))
    }
}

/// The user's configuration directory: `omnishell` under the configuration
/// directory, or under `~/.config` when there is none.
pub fn user_config_dir() -> (r: String)
    ensures
        exists|base: Seq<char>| r@ == join_path(base, "omnishell"@),
{
    let base = match config_dir() {
        Some(d) => d,
        None => String::from_str("~/.config"),
    };
    path_join(base.as_str(), "omnishell")
}

/// The system configuration directory.
pub fn system_config_dir() -> (r: &'static str)
    ensures
        r@ == "/etc/omnishell"@,
{
    "/etc/omnishell"
}

/// The configuration from the user's and the system's, when found: merged
/// when both are, the one found otherwise, the default when neither is.
pub fn combine_configs(user: Option<OmniShellConfig>, system: Option<OmniShellConfig>) -> (r: OmniShellConfig)
    ensures
        match (user, system) {
            (Some(u), Some(s)) => {
                &&& r.profile@ == insert_all(u.profile@, s.profile@)
                &&& opt_str(r.default_profile) == match s.default_profile {
                    Some(d) => Some(d@),
                    None => opt_str(u.default_profile),
                }
                &&& r.acl == u.acl
            },
            (Some(u), None) => r == u,
            (None, Some(s)) => r == s,
            (None, None) => {
                &&& r.profile@.len() == 1
                &&& r.profile@[0].0 == "default"@
                &&& is_default_profile(r.profile@[0].1)
                &&& opt_str(r.default_profile) == Some("default"@)
                &&& r.acl is None
            },
        },
{
    match (user, system) {
        (Some(u), Some(s)) => merge_configs(u, s),
        (Some(u), None) => u,
        (None, Some(s)) => s,
        (None, None) => OmniShellConfig::default(),
    }
}

} // verus!
