//! Sandbox configuration for Kids mode: the jail root, read-only system
//! mounts, resource limits and namespaces, which paths a sandboxed session
//! may touch, and the steps that set a sandbox up. Performing those steps
//! (mounts, limits, namespaces) is the caller's part.

use vstd::prelude::*;
use crate::paths::{home_dir, join_path, path_has_prefix, path_join};
use crate::profile::Mode;
use crate::text::{concat2, string_of_range, chars_of};

verus! {

broadcast use vstd::string::group_string_axioms;

/// Linux resource limit types.
#[derive(Debug, Clone, Copy, PartialEq, Eq, Structural)]
pub enum RlimitResource {
    Cpu,
    FileSize,
    Data,
    Stack,
    Core,
    ResidentSet,
    Processes,
    OpenFiles,
    LockedMemory,
    AddressSpace,
}

/// A resource limit.
#[derive(Debug, Clone, Copy, PartialEq, Eq, Structural)]
pub struct ResourceLimit {
    pub resource: RlimitResource,
    pub soft: u64,
    pub hard: u64,
}

/// A bind mount.
#[derive(Debug, Clone)]
pub struct BindMount {
    /// Source path on the host.
    pub source: String,
    /// Destination path inside the sandbox.
    pub destination: String,
    /// Whether the mount is read-only.
    pub read_only: bool,
}

/// Sandbox configuration.
#[derive(Debug, Clone)]
pub struct SandboxConfig {
    pub enabled: bool,
    /// Root directory of the jail.
    pub root_dir: String,
    pub bind_mounts: Vec<BindMount>,
    pub rlimits: Vec<ResourceLimit>,
    pub new_pid_namespace: bool,
    pub new_network_namespace: bool,
}

/// (source, destination, read-only) of a mount.
pub open spec fn mount_view(m: BindMount) -> (Seq<char>, Seq<char>, bool) {
    (m.source@, m.destination@, m.read_only)
}

/// The views of a sequence of mounts.
pub open spec fn mount_views(s: Seq<BindMount>) -> Seq<(Seq<char>, Seq<char>, bool)> {
    s.map_values(|m: BindMount| mount_view(m))
}

/// The system directories mounted read-only into a Kids sandbox.
pub open spec fn kids_mounts() -> Seq<(Seq<char>, Seq<char>, bool)> {
    seq![("/usr"@, "/usr"@, true), ("/bin"@, "/bin"@, true), ("/lib"@, "/lib"@, true), ("/lib64"@, "/lib64"@, true)]
}

/// The resource limits of a Kids sandbox: 50/100 processes, 64/128 open
/// files, 10/50 MiB file size.
pub open spec fn kids_limits() -> Seq<ResourceLimit> {
    seq![
        ResourceLimit { resource: RlimitResource::Processes, soft: 50, hard: 100 },
        ResourceLimit { resource: RlimitResource::OpenFiles, soft: 64, hard: 128 },
        ResourceLimit { resource: RlimitResource::FileSize, soft: 10485760, hard: 52428800 },
    ]
}

/// The Kids sandbox for a home directory.
pub open spec fn is_kids_config(c: SandboxConfig, home: Seq<char>) -> bool {
    &&& c.enabled
    &&& c.root_dir@ == join_path(home, ".omnishell/sandbox"@)
    &&& mount_views(c.bind_mounts@) == kids_mounts()
    &&& c.rlimits@ == kids_limits()
    &&& c.new_pid_namespace
    &&& c.new_network_namespace
}

/// The disabled sandbox.
pub open spec fn is_disabled_config(c: SandboxConfig) -> bool {
    &&& !c.enabled
    &&& c.root_dir@ == "/"@
    &&& c.bind_mounts@.len() == 0
    &&& c.rlimits@.len() == 0
    &&& !c.new_pid_namespace
    &&& !c.new_network_namespace
}

/// Whether `path` lies under `base`, component-wise (`Path::starts_with`).
///
/// Trusted: `Path::starts_with` holds exactly when the components of `base`
/// (as `Path::components` yields them) are a prefix of those of `path`
/// (`path_has_prefix`).
#[verifier::external_body]
pub(crate) fn path_starts_with(path: &str, base: &str) -> (r: bool)
    ensures
        r == path_has_prefix(path@, base@),
{
    std::path::Path::new(path).starts_with(base)
}

/// Whether a sandbox lets a session touch `path`, for the given home
/// directory: everything when disabled; otherwise only paths under the home
/// directory, the sandbox root or `/tmp`.
pub open spec fn path_allowed(c: SandboxConfig, path: Seq<char>, home: Seq<char>) -> bool {
    ||| !c.enabled
    ||| path_has_prefix(path, home)
    ||| path_has_prefix(path, c.root_dir@)
    ||| path_has_prefix(path, "/tmp"@)
}

/// A path with its leading slashes removed.
pub open spec fn relative_part(p: Seq<char>) -> Seq<char>
    decreases p.len(),
{
    if p.len() > 0 && p[0] == '/' {
        relative_part(p.drop_first())
    } else {
        p
    }
}

/// Where a mount's source appears inside the jail.
pub open spec fn mount_target_of(root: Seq<char>, source: Seq<char>) -> Seq<char> {
    join_path(root, relative_part(source))
}

/// A step of setting up a sandbox.
#[derive(Debug, Clone)]
pub enum PrepareStep {
    /// Create the jail root (and its parents) if missing.
    CreateRoot(String),
    /// Bind-mount `source` at `target`, read-only or not.
    Mount { source: String, target: String, read_only: bool },
    /// Apply a resource limit to the shell (inherited by children).
    Limit(ResourceLimit),
}

/// The value of a step.
pub enum StepView {
    CreateRoot(Seq<char>),
    Mount(Seq<char>, Seq<char>, bool),
    Limit(ResourceLimit),
}

/// The value of a step.
pub open spec fn step_view(s: PrepareStep) -> StepView {
    match s {
        PrepareStep::CreateRoot(r) => StepView::CreateRoot(r@),
        PrepareStep::Mount { source, target, read_only } => StepView::Mount(source@, target@, read_only),
        PrepareStep::Limit(l) => StepView::Limit(l),
    }
}

/// What a set-up step's failure means: a jail root that cannot be created
/// ends the set-up with an error; a failing bind mount or resource limit is
/// only reported, and the set-up goes on.
pub open spec fn step_result(step: StepView, error: Option<Seq<char>>) -> Result<(), Seq<char>> {
    match error {
        None => Ok(()),
        Some(e) => match step {
            StepView::CreateRoot(_) => Err("Failed to create sandbox root: "@ + e),
            _ => Ok(()),
        },
    }
}

/// Decides whether the set-up goes on after `step`, which failed with
/// `error` when that is set.
pub fn setup_step_result(step: &PrepareStep, error: Option<String>) -> (r: Result<(), String>)
    ensures
        match (r, step_result(step_view(*step), match error {
            Some(e) => Some(e@),
            None => None,
        })) {
            (Ok(()), Ok(())) => true,
            (Err(m), Err(n)) => m@ == n,
            _ => false,
        },
{
    match error {
        None => Ok(()),
        Some(e) => match step {
            PrepareStep::CreateRoot(_) => Err(concat2("Failed to create sandbox root: ", e.as_str())),
            _ => Ok(()),
        },
    }
}

/// The steps that set up a sandbox: nothing when disabled; otherwise create
/// the root, mount each bind mount at its place inside the root, and apply
/// each limit, in that order.
pub open spec fn prepare_steps(c: SandboxConfig) -> Seq<StepView> {
    if !c.enabled {
        Seq::empty()
    } else {
        seq![StepView::CreateRoot(c.root_dir@)]
            + c.bind_mounts@.map_values(|m: BindMount| StepView::Mount(m.source@, mount_target_of(c.root_dir@, m.source@), m.read_only))
            + c.rlimits@.map_values(|l: ResourceLimit| StepView::Limit(l))
    }
}

fn mount(source: &str, destination: &str) -> (r: BindMount)
    ensures
        mount_view(r) == (source@, destination@, true),
{
    BindMount { source: String::from_str(source), destination: String::from_str(destination), read_only: true }
}

fn strip_leading_slashes(p: &str) -> (r: String)
    ensures
        r@ == relative_part(p@),
{
    let v = chars_of(p);
    let mut i: usize = 0;
    assert(v@.subrange(0, v@.len() as int) =~= v@);
    while i < v.len() && v[i] == '/'
        invariant
            i <= v.len(),
            v@ == p@,
            relative_part(p@) == relative_part(v@.subrange(i as int, v@.len() as int)),
        decreases v.len() - i,
    {
        assert(v@.subrange(i as int, v@.len() as int).drop_first() =~= v@.subrange(i + 1, v@.len() as int));
        i += 1;
    }
    string_of_range(&v, i, v.len())
}

/// The sandbox manager.
pub struct Sandbox {
    config: SandboxConfig,
}

impl Sandbox {
    /// A sandbox with the given configuration.
    pub fn new(config: SandboxConfig) -> (r: Self)
        ensures
            r.config() == config,
    {
        Sandbox { config }
    }

    /// The configuration.
    pub closed spec fn config(&self) -> SandboxConfig {
        self.config
    }

    /// The Kids sandbox: rooted at `.omnishell/sandbox` under the home
    /// directory, with `/usr`, `/bin`, `/lib` and `/lib64` mounted read-only,
    /// process, open-file and file-size limits, and fresh PID and network
    /// namespaces.
    pub fn kids_default(home_dir: &str) -> (r: SandboxConfig)
        ensures
            is_kids_config(r, home_dir@),
    {
        let root_dir = path_join(home_dir, ".omnishell/sandbox");
        let bind_mounts: Vec<BindMount> = vec![
            mount("/usr", "/usr"),
            mount("/bin", "/bin"),
            mount("/lib", "/lib"),
            mount("/lib64", "/lib64"),
        ];
        let rlimits: Vec<ResourceLimit> = vec![
            ResourceLimit { resource: RlimitResource::Processes, soft: 50, hard: 100 },
            ResourceLimit { resource: RlimitResource::OpenFiles, soft: 64, hard: 128 },
            ResourceLimit { resource: RlimitResource::FileSize, soft: 10 * 1024 * 1024, hard: 50 * 1024 * 1024 },
        ];
        assert(mount_views(bind_mounts@) =~= kids_mounts());
        assert(rlimits@ =~= kids_limits());
        SandboxConfig { enabled: true, root_dir, bind_mounts, rlimits, new_pid_namespace: true, new_network_namespace: true }
    }

    /// The disabled sandbox of Agent and Admin mode.
    pub fn disabled() -> (r: SandboxConfig)
        ensures
            is_disabled_config(r),
    {
        SandboxConfig {
            enabled: false,
            root_dir: String::from_str("/"),
            bind_mounts: Vec::new(),
            rlimits: Vec::new(),
            new_pid_namespace: false,
            new_network_namespace: false,
        }
    }

    /// The sandbox of a mode: the Kids sandbox for Kids, disabled otherwise.
    pub fn config_for_mode(mode: Mode, home_dir: &str) -> (r: SandboxConfig)
        ensures
            mode == Mode::Kids ==> is_kids_config(r, home_dir@),
            mode != Mode::Kids ==> is_disabled_config(r),
    {
        match mode {
            Mode::Kids => Self::kids_default(home_dir),
            Mode::Agent | Mode::Admin => Self::disabled(),
        }
    }

    /// Whether sandboxing is enabled.
    pub fn is_enabled(&self) -> (r: bool)
        ensures
            r == self.config().enabled,
    {
        self.config.enabled
    }

    /// Whether the session may touch `path`, given the home directory.
    pub fn is_path_allowed_in(&self, path: &str, home: &str) -> (r: bool)
        ensures
            r == path_allowed(self.config(), path@, home@),
    {
        if !self.config.enabled {
            return true;
        }
        path_starts_with(path, home) || path_starts_with(path, self.config.root_dir.as_str())
            || path_starts_with(path, "/tmp")
    }

    /// Whether the session may touch `path`: everything when disabled;
    /// otherwise only paths under the user's home directory (`/home` when it
    /// is unknown), the sandbox root or `/tmp`.
    pub fn is_path_allowed(&self, path: &str) -> (r: bool)
        ensures
            !self.config().enabled ==> r,
            exists|home: Seq<char>| r == path_allowed(self.config(), path@, home),
    {
        let home = match home_dir() {
            Some(h) => h,
            None => String::from_str("/home"),
        };
        self.is_path_allowed_in(path, home.as_str())
    }

    /// The jail root.
    pub fn root_dir(&self) -> (r: &str)
        ensures
            r@ == self.config().root_dir@,
    {
        self.config.root_dir.as_str()
    }

    /// The bind mounts.
    pub fn bind_mounts(&self) -> (r: &[BindMount])
        ensures
            r@ == self.config().bind_mounts@,
    {
        self.config.bind_mounts.as_slice()
    }

    /// The resource limits.
    pub fn rlimits(&self) -> (r: &[ResourceLimit])
        ensures
            r@ == self.config().rlimits@,
    {
        self.config.rlimits.as_slice()
    }

    /// Where a mount's source appears inside the jail.
    pub fn mount_target(&self, bind: &BindMount) -> (r: String)
        ensures
            r@ == mount_target_of(self.config().root_dir@, bind.source@),
    {
        let rel = strip_leading_slashes(bind.source.as_str());
        path_join(self.config.root_dir.as_str(), rel.as_str())
    }

    /// The steps that set the sandbox up, in order.
    pub fn prepare_steps(&self) -> (r: Vec<PrepareStep>)
        ensures
            r@.map_values(|s: PrepareStep| step_view(s)) == prepare_steps(self.config()),
    {
        let mut r: Vec<PrepareStep> = Vec::new();
        if !self.config.enabled {
            assert(r@.map_values(|s: PrepareStep| step_view(s)) =~= prepare_steps(self.config()));
            return r;
        }
        let c = &self.config;
        let ghost mounts = c.bind_mounts@.map_values(|m: BindMount| StepView::Mount(m.source@, mount_target_of(c.root_dir@, m.source@), m.read_only));
        let ghost limits = c.rlimits@.map_values(|l: ResourceLimit| StepView::Limit(l));
        r.push(PrepareStep::CreateRoot(c.root_dir.clone()));
        let mut i: usize = 0;
        while i < c.bind_mounts.len()
            invariant
                c == &self.config,
                i <= c.bind_mounts.len(),
                mounts == c.bind_mounts@.map_values(|m: BindMount| StepView::Mount(m.source@, mount_target_of(c.root_dir@, m.source@), m.read_only)),
                r@.map_values(|s: PrepareStep| step_view(s)) == seq![StepView::CreateRoot(c.root_dir@)] + mounts.take(i as int),
            decreases c.bind_mounts.len() - i,
        {
            let b = &c.bind_mounts[i];
            let target = self.mount_target(b);
            let ghost before = r@;
            r.push(PrepareStep::Mount { source: b.source.clone(), target, read_only: b.read_only });
            proof {
                assert(mounts.take(i + 1) =~= mounts.take(i as int).push(mounts[i as int]));
                assert(r@.map_values(|s: PrepareStep| step_view(s)) =~= before.map_values(|s: PrepareStep| step_view(s)).push(mounts[i as int]));
            }
            i += 1;
        }
        let mut j: usize = 0;
        while j < c.rlimits.len()
            invariant
                c == &self.config,
                j <= c.rlimits.len(),
                mounts.len() == c.bind_mounts.len(),
                limits == c.rlimits@.map_values(|l: ResourceLimit| StepView::Limit(l)),
                r@.map_values(|s: PrepareStep| step_view(s)) == seq![StepView::CreateRoot(c.root_dir@)] + mounts + limits.take(j as int),
            decreases c.rlimits.len() - j,
        {
            let ghost before = r@;
            r.push(PrepareStep::Limit(c.rlimits[j]));
            proof {
                assert(limits.take(j + 1) =~= limits.take(j as int).push(limits[j as int]));
                assert(r@.map_values(|s: PrepareStep| step_view(s)) =~= before.map_values(|s: PrepareStep| step_view(s)).push(limits[j as int]));
            }
            j += 1;
        }
        proof {
            assert(mounts.take(c.bind_mounts.len() as int) =~= mounts);
            assert(limits.take(c.rlimits.len() as int) =~= limits);
        }
        r
    }

    /// The namespaces a child process enters: (PID, network); none when the
    /// sandbox is disabled.
    pub fn child_namespaces(&self) -> (r: (bool, bool))
        ensures
            r == (self.config().enabled && self.config().new_pid_namespace, self.config().enabled && self.config().new_network_namespace),
    {
        (self.config.enabled && self.config.new_pid_namespace, self.config.enabled && self.config.new_network_namespace)
    }
}

} // verus!
