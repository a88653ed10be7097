//! Workspaces: their identity and root, their lifecycle state machine, and their
//! configuration defaults.
use vstd::prelude::*;
use vstd::string::*;
use crate::path::{path_starts, path_starts_with};
use WorkspaceState::{Active, Created, Error, Indexing, Initializing, Paused, Ready, Recovering, Stopped};

verus! {

broadcast use vstd::string::group_string_axioms;

/// A registered workspace: an identifier, a display name and the root directory.
pub struct Workspace {
    pub id: String,
    pub name: String,
    pub root: String,
}

impl Workspace {
    pub fn new(id: String, name: String, root: String) -> (r: Self)
        ensures
            r.id@ == id@,
            r.name@ == name@,
            r.root@ == root@,
    {
        Workspace { id, name, root }
    }

    /// Whether `path` lies under the workspace root (`Path::starts_with` on components).
    pub fn validate_path(&self, path: &str) -> (r: bool)
        ensures
            r == path_starts(path@, self.root@),
    {
        path_starts_with(path, self.root.as_str())
    }
}

/// Lifecycle states of a workspace.
#[derive(Clone, Copy, Debug, PartialEq, Eq, Structural)]
pub enum WorkspaceState {
    Created,
    Initializing,
    Ready,
    Active,
    Paused,
    Indexing,
    Error,
    Recovering,
    Stopped,
}

/// The transitions the lifecycle allows: staying put, or one of the listed moves.
pub open spec fn allowed_transition(a: WorkspaceState, b: WorkspaceState) -> bool {
    a == b || match (a, b) {
        (Created, Initializing) => true,
        (Initializing, Ready) => true,
        (Initializing, Error) => true,
        (Ready, Active) => true,
        (Ready, Stopped) => true,
        (Active, Indexing) => true,
        (Active, Paused) => true,
        (Active, Error) => true,
        (Active, Stopped) => true,
        (Indexing, Active) => true,
        (Indexing, Error) => true,
        (Paused, Active) => true,
        (Paused, Stopped) => true,
        (Error, Recovering) => true,
        (Error, Stopped) => true,
        (Recovering, Active) => true,
        (Recovering, Error) => true,
        (Stopped, Initializing) => true,
        _ => false,
    }
}

/// The name `Debug` prints for a state.
pub open spec fn state_name(s: WorkspaceState) -> Seq<char> {
    match s {
        WorkspaceState::Created => "Created"@,
        WorkspaceState::Initializing => "Initializing"@,
        WorkspaceState::Ready => "Ready"@,
        WorkspaceState::Active => "Active"@,
        WorkspaceState::Paused => "Paused"@,
        WorkspaceState::Indexing => "Indexing"@,
        WorkspaceState::Error => "Error"@,
        WorkspaceState::Recovering => "Recovering"@,
        WorkspaceState::Stopped => "Stopped"@,
    }
}

/// The message of a refused transition.
pub open spec fn transition_error(a: WorkspaceState, b: WorkspaceState) -> Seq<char> {
    "Invalid workspace state transition from "@ + state_name(a) + " to "@ + state_name(b)
}

impl WorkspaceState {
    /// The state's name, as `Debug` prints it.
    pub fn name(self) -> (r: &'static str)
        ensures
            r@ == state_name(self),
    {
        match self {
            WorkspaceState::Created => "Created",
            WorkspaceState::Initializing => "Initializing",
            WorkspaceState::Ready => "Ready",
            WorkspaceState::Active => "Active",
            WorkspaceState::Paused => "Paused",
            WorkspaceState::Indexing => "Indexing",
            WorkspaceState::Error => "Error",
            WorkspaceState::Recovering => "Recovering",
            WorkspaceState::Stopped => "Stopped",
        }
    }

    pub fn can_transition_to(self, target: WorkspaceState) -> (r: bool)
        ensures
            r == allowed_transition(self, target),
    {
        if self == target {
            return true;
        }
        match (self, target) {
            (Created, Initializing) => true,
            (Initializing, Ready) => true,
            (Initializing, Error) => true,
            (Ready, Active) => true,
            (Ready, Stopped) => true,
            (Active, Indexing) => true,
            (Active, Paused) => true,
            (Active, Error) => true,
            (Active, Stopped) => true,
            (Indexing, Active) => true,
            (Indexing, Error) => true,
            (Paused, Active) => true,
            (Paused, Stopped) => true,
            (Error, Recovering) => true,
            (Error, Stopped) => true,
            (Recovering, Active) => true,
            (Recovering, Error) => true,
            (Stopped, Initializing) => true,
            _ => false,
        }
    }

    /// Moves to `target` when the lifecycle allows it; otherwise explains the refusal.
    pub fn transition_to(self, target: WorkspaceState) -> (r: Result<WorkspaceState, String>)
        ensures
            allowed_transition(self, target) ==> r == Ok::<WorkspaceState, String>(target),
            !allowed_transition(self, target) ==> (r is Err && r->Err_0@ == transition_error(
                self,
                target,
            )),
    {
        if self.can_transition_to(target) {
            Ok(target)
        } else {
            let mut msg = String::from_str("Invalid workspace state transition from ");
            msg.append(self.name());
            msg.append(" to ");
            msg.append(target.name());
            Err(msg)
        }
    }
}

/// The lifecycle allows each of its moves: a new workspace initializes; initialization
/// ends ready or in error; a ready workspace activates or stops; an active one indexes,
/// pauses, fails or stops; indexing returns to active or fails; a paused workspace resumes
/// or stops; an error is recovered from or stops the workspace; recovery returns to active
/// or fails again; a stopped workspace initializes again.
pub proof fn law_lifecycle_moves_allowed()
    ensures
        allowed_transition(Created, Initializing),
        allowed_transition(Initializing, Ready),
        allowed_transition(Initializing, Error),
        allowed_transition(Ready, Active),
        allowed_transition(Ready, Stopped),
        allowed_transition(Active, Indexing),
        allowed_transition(Active, Paused),
        allowed_transition(Active, Error),
        allowed_transition(Active, Stopped),
        allowed_transition(Indexing, Active),
        allowed_transition(Indexing, Error),
        allowed_transition(Paused, Active),
        allowed_transition(Paused, Stopped),
        allowed_transition(Error, Recovering),
        allowed_transition(Error, Stopped),
        allowed_transition(Recovering, Active),
        allowed_transition(Recovering, Error),
        allowed_transition(Stopped, Initializing),
{
}

/// A move outside that list, between two different states, is refused: a paused
/// workspace cannot start indexing, a ready one cannot pause, nothing goes back to
/// `Created`, and a stopped workspace only initializes.
pub proof fn law_other_moves_refused(a: WorkspaceState, b: WorkspaceState)
    requires
        a != b,
        !((a == Created && b == Initializing) || (a == Initializing && (b == Ready || b
            == Error)) || (a == Ready && (b == Active || b == Stopped)) || (a == Active && (b
            == Indexing || b == Paused || b == Error || b == Stopped)) || (a == Indexing && (b
            == Active || b == Error)) || (a == Paused && (b == Active || b == Stopped)) || (a
            == Error && (b == Recovering || b == Stopped)) || (a == Recovering && (b == Active
            || b == Error)) || (a == Stopped && b == Initializing)),
    ensures
        !allowed_transition(a, b),
{
}

/// Every state may stay where it is.
pub proof fn law_self_transition_allowed(s: WorkspaceState)
    ensures
        allowed_transition(s, s),
{
}

/// Nothing re-enters `Created`: it is only ever the first state.
pub proof fn law_created_not_reentered(s: WorkspaceState)
    ensures
        allowed_transition(s, WorkspaceState::Created) ==> s == WorkspaceState::Created,
{
}

/// A stopped workspace can only be restarted through `Initializing`.
pub proof fn law_stopped_restarts_by_initializing(t: WorkspaceState)
    ensures
        allowed_transition(WorkspaceState::Stopped, t) ==> (t == WorkspaceState::Stopped || t
            == WorkspaceState::Initializing),
{
}

/// Recovery is reachable only from `Error`.
pub proof fn law_recovering_entered_from_error(s: WorkspaceState)
    ensures
        allowed_transition(s, WorkspaceState::Recovering) ==> (s == WorkspaceState::Recovering
            || s == WorkspaceState::Error),
{
}

// ---------------------------------------------------------------------------
// Configuration
// ---------------------------------------------------------------------------

/// General settings of a workspace.
pub struct GeneralConfig {
    pub name: String,
}

/// Security settings: which capabilities the workspace grants.
pub struct SecurityConfig {
    pub allowed_capabilities: Vec<String>,
}

/// Performance settings.
pub struct PerformanceConfig {
    pub profile: String,
}

/// The whole workspace configuration.
pub struct WorkspaceConfig {
    pub general: GeneralConfig,
    pub security: SecurityConfig,
    pub performance: PerformanceConfig,
}

/// The capabilities granted when a configuration names none.
pub open spec fn default_capabilities_spec() -> Seq<Seq<char>> {
    seq!["filesystem.read"@, "git.read"@]
}

/// The capabilities granted when a configuration names none.
pub fn default_allowed_capabilities() -> (r: Vec<String>)
    ensures
        r.deep_view() == default_capabilities_spec(),
{
    let mut v: Vec<String> = Vec::new();
    v.push(String::from_str("filesystem.read"));
    v.push(String::from_str("git.read"));
    assert(v.deep_view() =~= default_capabilities_spec());
    v
}

/// The performance profile used when a configuration names none.
pub fn default_performance_profile() -> (r: String)
    ensures
        r@ == "MID"@,
{
    String::from_str("MID")
}

impl Default for GeneralConfig {
    fn default() -> (r: Self)
        ensures
            r.name@ == "Unnamed Workspace"@,
    {
        GeneralConfig { name: String::from_str("Unnamed Workspace") }
    }
}

impl Default for SecurityConfig {
    fn default() -> (r: Self)
        ensures
            r.allowed_capabilities.deep_view() == default_capabilities_spec(),
    {
        SecurityConfig { allowed_capabilities: default_allowed_capabilities() }
    }
}

impl Default for PerformanceConfig {
    fn default() -> (r: Self)
        ensures
            r.profile@ == "MID"@,
    {
        PerformanceConfig { profile: default_performance_profile() }
    }
}

impl Default for WorkspaceConfig {
    fn default() -> (r: Self)
        ensures
            r.general.name@ == "Unnamed Workspace"@,
            r.security.allowed_capabilities.deep_view() == default_capabilities_spec(),
            r.performance.profile@ == "MID"@,
    {
        WorkspaceConfig {
            general: GeneralConfig::default(),
            security: SecurityConfig::default(),
            performance: PerformanceConfig::default(),
        }
    }
}

} // verus!
