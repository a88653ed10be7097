use workspaceos::workspace::{
    default_allowed_capabilities, default_performance_profile, Workspace, WorkspaceConfig,
    WorkspaceState,
};

const ALL: [WorkspaceState; 9] = [
    WorkspaceState::Created,
    WorkspaceState::Initializing,
    WorkspaceState::Ready,
    WorkspaceState::Active,
    WorkspaceState::Paused,
    WorkspaceState::Indexing,
    WorkspaceState::Error,
    WorkspaceState::Recovering,
    WorkspaceState::Stopped,
];

#[test]
fn lifecycle_happy_path() {
    let s = WorkspaceState::Created;
    let s = s.transition_to(WorkspaceState::Initializing).unwrap();
    let s = s.transition_to(WorkspaceState::Ready).unwrap();
    let s = s.transition_to(WorkspaceState::Active).unwrap();
    let s = s.transition_to(WorkspaceState::Indexing).unwrap();
    let s = s.transition_to(WorkspaceState::Active).unwrap();
    let s = s.transition_to(WorkspaceState::Stopped).unwrap();
    assert_eq!(s, WorkspaceState::Stopped);
}

#[test]
fn invalid_transitions_are_explained() {
    assert_eq!(
        WorkspaceState::Created.transition_to(WorkspaceState::Active),
        Err("Invalid workspace state transition from Created to Active".to_string())
    );
    assert_eq!(
        WorkspaceState::Stopped.transition_to(WorkspaceState::Active),
        Err("Invalid workspace state transition from Stopped to Active".to_string())
    );
}

#[test]
fn every_state_may_stay_and_created_is_never_reentered() {
    for s in ALL {
        assert!(s.can_transition_to(s));
        if s != WorkspaceState::Created {
            assert!(!s.can_transition_to(WorkspaceState::Created));
        }
    }
}

#[test]
fn recovery_only_from_error() {
    for s in ALL {
        let ok = s.can_transition_to(WorkspaceState::Recovering);
        assert_eq!(ok, s == WorkspaceState::Error || s == WorkspaceState::Recovering);
    }
    assert!(WorkspaceState::Recovering.can_transition_to(WorkspaceState::Active));
    assert!(WorkspaceState::Error.can_transition_to(WorkspaceState::Stopped));
    assert!(!WorkspaceState::Paused.can_transition_to(WorkspaceState::Indexing));
}

#[test]
fn workspace_paths_are_validated_by_components() {
    let w = Workspace::new("id".to_string(), "W".to_string(), "/home/u/proj".to_string());
    assert_eq!(w.id, "id");
    assert_eq!(w.name, "W");
    assert!(w.validate_path("/home/u/proj/src/main.rs"));
    assert!(w.validate_path("/home/u/proj"));
    assert!(!w.validate_path("/home/u/project/x"));
    assert!(!w.validate_path("/etc/passwd"));
}

#[test]
fn configuration_defaults() {
    let c = WorkspaceConfig::default();
    assert_eq!(c.general.name, "Unnamed Workspace");
    assert_eq!(
        c.security.allowed_capabilities,
        vec!["filesystem.read".to_string(), "git.read".to_string()]
    );
    assert_eq!(c.performance.profile, "MID");
    assert_eq!(default_allowed_capabilities().len(), 2);
    assert_eq!(default_performance_profile(), "MID");
}
