use workspaceos::security::{audit_log_lines, Capability, SecurityEvaluator};
use workspaceos::workspace::Workspace;

fn ws(root: &str) -> Workspace {
    Workspace::new("ws-id".to_string(), "Test Workspace".to_string(), root.to_string())
}

#[test]
fn test_path_containment() {
    let w = ws("/tmp/ws");
    // Safe relative path (nothing exists on disk: no canonical forms)
    let res = SecurityEvaluator::enforce_path_containment(&w, "src/lib.rs", None, None);
    assert_eq!(res, Ok("/tmp/ws/src/lib.rs".to_string()));

    // Unsafe escape path
    let res_escape =
        SecurityEvaluator::enforce_path_containment(&w, "../escaped_dir/secret.txt", None, None);
    assert_eq!(
        res_escape,
        Err("Security Violation: Path traversal escape detected on \"../escaped_dir/secret.txt\"".to_string())
    );

    // Unsafe absolute path
    let res_abs = SecurityEvaluator::enforce_path_containment(&w, "/etc/passwd", None, None);
    assert_eq!(
        res_abs,
        Err("Security Violation: Root-relative or absolute path outside workspace containment boundary: \"/etc/passwd\"".to_string())
    );
}

#[test]
fn containment_uses_the_canonical_forms_when_they_exist() {
    let w = ws("/tmp/link");
    let full = SecurityEvaluator::containment_full_path(&w, "a.txt");
    assert_eq!(full, "/tmp/link/a.txt");
    // the root is a symlink to /data/real; the file resolves inside it
    let ok = SecurityEvaluator::enforce_path_containment(
        &w,
        "a.txt",
        Some("/data/real".to_string()),
        Some("/data/real/a.txt".to_string()),
    );
    assert_eq!(ok, Ok("/data/real/a.txt".to_string()));
    // a symlink inside the workspace that points outside is refused
    let bad = SecurityEvaluator::enforce_path_containment(
        &w,
        "evil",
        Some("/data/real".to_string()),
        Some("/etc/shadow".to_string()),
    );
    assert!(bad.is_err());
    // an absolute path under the canonical root that does not exist is normalized onto
    // the root, which lies outside the canonical root
    let abs = SecurityEvaluator::enforce_path_containment(
        &w,
        "/data/real/b.txt",
        Some("/data/real".to_string()),
        None,
    );
    assert_eq!(
        abs,
        Err("Security Violation: Path traversal escape detected on \"/data/real/b.txt\"".to_string())
    );
}

#[test]
fn parent_steps_inside_the_workspace_are_allowed() {
    let w = ws("/tmp/ws");
    let res = SecurityEvaluator::enforce_path_containment(&w, "src/../docs/./a.md", None, None);
    assert_eq!(res, Ok("/tmp/ws/docs/a.md".to_string()));
    let prefix_trick = SecurityEvaluator::enforce_path_containment(&w, "/tmp/wsx/a", None, None);
    assert!(prefix_trick.is_err());
}

#[test]
fn authorization_checks_membership() {
    let w = ws("/tmp/ws");
    let caps = vec![Capability::FilesystemRead, Capability::GitRead];
    assert!(SecurityEvaluator::authorize(&w, &Capability::FilesystemRead, &caps));
    assert!(!SecurityEvaluator::authorize(&w, &Capability::FilesystemWrite, &caps));
    assert!(!SecurityEvaluator::authorize(&w, &Capability::GitRead, &[]));
}

#[test]
fn tokens_match_the_configured_key_or_are_non_empty() {
    assert!(SecurityEvaluator::validate_token("secret", Some("secret")));
    assert!(!SecurityEvaluator::validate_token("guess", Some("secret")));
    assert!(SecurityEvaluator::validate_token("anything", None));
    assert!(!SecurityEvaluator::validate_token("", None));
}

#[test]
fn test_audit_logging() {
    let line = SecurityEvaluator::audit_entry(1700000000, "filesystem.read", "view_file src/lib.rs", true);
    assert_eq!(
        line,
        "[1700000000] SUCCESS - Action: filesystem.read, Details: view_file src/lib.rs\n"
    );
    assert!(line.contains("SUCCESS"));
    assert!(line.contains("filesystem.read"));
    let denied = SecurityEvaluator::audit_entry(0, "filesystem.write", "x", false);
    assert_eq!(denied, "[0] DENIED - Action: filesystem.write, Details: x\n");
    assert_eq!(SecurityEvaluator::audit_log_path(&ws("/tmp/ws")), "/tmp/ws/.workspaceos/audit.log");
}

#[test]
fn audit_log_lines_or_notice() {
    assert_eq!(
        audit_log_lines(None),
        vec!["[INFO] Audit log file is empty or does not exist yet.".to_string()]
    );
    assert_eq!(audit_log_lines(Some("a\r\nb\n")), vec!["a".to_string(), "b".to_string()]);
    assert!(audit_log_lines(Some("")).is_empty());
}

#[test]
fn capability_names() {
    assert_eq!(Capability::FilesystemRead.name(), "filesystem.read");
    assert_eq!(Capability::TerminalExecute.name(), "terminal.execute");
    assert_eq!(Capability::GitWrite.name(), "git.write");
}
