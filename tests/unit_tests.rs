use brio_vfs::clone::{clone_step, CloneStep, EntryKind};
use brio_vfs::diff::{compute_diff, plan_changes, snapshot_key, ApplyStep, FileChange, Snapshot};
use brio_vfs::digest::content_hash;
use brio_vfs::events::EventBus;
use brio_vfs::manager::{CommitOutcome, SessionError, SessionManager};
use brio_vfs::paths::{join_path, path_within, strip_root};
use brio_vfs::policy::{PolicyError, SandboxPolicy, SandboxSettings};
use std::collections::BTreeSet;

fn snapshot(entries: &[(&str, &str)]) -> Snapshot {
    let mut s = Snapshot::new();
    for (rel, hash) in entries {
        s.record(rel.to_string(), hash.to_string());
    }
    s
}

fn as_set(changes: &[FileChange]) -> BTreeSet<String> {
    changes
        .iter()
        .map(|c| match c {
            FileChange::Added(p) => format!("A {}", p),
            FileChange::Modified(p) => format!("M {}", p),
            FileChange::Deleted(p) => format!("D {}", p),
        })
        .collect()
}

#[test]
fn content_hash_of_abc() {
    assert_eq!(
        content_hash(b"abc"),
        "ba7816bf8f01cfea414140de5dae2223b00361a396177a9cb410ff61f20015ad"
    );
}

#[test]
fn content_hash_of_nothing() {
    assert_eq!(
        content_hash(b""),
        "e3b0c44298fc1c149afbf4c8996fb92427ae41e4649b934ca495991b7852b855"
    );
}

#[test]
fn within_compares_whole_components() {
    assert!(!path_within("/a/bc", "/a/b"));
    assert!(path_within("/a/b/c", "/a/b"));
    assert!(path_within("/a/b", "/a/b"));
    assert!(path_within("/x/y", "/"));
    assert!(!path_within("/a", "/a/b"));
    assert!(!path_within("/b/a", "/a"));
}

#[test]
fn strip_and_join() {
    assert_eq!(strip_root("/a/b/c.txt", "/a"), Some("b/c.txt".to_string()));
    assert_eq!(strip_root("/a", "/a"), Some(String::new()));
    assert_eq!(strip_root("/etc/passwd", "/"), Some("etc/passwd".to_string()));
    assert_eq!(strip_root("/ab/c", "/a"), None);
    assert_eq!(join_path("/base", "x/y.txt"), "/base/x/y.txt");
    assert_eq!(join_path("/", "x"), "/x");
    assert_eq!(join_path("/base", ""), "/base");
}

#[test]
fn diff_reports_each_kind() {
    let session = snapshot(&[("same.txt", "h1"), ("changed.txt", "h2"), ("new.txt", "h3")]);
    let base = snapshot(&[("same.txt", "h1"), ("changed.txt", "old"), ("gone.txt", "h4")]);
    let changes = compute_diff(&session, &base);
    assert_eq!(changes.len(), 3);
    let expected: BTreeSet<String> =
        ["M changed.txt", "A new.txt", "D gone.txt"].iter().map(|s| s.to_string()).collect();
    assert_eq!(as_set(&changes), expected);
}

#[test]
fn diff_of_equal_snapshots_is_empty() {
    let a = snapshot(&[("x", "1"), ("d/y", "2")]);
    let b = snapshot(&[("d/y", "2"), ("x", "1")]);
    assert!(compute_diff(&a, &b).is_empty());
    assert!(compute_diff(&Snapshot::new(), &Snapshot::new()).is_empty());
}

#[test]
fn snapshot_record_replaces() {
    let mut s = Snapshot::new();
    s.record("a".to_string(), "1".to_string());
    s.record("a".to_string(), "2".to_string());
    assert_eq!(s.len(), 1);
    assert_eq!(s.get(&"a".to_string()), Some(&"2".to_string()));
    assert_eq!(s.get(&"b".to_string()), None);
}

#[test]
fn insert_file_records_the_hash() {
    let mut s = Snapshot::new();
    s.insert_file("f".to_string(), b"abc");
    assert_eq!(
        s.get(&"f".to_string()).unwrap(),
        "ba7816bf8f01cfea414140de5dae2223b00361a396177a9cb410ff61f20015ad"
    );
}

#[test]
fn snapshot_keys_only_files_below_root() {
    assert_eq!(snapshot_key("/r", "/r/a/b.txt", EntryKind::File), Some("a/b.txt".to_string()));
    assert_eq!(snapshot_key("/r", "/r/a", EntryKind::Directory), None);
    assert_eq!(snapshot_key("/r", "/r/link", EntryKind::Other), None);
    assert_eq!(snapshot_key("/r", "/r", EntryKind::File), None);
    assert_eq!(snapshot_key("/r", "/rx/a", EntryKind::File), None);
}

#[test]
fn plan_copies_and_removes() {
    let changes = vec![
        FileChange::Added("n.txt".to_string()),
        FileChange::Modified("d/m.txt".to_string()),
        FileChange::Deleted("g.txt".to_string()),
    ];
    let steps = plan_changes("/tmp/brio/s", "/work", &changes);
    assert_eq!(
        steps,
        vec![
            ApplyStep::CopyFile { from: "/tmp/brio/s/n.txt".to_string(), to: "/work/n.txt".to_string() },
            ApplyStep::CopyFile { from: "/tmp/brio/s/d/m.txt".to_string(), to: "/work/d/m.txt".to_string() },
            ApplyStep::RemoveFile { target: "/work/g.txt".to_string() },
        ]
    );
}

#[test]
fn clone_steps() {
    assert_eq!(clone_step("/src", "/dst", "/src", EntryKind::Directory), CloneStep::Skip);
    assert_eq!(
        clone_step("/src", "/dst", "/src/a", EntryKind::Directory),
        CloneStep::CreateDir("/dst/a".to_string())
    );
    assert_eq!(
        clone_step("/src", "/dst", "/src/a/f.txt", EntryKind::File),
        CloneStep::CloneFile { from: "/src/a/f.txt".to_string(), to: "/dst/a/f.txt".to_string() }
    );
    assert_eq!(clone_step("/src", "/dst", "/src/l", EntryKind::Other), CloneStep::Skip);
    assert_eq!(clone_step("/src", "/dst", "/srcx/f", EntryKind::File), CloneStep::Skip);
}

fn policy(roots: &[&str]) -> SandboxPolicy {
    SandboxPolicy::new(&SandboxSettings { allowed_paths: roots.iter().map(|r| r.to_string()).collect() })
}

#[test]
fn policy_unrestricted_when_empty() {
    let p = policy(&[]);
    assert!(p.is_unrestricted());
    assert_eq!(p.validate_path("/any", &Some("/any".to_string()), &vec![]), Ok(()));
}

#[test]
fn policy_unresolved_target() {
    let p = policy(&["/ok"]);
    let e = p.validate_path("/missing", &None, &vec![Some("/ok".to_string())]).unwrap_err();
    assert_eq!(e, PolicyError::InvalidPath("/missing".to_string()));
    assert_eq!(e.message(), "Invalid path '/missing'");
}

#[test]
fn policy_checks_roots_in_order() {
    let p = policy(&["/first", "/second"]);
    let target = Some("/second/p".to_string());
    assert_eq!(
        p.validate_path("/second/p", &target, &vec![Some("/first".to_string()), Some("/second".to_string())]),
        Ok(())
    );
    let e = p
        .validate_path("/second/p", &target, &vec![None, Some("/second".to_string())])
        .unwrap_err();
    assert_eq!(e, PolicyError::InvalidAllowRoot("/first".to_string()));
    assert!(e.message().contains("Invalid allowed path configuration"));
    let first = Some("/first/p".to_string());
    assert_eq!(p.validate_path("/first/p", &first, &vec![Some("/first".to_string()), None]), Ok(()));
}

#[test]
fn policy_refuses_sibling_with_common_prefix() {
    let p = policy(&["/a/b"]);
    let e = p.validate_path("/a/bc", &Some("/a/bc".to_string()), &vec![Some("/a/b".to_string())]).unwrap_err();
    assert_eq!(e, PolicyError::SecurityViolation("/a/bc".to_string()));
    assert_eq!(e.message(), "Security Violation: Path '/a/bc' is outside the authorized sandbox roots.");
}

#[test]
fn policy_uses_resolved_target() {
    let p = policy(&["/real/project"]);
    let resolved = Some("/real/project/sub".to_string());
    assert_eq!(
        p.validate_path("/link/sub", &resolved, &vec![Some("/real/project".to_string())]),
        Ok(())
    );
    let escaped = Some("/etc".to_string());
    assert!(p
        .validate_path("/real/project/../../etc", &escaped, &vec![Some("/real/project".to_string())])
        .is_err());
}

#[test]
fn manager_refuses_unresolved_root() {
    let settings = SandboxSettings { allowed_paths: vec!["/ok".to_string(), "/bad".to_string()] };
    let r = SessionManager::new(&settings, vec![Some("/ok".to_string()), None], "/tmp/brio".to_string());
    assert_eq!(r.err().unwrap(), PolicyError::InvalidAllowRoot("/bad".to_string()));
}

fn plain_manager() -> SessionManager {
    SessionManager::new(&SandboxSettings::default(), vec![], "/tmp/brio".to_string()).unwrap()
}

#[test]
fn begin_draws_a_token_under_temp_root() {
    let mgr = plain_manager();
    assert_eq!(mgr.temp_root_dir(), "/tmp/brio");
    let p = mgr.begin_session("/w".to_string(), Some("/real/w".to_string())).unwrap();
    assert_eq!(p.session_id.len(), 36);
    assert!(p.session_id.chars().all(|c| c == '-' || c.is_ascii_digit() || ('a'..='f').contains(&c)));
    assert_eq!(p.session_dir, format!("/tmp/brio/{}", p.session_id));
    assert_eq!(p.base_path, "/real/w");
    let q = mgr.begin_session("/w".to_string(), Some("/real/w".to_string())).unwrap();
    assert_ne!(p.session_id, q.session_id);
}

#[test]
fn failed_copy_registers_nothing() {
    let mut mgr = plain_manager();
    let p = mgr.begin_session("/w".to_string(), Some("/w".to_string())).unwrap();
    let id = p.session_id.clone();
    let e = mgr.register_session(p, Err("disk full".to_string())).unwrap_err();
    assert_eq!(e, SessionError::CopyFailed("disk full".to_string()));
    assert_eq!(e.message(), "Failed to create session copy: disk full");
    assert!(mgr.base_of(&id).is_none());
}

#[test]
fn failed_commit_keeps_session() {
    let mut mgr = plain_manager();
    let p = mgr.begin_session("/w".to_string(), Some("/w".to_string())).unwrap();
    let id = mgr.register_session(p, Ok(())).unwrap();
    assert_eq!(mgr.base_of(&id), Some(&"/w".to_string()));
    let paths = mgr.commit_session(id.clone()).unwrap();

    let e = mgr.finish_commit(&paths, CommitOutcome::ApplyFailed("denied".to_string())).unwrap_err();
    assert_eq!(e.message(), "Failed to apply changes: denied");
    let e = mgr.finish_commit(&paths, CommitOutcome::DiffFailed("io".to_string())).unwrap_err();
    assert_eq!(e.message(), "Failed to compute diff: io");
    let e = mgr.finish_commit(&paths, CommitOutcome::DirectoryLost).unwrap_err();
    assert_eq!(e, SessionError::DirectoryLost(format!("/tmp/brio/{}", id)));
    assert!(e.message().starts_with("Session directory lost: "));
    assert!(mgr.base_of(&id).is_some());

    assert_eq!(mgr.finish_commit(&paths, CommitOutcome::Applied), Ok(()));
    assert!(mgr.base_of(&id).is_none());
    let e = mgr.finish_commit(&paths, CommitOutcome::Applied).unwrap_err();
    assert_eq!(e, SessionError::SessionNotFound(id.clone()));
    assert_eq!(e.message(), format!("Session not found: {}", id));
}

#[test]
fn invalid_base_message() {
    let mgr = plain_manager();
    let e = mgr.begin_session("/nope".to_string(), None).unwrap_err();
    assert_eq!(e, SessionError::InvalidBasePath("/nope".to_string()));
    assert_eq!(e.message(), "Invalid base path: /nope");
}

#[test]
fn violation_names_resolved_path() {
    let settings = SandboxSettings { allowed_paths: vec!["/allowed".to_string()] };
    let mgr = SessionManager::new(&settings, vec![Some("/allowed".to_string())], "/tmp/brio".to_string()).unwrap();
    let e = mgr.begin_session("/allowed/../etc".to_string(), Some("/etc".to_string())).unwrap_err();
    assert_eq!(e, SessionError::Policy(PolicyError::SecurityViolation("/etc".to_string())));
    assert!(mgr.begin_session("/allowed/sub".to_string(), Some("/allowed/sub".to_string())).is_ok());
}

#[test]
fn event_bus_subscriptions() {
    let mut bus = EventBus::new();
    assert!(bus.subscribers("t").is_empty());
    bus.subscribe("t".to_string(), "p1".to_string());
    bus.subscribe("t".to_string(), "p2".to_string());
    bus.subscribe("t".to_string(), "p1".to_string());
    bus.subscribe("u".to_string(), "p3".to_string());
    let mut t = bus.subscribers("t");
    t.sort();
    assert_eq!(t, vec!["p1".to_string(), "p2".to_string()]);
    assert_eq!(bus.subscribers("u"), vec!["p3".to_string()]);
    assert!(bus.subscribers("v").is_empty());
    assert!(EventBus::default().subscribers("t").is_empty());
}
