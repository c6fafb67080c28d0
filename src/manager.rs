//! The session table and the decisions of beginning and committing a session.
//!
//! The caller does the filesystem work between the steps: it resolves the
//! base path, clones the base into the session directory, snapshots the two
//! trees and carries out the apply plan, and reports each outcome back.
use vstd::prelude::*;
use crate::paths::{is_within, joined, join_path};
use crate::policy::{PolicyError, SandboxPolicy, SandboxSettings};
use crate::table::StrTable;

verus! {

#[derive(Debug, Clone, PartialEq, Eq)]
pub enum SessionError {
    /// The base path does not exist, is not a directory, or could not be resolved.
    InvalidBasePath(String),
    /// The sandbox policy refused the base path.
    Policy(PolicyError),
    /// No live session has this identifier.
    SessionNotFound(String),
    /// Cloning the base into the session directory failed, for this cause.
    CopyFailed(String),
    /// The session's working directory has vanished.
    DirectoryLost(String),
    /// Snapshotting one of the two trees failed, for this cause.
    DiffFailed(String),
    /// Carrying a change over to the base failed, for this cause.
    ApplyFailed(String),
}

impl SessionError {
    pub open spec fn message_spec(&self) -> Seq<char> {
        match self {
            SessionError::InvalidBasePath(p) => "Invalid base path: "@ + p@,
            SessionError::Policy(e) => e.message_spec(),
            SessionError::SessionNotFound(id) => "Session not found: "@ + id@,
            SessionError::CopyFailed(m) => "Failed to create session copy: "@ + m@,
            SessionError::DirectoryLost(d) => "Session directory lost: "@ + d@,
            SessionError::DiffFailed(m) => "Failed to compute diff: "@ + m@,
            SessionError::ApplyFailed(m) => "Failed to apply changes: "@ + m@,
        }
    }

    /// A one-line description of the error.
    pub fn message(&self) -> (r: String)
        ensures
            r@ == self.message_spec(),
    {
        match self {
            SessionError::InvalidBasePath(p) => "Invalid base path: ".to_owned().concat(p.as_str()),
            SessionError::Policy(e) => e.message(),
            SessionError::SessionNotFound(id) => "Session not found: ".to_owned().concat(id.as_str()),
            SessionError::CopyFailed(m) => "Failed to create session copy: ".to_owned().concat(m.as_str()),
            SessionError::DirectoryLost(d) => "Session directory lost: ".to_owned().concat(d.as_str()),
            SessionError::DiffFailed(m) => "Failed to compute diff: ".to_owned().concat(m.as_str()),
            SessionError::ApplyFailed(m) => "Failed to apply changes: ".to_owned().concat(m.as_str()),
        }
    }
}

/// Where a session lives: its identifier, the canonical base it was taken
/// from, and its working directory under the manager's temporary root.
#[derive(Debug, Clone, PartialEq, Eq)]
pub struct SessionPaths {
    pub session_id: String,
    pub base_path: String,
    pub session_dir: String,
}

/// What the caller met while carrying out a commit.
#[derive(Debug, Clone, PartialEq, Eq)]
pub enum CommitOutcome {
    /// Every change was carried over (or there was none).
    Applied,
    /// The session directory was gone.
    DirectoryLost,
    /// Snapshotting a tree failed, for this cause.
    DiffFailed(String),
    /// Carrying a change over failed, for this cause.
    ApplyFailed(String),
}

pub open spec fn is_lower_hex(c: char) -> bool {
    ('0' <= c && c <= '9') || ('a' <= c && c <= 'f')
}

/// A session identifier as `fresh_session_id` draws it: a hyphenated UUID.
pub open spec fn is_session_token(s: Seq<char>) -> bool {
    &&& s.len() == 36
    &&& forall|i: int| 0 <= i < s.len() ==> #[trigger] s[i] == '-' || is_lower_hex(s[i])
}

/// Relies on uuid's `Uuid::new_v4` and its `Display`: a random version 4
/// UUID written as 36 characters, lowercase hexadecimal digits and hyphens.
#[verifier::external_body]
fn fresh_session_id() -> (r: String)
    ensures
        is_session_token(r@),
{
    uuid::Uuid::new_v4().to_string()
}

pub struct SessionManager {
    sessions: StrTable,
    root_temp_dir: String,
    policy: SandboxPolicy,
    resolved_roots: Vec<Option<String>>,
}

impl SessionManager {
    /// Live sessions: identifier to canonical base path.
    pub closed spec fn sessions(&self) -> Map<Seq<char>, Seq<char>> {
        self.sessions@
    }

    /// The directory under which session working directories are made.
    pub closed spec fn temp_root(&self) -> Seq<char> {
        self.root_temp_dir@
    }

    /// The canonical forms of the allowed roots.
    pub closed spec fn canonical_roots(&self) -> Seq<Seq<char>> {
        self.resolved_roots@.map_values(|o: Option<String>| o->0@)
    }

    pub closed spec fn wf(&self) -> bool {
        &&& self.sessions.wf()
        &&& self.resolved_roots.len() == self.policy.roots().len()
        &&& forall|i: int| 0 <= i < self.resolved_roots.len() ==> (#[trigger] self.resolved_roots@[i]) is Some
    }

    /// A manager that makes session directories under `temp_root`, with the
    /// allowed roots of `settings`; `resolved_roots` holds what resolving each
    /// of them gave, in order. A root that did not resolve is refused.
    pub fn new(settings: &SandboxSettings, resolved_roots: Vec<Option<String>>, temp_root: String) -> (r: Result<
        SessionManager,
        PolicyError,
    >)
        requires
            resolved_roots.len() == settings.allowed_paths.len(),
        ensures
            (r is Ok) <==> forall|i: int| 0 <= i < resolved_roots.len() ==> (#[trigger] resolved_roots@[i]) is Some,
            r matches Ok(m) ==> {
                &&& m.wf()
                &&& m.sessions() == Map::<Seq<char>, Seq<char>>::empty()
                &&& m.temp_root() == temp_root@
                &&& m.canonical_roots() == resolved_roots@.map_values(|o: Option<String>| o->0@)
            },
            r matches Err(e) ==> exists|i: int|
                0 <= i < resolved_roots.len() && (#[trigger] resolved_roots@[i]) is None
                    && e == PolicyError::InvalidAllowRoot(settings.allowed_paths@[i]),
    {
        let mut i: usize = 0;
        while i < resolved_roots.len()
            invariant
                i <= resolved_roots.len(),
                resolved_roots.len() == settings.allowed_paths.len(),
                forall|j: int| 0 <= j < i ==> (#[trigger] resolved_roots@[j]) is Some,
            decreases resolved_roots.len() - i,
        {
            if resolved_roots[i].is_none() {
                return Err(PolicyError::InvalidAllowRoot(settings.allowed_paths[i].clone()));
            }
            i = i + 1;
        }
        Ok(SessionManager {
            sessions: StrTable::new(),
            root_temp_dir: temp_root,
            policy: SandboxPolicy::new(settings),
            resolved_roots,
        })
    }

    /// The directory under which session working directories are made.
    pub fn temp_root_dir(&self) -> (r: &String)
        ensures
            r@ == self.temp_root(),
    {
        &self.root_temp_dir
    }

    /// The canonical base of a live session.
    pub fn base_of(&self, session_id: &String) -> (r: Option<&String>)
        requires
            self.wf(),
        ensures
            r is Some <==> self.sessions().contains_key(session_id@),
            r matches Some(b) ==> b@ == self.sessions()[session_id@],
    {
        self.sessions.get(session_id)
    }

    /// First step of beginning a session on `base_path`. `resolved_base` is
    /// its canonical form, or `None` where it does not exist, is not a
    /// directory or cannot be resolved. On success a fresh identifier is
    /// drawn; the caller then clones the base into the returned session
    /// directory and reports the result to `register_session`.
    pub fn begin_session(&self, base_path: String, resolved_base: Option<String>) -> (r: Result<
        SessionPaths,
        SessionError,
    >)
        requires
            self.wf(),
        ensures
            match resolved_base {
                None => r matches Err(SessionError::InvalidBasePath(p)) && p@ == base_path@,
                Some(c) => {
                    &&& (r is Ok) <==> (self.canonical_roots().len() == 0 || exists|i: int|
                        0 <= i < self.canonical_roots().len() && is_within(
                            c@,
                            #[trigger] self.canonical_roots()[i],
                        ))
                    &&& r matches Err(e) ==> (e matches SessionError::Policy(
                        PolicyError::SecurityViolation(v),
                    ) && v@ == c@)
                    &&& r matches Ok(p) ==> {
                        &&& p.base_path@ == c@
                        &&& is_session_token(p.session_id@)
                        &&& p.session_dir@ == joined(self.temp_root(), p.session_id@)
                        &&& is_within(p.session_dir@, self.temp_root())
                    }
                },
            },
    {
        let canonical = match resolved_base {
            None => return Err(SessionError::InvalidBasePath(base_path)),
            Some(c) => c,
        };
        let checked = self.policy.validate_path(base_path.as_str(), &Some(canonical.clone()), &self.resolved_roots);
        proof {
            let t = canonical@;
            let rr = self.resolved_roots@;
            assert forall|i: int| 0 <= i < rr.len() implies (#[trigger] self.canonical_roots()[i]) == rr[i]->0@ by {}
            if checked is Ok && self.canonical_roots().len() > 0 {
                let i = choose|i: int|
                    0 <= i < rr.len() && crate::policy::passed_over(t, rr, i)
                        && #[trigger] crate::policy::resolved_within(t, rr, i);
                assert(is_within(t, self.canonical_roots()[i]));
            }
            if checked matches Err(PolicyError::InvalidAllowRoot(_)) {
                let i = choose|i: int|
                    0 <= i < rr.len() && crate::policy::passed_over(t, rr, i) && (#[trigger] rr[i]) is None;
                assert(rr[i] is Some);
            }
            if checked matches Err(PolicyError::SecurityViolation(_)) {
                assert forall|i: int| 0 <= i < self.canonical_roots().len() implies !is_within(
                    t,
                    #[trigger] self.canonical_roots()[i],
                ) by {
                    assert(rr[i] is Some);
                }
            }
        }
        match checked {
            Err(e) => {
                return Err(SessionError::Policy(e));
            },
            Ok(()) => {},
        }
        let session_id = fresh_session_id();
        let session_dir = join_path(self.root_temp_dir.as_str(), session_id.as_str());
        proof {
            let root = self.root_temp_dir@;
            if !crate::paths::ends_with_sep(root) {
                assert(session_dir@[root.len() as int] == '/');
            }
            assert(session_dir@.subrange(0, root.len() as int) =~= root);
        }
        Ok(SessionPaths { session_id, base_path: canonical, session_dir })
    }

    /// Second step of beginning a session: `copied` is the outcome of
    /// cloning the base into `pending.session_dir`. On success the session
    /// becomes live and its identifier is returned.
    pub fn register_session(&mut self, pending: SessionPaths, copied: Result<(), String>) -> (r: Result<
        String,
        SessionError,
    >)
        requires
            old(self).wf(),
        ensures
            final(self).wf(),
            final(self).temp_root() == old(self).temp_root(),
            final(self).canonical_roots() == old(self).canonical_roots(),
            match copied {
                Err(m) => r == Err::<String, SessionError>(SessionError::CopyFailed(m))
                    && final(self).sessions() == old(self).sessions(),
                Ok(()) => r == Ok::<String, SessionError>(pending.session_id) && final(self).sessions()
                    == old(self).sessions().insert(pending.session_id@, pending.base_path@),
            },
    {
        match copied {
            Err(m) => Err(SessionError::CopyFailed(m)),
            Ok(()) => {
                let id = pending.session_id.clone();
                self.sessions.insert(pending.session_id, pending.base_path);
                Ok(id)
            },
        }
    }

    /// First step of committing a session: finds it. The caller then checks
    /// that the session directory still exists, snapshots it and the base,
    /// computes and carries out the changes, and reports to `finish_commit`.
    pub fn commit_session(&self, session_id: String) -> (r: Result<SessionPaths, SessionError>)
        requires
            self.wf(),
        ensures
            (r is Err) <==> !self.sessions().contains_key(session_id@),
            r matches Err(e) ==> e == SessionError::SessionNotFound(session_id),
            r matches Ok(p) ==> {
                &&& p.session_id == session_id
                &&& p.base_path@ == self.sessions()[session_id@]
                &&& p.session_dir@ == joined(self.temp_root(), session_id@)
            },
    {
        match self.sessions.get(&session_id) {
            None => Err(SessionError::SessionNotFound(session_id)),
            Some(base) => {
                let base_path = base.clone();
                let session_dir = join_path(self.root_temp_dir.as_str(), session_id.as_str());
                Ok(SessionPaths { session_id, base_path, session_dir })
            },
        }
    }

    /// Last step of committing a session. Once every change was carried over
    /// the session ends; after a failure it stays live, so that the caller
    /// may look into it and try again.
    pub fn finish_commit(&mut self, paths: &SessionPaths, outcome: CommitOutcome) -> (r: Result<(), SessionError>)
        requires
            old(self).wf(),
        ensures
            final(self).wf(),
            final(self).temp_root() == old(self).temp_root(),
            final(self).canonical_roots() == old(self).canonical_roots(),
            !old(self).sessions().contains_key(paths.session_id@) ==> r == Err::<(), SessionError>(
                SessionError::SessionNotFound(paths.session_id),
            ) && final(self).sessions() == old(self).sessions(),
            old(self).sessions().contains_key(paths.session_id@) ==> match outcome {
                CommitOutcome::Applied => r is Ok && final(self).sessions() == old(self).sessions().remove(
                    paths.session_id@,
                ),
                CommitOutcome::DirectoryLost => r == Err::<(), SessionError>(
                    SessionError::DirectoryLost(paths.session_dir),
                ) && final(self).sessions() == old(self).sessions(),
                CommitOutcome::DiffFailed(m) => r == Err::<(), SessionError>(SessionError::DiffFailed(m))
                    && final(self).sessions() == old(self).sessions(),
                CommitOutcome::ApplyFailed(m) => r == Err::<(), SessionError>(SessionError::ApplyFailed(m))
                    && final(self).sessions() == old(self).sessions(),
            },
    {
        if self.sessions.get(&paths.session_id).is_none() {
            return Err(SessionError::SessionNotFound(paths.session_id.clone()));
        }
        match outcome {
            CommitOutcome::Applied => {
                self.sessions.remove(&paths.session_id);
                Ok(())
            },
            CommitOutcome::DirectoryLost => Err(SessionError::DirectoryLost(paths.session_dir.clone())),
            CommitOutcome::DiffFailed(m) => Err(SessionError::DiffFailed(m)),
            CommitOutcome::ApplyFailed(m) => Err(SessionError::ApplyFailed(m)),
        }
    }
}

/// The message of a sandbox refusal begins with `Security Violation`.
pub proof fn lemma_violation_message(canonical: String)
    ensures
        SessionError::Policy(PolicyError::SecurityViolation(canonical)).message_spec().subrange(0, 18)
            == "Security Violation"@,
{
    reveal_strlit("Security Violation: Path '");
    reveal_strlit("Security Violation");
    let m = SessionError::Policy(PolicyError::SecurityViolation(canonical)).message_spec();
    assert(m.subrange(0, 18) =~= "Security Violation"@);
}

/// The message for an unknown session identifier holds `not found`, right
/// after `Session `.
pub proof fn lemma_not_found_message(session_id: String)
    ensures
        SessionError::SessionNotFound(session_id).message_spec().subrange(8, 17) == "not found"@,
{
    reveal_strlit("Session not found: ");
    reveal_strlit("not found");
    let m = SessionError::SessionNotFound(session_id).message_spec();
    assert(m.subrange(8, 17) =~= "not found"@);
}

} // verus!
