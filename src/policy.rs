//! Sandbox containment: a base path must resolve under one of the allowed roots.
use vstd::prelude::*;
use crate::paths::{is_within, path_within};

verus! {

/// Sandbox configuration: the allowed roots, as configured. An empty list
/// leaves paths unrestricted.
pub struct SandboxSettings {
    pub allowed_paths: Vec<String>,
}

impl Default for SandboxSettings {
    fn default() -> (r: SandboxSettings)
        ensures
            r.allowed_paths@.len() == 0,
    {
        SandboxSettings { allowed_paths: Vec::new() }
    }
}

#[derive(Debug, Clone, PartialEq, Eq)]
pub enum PolicyError {
    /// The target does not exist or could not be resolved.
    InvalidPath(String),
    /// An allowed root could not be resolved.
    InvalidAllowRoot(String),
    /// The resolved target lies outside every allowed root.
    SecurityViolation(String),
}

impl PolicyError {
    pub open spec fn message_spec(&self) -> Seq<char> {
        match self {
            PolicyError::InvalidPath(p) => "Invalid path '"@ + p@ + "'"@,
            PolicyError::InvalidAllowRoot(p) => "Invalid allowed path configuration '"@ + p@ + "'"@,
            PolicyError::SecurityViolation(p) => "Security Violation: Path '"@ + p@
                + "' is outside the authorized sandbox roots."@,
        }
    }

    /// A one-line description of the error.
    pub fn message(&self) -> (r: String)
        ensures
            r@ == self.message_spec(),
    {
        match self {
            PolicyError::InvalidPath(p) => "Invalid path '".to_owned().concat(p.as_str()).concat("'"),
            PolicyError::InvalidAllowRoot(p) => "Invalid allowed path configuration '".to_owned().concat(
                p.as_str(),
            ).concat("'"),
            PolicyError::SecurityViolation(p) => "Security Violation: Path '".to_owned().concat(
                p.as_str(),
            ).concat("' is outside the authorized sandbox roots."),
        }
    }
}

/// The allowed roots, and whether each one resolved (`Some` with its canonical form).
pub open spec fn resolved_within(target: Seq<char>, resolved: Seq<Option<String>>, i: int) -> bool {
    resolved[i] is Some && is_within(target, resolved[i]->0@)
}

/// The roots before `i` all resolved, and `target` lies within none of them.
pub open spec fn passed_over(target: Seq<char>, resolved: Seq<Option<String>>, i: int) -> bool {
    forall|j: int| 0 <= j < i ==> (#[trigger] resolved[j]) is Some && !is_within(target, resolved[j]->0@)
}

pub struct SandboxPolicy {
    allowed_paths: Vec<String>,
}

impl SandboxPolicy {
    /// The allowed roots, as configured.
    pub closed spec fn roots(&self) -> Seq<Seq<char>> {
        self.allowed_paths@.map_values(|p: String| p@)
    }

    /// A policy over the allowed roots of `settings`.
    pub fn new(settings: &SandboxSettings) -> (r: SandboxPolicy)
        ensures
            r.roots() == settings.allowed_paths@.map_values(|p: String| p@),
    {
        SandboxPolicy { allowed_paths: settings.allowed_paths.clone() }
    }

    pub fn is_unrestricted(&self) -> (r: bool)
        ensures
            r == (self.roots().len() == 0),
    {
        self.allowed_paths.len() == 0
    }

    /// Checks `target` against the allowed roots, given what resolving it
    /// gave (`resolved_target`, its canonical form) and what resolving each
    /// root gave (`resolved_roots`, in the order of the roots). The roots are
    /// tried in order: an unresolved root met before a match is an error.
    pub fn validate_path(
        &self,
        target: &str,
        resolved_target: &Option<String>,
        resolved_roots: &Vec<Option<String>>,
    ) -> (r: Result<(), PolicyError>)
        requires
            resolved_roots.len() == self.roots().len(),
        ensures
            match resolved_target {
                None => r matches Err(PolicyError::InvalidPath(p)) && p@ == target@,
                Some(t) => {
                    &&& (r is Ok) <==> (self.roots().len() == 0 || exists|i: int|
                        0 <= i < resolved_roots.len() && passed_over(t@, resolved_roots@, i)
                            && #[trigger] resolved_within(t@, resolved_roots@, i))
                    &&& (r matches Err(PolicyError::InvalidAllowRoot(_))) <==> exists|i: int|
                        0 <= i < resolved_roots.len() && passed_over(t@, resolved_roots@, i)
                            && (#[trigger] resolved_roots@[i]) is None
                    &&& r matches Err(PolicyError::InvalidAllowRoot(p)) ==> exists|i: int|
                        0 <= i < resolved_roots.len() && passed_over(t@, resolved_roots@, i)
                            && (#[trigger] resolved_roots@[i]) is None && p@ == self.roots()[i]
                    &&& (r matches Err(PolicyError::SecurityViolation(_))) <==> (self.roots().len() > 0
                        && passed_over(t@, resolved_roots@, resolved_roots.len() as int))
                    &&& r matches Err(PolicyError::SecurityViolation(c)) ==> c@ == t@
                    &&& !(r matches Err(PolicyError::InvalidPath(_)))
                },
            },
    {
        let canonical = match resolved_target {
            None => return Err(PolicyError::InvalidPath(target.to_owned())),
            Some(t) => t,
        };
        if self.allowed_paths.len() == 0 {
            return Ok(());
        }
        let mut i: usize = 0;
        while i < resolved_roots.len()
            invariant
                i <= resolved_roots.len(),
                resolved_roots.len() == self.roots().len(),
                self.roots().len() > 0,
                resolved_target is Some && resolved_target->0 == *canonical,
                passed_over(canonical@, resolved_roots@, i as int),
            decreases resolved_roots.len() - i,
        {
            match &resolved_roots[i] {
                None => {
                    assert(self.roots()[i as int] == self.allowed_paths@[i as int]@);
                    return Err(PolicyError::InvalidAllowRoot(self.allowed_paths[i].clone()));
                },
                Some(root) => {
                    if path_within(canonical.as_str(), root.as_str()) {
                        assert(resolved_within(canonical@, resolved_roots@, i as int));
                        return Ok(());
                    }
                },
            }
            i = i + 1;
        }
        Err(PolicyError::SecurityViolation(canonical.clone()))
    }
}

} // verus!
