//! Snapshots of directory trees and the change list between two of them.
use vstd::prelude::*;
use crate::digest::{content_hash, content_hash_of};
use crate::clone::EntryKind;
use crate::paths::{is_within, joined, join_path, relative_part, strip_root};
use crate::table::StrTable;

verus! {

/// One difference between a session tree and its base, by path relative to both roots.
#[derive(Debug, Clone, PartialEq, Eq)]
pub enum FileChange {
    /// Present in both, with different content hashes.
    Modified(String),
    /// Present in the session, absent from the base.
    Added(String),
    /// Present in the base, absent from the session.
    Deleted(String),
}

impl FileChange {
    pub open spec fn rel(self) -> Seq<char> {
        match self {
            FileChange::Modified(p) => p@,
            FileChange::Added(p) => p@,
            FileChange::Deleted(p) => p@,
        }
    }

    /// The relative path that the change is about.
    pub fn path(&self) -> (r: &String)
        ensures
            r@ == self.rel(),
    {
        match self {
            FileChange::Modified(p) => p,
            FileChange::Added(p) => p,
            FileChange::Deleted(p) => p,
        }
    }
}

/// Relative path to content hash, one entry per regular file of a tree.
pub type SnapshotModel = Map<Seq<char>, Seq<char>>;

/// `p` is in one snapshot only, or in both with different hashes.
pub open spec fn differs(session: SnapshotModel, base: SnapshotModel, p: Seq<char>) -> bool {
    &&& (session.contains_key(p) || base.contains_key(p))
    &&& !(session.contains_key(p) && base.contains_key(p) && session[p] == base[p])
}

/// `c` records a difference between the snapshots, with the right variant.
pub open spec fn is_change_of(c: FileChange, session: SnapshotModel, base: SnapshotModel) -> bool {
    match c {
        FileChange::Added(p) => session.contains_key(p@) && !base.contains_key(p@),
        FileChange::Modified(p) => session.contains_key(p@) && base.contains_key(p@) && session[p@]
            != base[p@],
        FileChange::Deleted(p) => !session.contains_key(p@) && base.contains_key(p@),
    }
}

/// `cs` is the complete change list between the snapshots, in some order:
/// each path that differs appears exactly once, with its variant, and
/// nothing else appears.
pub open spec fn is_change_list(cs: Seq<FileChange>, session: SnapshotModel, base: SnapshotModel) -> bool {
    &&& forall|i: int| 0 <= i < cs.len() ==> is_change_of(#[trigger] cs[i], session, base)
    &&& forall|i: int, j: int| 0 <= i < j < cs.len() ==> (#[trigger] cs[i]).rel() != (#[trigger] cs[j]).rel()
    &&& forall|p: Seq<char>| #[trigger] differs(session, base, p) ==> exists|i: int|
        0 <= i < cs.len() && (#[trigger] cs[i]).rel() == p
}

/// The content hash of each regular file of a tree, by relative path.
pub struct Snapshot {
    files: StrTable,
}

impl View for Snapshot {
    type V = SnapshotModel;

    closed spec fn view(&self) -> SnapshotModel {
        self.files@
    }
}

impl Snapshot {
    pub closed spec fn wf(&self) -> bool {
        self.files.wf()
    }

    pub fn new() -> (r: Snapshot)
        ensures
            r.wf(),
            r@ == SnapshotModel::empty(),
    {
        Snapshot { files: StrTable::new() }
    }

    /// Records `hash` as the content hash of the file at `rel`.
    pub fn record(&mut self, rel: String, hash: String)
        requires
            old(self).wf(),
        ensures
            final(self).wf(),
            final(self)@ == old(self)@.insert(rel@, hash@),
    {
        self.files.insert(rel, hash);
    }

    /// Hashes `contents` and records the hash as that of the file at `rel`.
    pub fn insert_file(&mut self, rel: String, contents: &[u8])
        requires
            old(self).wf(),
        ensures
            final(self).wf(),
            final(self)@ == old(self)@.insert(rel@, content_hash_of(contents@)),
    {
        let hash = content_hash(contents);
        self.files.insert(rel, hash);
    }

    /// The content hash recorded for `rel`.
    pub fn get(&self, rel: &String) -> (r: Option<&String>)
        requires
            self.wf(),
        ensures
            r is Some <==> self@.contains_key(rel@),
            r matches Some(h) ==> h@ == self@[rel@],
    {
        self.files.get(rel)
    }

    /// The number of files recorded.
    pub fn len(&self) -> (r: usize)
        requires
            self.wf(),
        ensures
            r == self@.len(),
    {
        proof {
            self.files.lemma_keys();
            self.files.keys().unique_seq_to_set();
            assert(self.files.keys().to_set() =~= self@.dom());
        }
        self.files.len()
    }
}

/// The relative path under which a walked entry of the tree at `root` is
/// recorded: regular files below the root only.
pub fn snapshot_key(root: &str, entry: &str, kind: EntryKind) -> (r: Option<String>)
    ensures
        r is Some <==> (kind == EntryKind::File && is_within(entry@, root@) && relative_part(entry@, root@).len()
            > 0),
        r matches Some(rel) ==> rel@ == relative_part(entry@, root@),
{
    match kind {
        EntryKind::File => {},
        _ => return None,
    }
    match strip_root(entry, root) {
        None => None,
        Some(rel) => {
            if rel.as_str().unicode_len() == 0 {
                None
            } else {
                Some(rel)
            }
        },
    }
}

/// The changes that turn `base` into `session`: `Added` for a path that only
/// the session has, `Modified` for one whose hashes differ, `Deleted` for one
/// that only the base has.
pub fn compute_diff(session: &Snapshot, base: &Snapshot) -> (r: Vec<FileChange>)
    requires
        session.wf(),
        base.wf(),
    ensures
        is_change_list(r@, session@, base@),
{
    let ghost s = session@;
    let ghost b = base@;
    let ghost skeys = session.files.keys();
    let ghost bkeys = base.files.keys();
    proof {
        session.files.lemma_keys();
        base.files.lemma_keys();
    }
    let mut changes: Vec<FileChange> = Vec::new();
    let n = session.files.len();
    let mut i: usize = 0;
    while i < n
        invariant
            session.wf(),
            base.wf(),
            s == session@,
            b == base@,
            n == skeys.len(),
            i <= n,
            skeys == session.files.keys(),
            skeys.no_duplicates(),
            forall|j: int| 0 <= j < skeys.len() ==> #[trigger] s.contains_key(skeys[j]),
            forall|k: int| 0 <= k < changes.len() ==> is_change_of(#[trigger] changes@[k], s, b),
            forall|k1: int, k2: int|
                0 <= k1 < k2 < changes.len() ==> (#[trigger] changes@[k1]).rel() != (#[trigger] changes@[k2]).rel(),
            forall|k: int| 0 <= k < changes.len() ==> exists|j: int|
                0 <= j < i && skeys[j] == (#[trigger] changes@[k]).rel(),
            forall|j: int| 0 <= j < i && differs(s, b, #[trigger] skeys[j]) ==> exists|k: int|
                0 <= k < changes.len() && (#[trigger] changes@[k]).rel() == skeys[j],
        decreases n - i,
    {
        let rel = session.files.key_at(i);
        let hash = session.files.value_at(i);
        let ghost before = changes@;
        proof {
            assert(s.contains_key(skeys[i as int]));
        }
        match base.get(rel) {
            Some(base_hash) => {
                let same = *hash == *base_hash;
                if !same {
                    changes.push(FileChange::Modified(rel.clone()));
                }
            },
            None => {
                changes.push(FileChange::Added(rel.clone()));
            },
        }
        proof {
            assert forall|k: int| 0 <= k < before.len() implies changes@[k] == before[k] by {}
            if changes.len() > before.len() {
                let last = changes.len() - 1;
                assert(changes@[last].rel() == skeys[i as int]);
                assert forall|k1: int, k2: int|
                    0 <= k1 < k2 < changes.len() implies (#[trigger] changes@[k1]).rel() != (#[trigger] changes@[k2]).rel() by {
                    if k2 == last {
                        assert(changes@[k1] == before[k1]);
                        let j = choose|j: int| 0 <= j < i && skeys[j] == (#[trigger] before[k1]).rel();
                        assert(skeys[j] != skeys[i as int]);
                    } else {
                        assert(changes@[k1] == before[k1] && changes@[k2] == before[k2]);
                    }
                }
                assert forall|k: int| 0 <= k < changes.len() implies exists|j: int|
                    0 <= j < i + 1 && skeys[j] == (#[trigger] changes@[k]).rel() by {
                    if k < last {
                        assert(changes@[k] == before[k]);
                    }
                }
                assert(skeys[i as int] == changes@[last].rel());
            } else {
                assert(changes@ == before);
                assert(!differs(s, b, skeys[i as int]));
            }
            assert forall|j: int| 0 <= j < i + 1 && differs(s, b, #[trigger] skeys[j]) implies exists|k: int|
                0 <= k < changes.len() && (#[trigger] changes@[k]).rel() == skeys[j] by {
                if j < i {
                    let k = choose|k: int| 0 <= k < before.len() && (#[trigger] before[k]).rel() == skeys[j];
                    assert(changes@[k] == before[k]);
                } else {
                    assert(changes@[changes.len() - 1].rel() == skeys[j]);
                }
            }
        }
        i = i + 1;
    }
    let m = base.files.len();
    let mut i: usize = 0;
    while i < m
        invariant
            session.wf(),
            base.wf(),
            s == session@,
            b == base@,
            m == bkeys.len(),
            i <= m,
            bkeys == base.files.keys(),
            bkeys.no_duplicates(),
            forall|j: int| 0 <= j < bkeys.len() ==> #[trigger] b.contains_key(bkeys[j]),
            forall|k: int| 0 <= k < changes.len() ==> is_change_of(#[trigger] changes@[k], s, b),
            forall|k1: int, k2: int|
                0 <= k1 < k2 < changes.len() ==> (#[trigger] changes@[k1]).rel() != (#[trigger] changes@[k2]).rel(),
            forall|k: int| 0 <= k < changes.len() ==> s.contains_key((#[trigger] changes@[k]).rel()) || exists|j: int|
                0 <= j < i && bkeys[j] == changes@[k].rel(),
            forall|p: Seq<char>| s.contains_key(p) && #[trigger] differs(s, b, p) ==> exists|k: int|
                0 <= k < changes.len() && (#[trigger] changes@[k]).rel() == p,
            forall|j: int| 0 <= j < i && differs(s, b, #[trigger] bkeys[j]) ==> exists|k: int|
                0 <= k < changes.len() && (#[trigger] changes@[k]).rel() == bkeys[j],
        decreases m - i,
    {
        let rel = base.files.key_at(i);
        let ghost before = changes@;
        proof {
            assert(b.contains_key(bkeys[i as int]));
        }
        if session.get(rel).is_none() {
            changes.push(FileChange::Deleted(rel.clone()));
        }
        proof {
            assert forall|k: int| 0 <= k < before.len() implies changes@[k] == before[k] by {}
            if changes.len() > before.len() {
                let last = changes.len() - 1;
                assert(changes@[last].rel() == bkeys[i as int]);
                assert forall|k1: int, k2: int|
                    0 <= k1 < k2 < changes.len() implies (#[trigger] changes@[k1]).rel() != (#[trigger] changes@[k2]).rel() by {
                    if k2 == last {
                        assert(changes@[k1] == before[k1]);
                        assert(!s.contains_key(bkeys[i as int]));
                        if !s.contains_key(before[k1].rel()) {
                            let j = choose|j: int| 0 <= j < i && bkeys[j] == before[k1].rel();
                            assert(bkeys[j] != bkeys[i as int]);
                        }
                    } else {
                        assert(changes@[k1] == before[k1] && changes@[k2] == before[k2]);
                    }
                }
                assert forall|k: int| 0 <= k < changes.len() implies s.contains_key((#[trigger] changes@[k]).rel()) || exists|j: int|
                    0 <= j < i + 1 && bkeys[j] == changes@[k].rel() by {
                    if k < last {
                        assert(changes@[k] == before[k]);
                    } else {
                        assert(bkeys[i as int] == changes@[k].rel());
                    }
                }
                assert forall|p: Seq<char>| s.contains_key(p) && #[trigger] differs(s, b, p) implies exists|k: int|
                    0 <= k < changes.len() && (#[trigger] changes@[k]).rel() == p by {
                    let k = choose|k: int| 0 <= k < before.len() && (#[trigger] before[k]).rel() == p;
                    assert(changes@[k] == before[k]);
                }
            } else {
                assert(changes@ == before);
            }
            assert forall|j: int| 0 <= j < i + 1 && differs(s, b, #[trigger] bkeys[j]) implies exists|k: int|
                0 <= k < changes.len() && (#[trigger] changes@[k]).rel() == bkeys[j] by {
                if j < i {
                    let k = choose|k: int| 0 <= k < before.len() && (#[trigger] before[k]).rel() == bkeys[j];
                    assert(changes@[k] == before[k]);
                } else if s.contains_key(bkeys[j]) {
                } else {
                    assert(changes.len() > before.len());
                    assert(changes@[changes.len() - 1].rel() == bkeys[j]);
                }
            }
        }
        i = i + 1;
    }
    proof {
        assert forall|p: Seq<char>| #[trigger] differs(s, b, p) implies exists|k: int|
            0 <= k < changes.len() && (#[trigger] changes@[k]).rel() == p by {
            if !s.contains_key(p) {
                assert(bkeys.contains(p));
                let j = choose|j: int| 0 <= j < bkeys.len() && bkeys[j] == p;
                assert(differs(s, b, bkeys[j]));
            }
        }
    }
    changes
}

/// One filesystem action that carries a change from the session tree to the base.
#[derive(Debug, Clone, PartialEq, Eq)]
pub enum ApplyStep {
    /// Copy the file at `from` over `to`, creating the missing parent directories of `to`.
    CopyFile { from: String, to: String },
    /// Remove the file at `target`; a missing file is no error.
    RemoveFile { target: String },
}

/// `step` is the action for `change`, with paths under the two roots.
pub open spec fn is_step_for(
    step: ApplyStep,
    change: FileChange,
    session_root: Seq<char>,
    base_root: Seq<char>,
) -> bool {
    match change {
        FileChange::Deleted(p) => step == ApplyStep::RemoveFile { target: step->target }
            && step->target@ == joined(base_root, p@),
        _ => step == (ApplyStep::CopyFile { from: step->from, to: step->to })
            && step->from@ == joined(session_root, change.rel())
            && step->to@ == joined(base_root, change.rel()),
    }
}

/// The actions that apply `changes`, one per change and in the same order:
/// added and modified files are copied from the session to the base, deleted
/// ones are removed from the base.
pub fn plan_changes(session_root: &str, base_root: &str, changes: &Vec<FileChange>) -> (r: Vec<ApplyStep>)
    ensures
        r.len() == changes.len(),
        forall|i: int| 0 <= i < r.len() ==> is_step_for(#[trigger] r@[i], changes@[i], session_root@, base_root@),
{
    let mut steps: Vec<ApplyStep> = Vec::new();
    let mut i: usize = 0;
    while i < changes.len()
        invariant
            i <= changes.len(),
            steps.len() == i,
            forall|k: int| 0 <= k < i ==> is_step_for(#[trigger] steps@[k], changes@[k], session_root@, base_root@),
        decreases changes.len() - i,
    {
        let step = match &changes[i] {
            FileChange::Deleted(p) => ApplyStep::RemoveFile { target: join_path(base_root, p.as_str()) },
            FileChange::Added(p) => ApplyStep::CopyFile {
                from: join_path(session_root, p.as_str()),
                to: join_path(base_root, p.as_str()),
            },
            FileChange::Modified(p) => ApplyStep::CopyFile {
                from: join_path(session_root, p.as_str()),
                to: join_path(base_root, p.as_str()),
            },
        };
        steps.push(step);
        i = i + 1;
    }
    steps
}

} // verus!
