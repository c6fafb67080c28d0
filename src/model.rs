//! A tree as a map from relative path to file bytes, what applying a change
//! list does to it, and what a commit therefore leaves in the base.
use vstd::prelude::*;
use crate::diff::{FileChange, SnapshotModel, differs, is_change_list};
use crate::digest::content_hash_of;

verus! {

/// The regular files of a directory tree: relative path to contents.
pub type Tree = Map<Seq<char>, Seq<u8>>;

/// The snapshot of a tree: relative path to content hash.
pub open spec fn snapshot_of(t: Tree) -> SnapshotModel {
    Map::new(|p: Seq<char>| t.contains_key(p), |p: Seq<char>| content_hash_of(t[p]))
}

/// `base` after one change is carried over from `session`.
pub open spec fn apply_change(base: Tree, session: Tree, c: FileChange) -> Tree {
    match c {
        FileChange::Deleted(p) => base.remove(p@),
        _ => base.insert(c.rel(), session[c.rel()]),
    }
}

/// `base` after the changes are carried over from `session`, first to last.
pub open spec fn apply_all(base: Tree, session: Tree, cs: Seq<FileChange>) -> Tree
    decreases cs.len(),
{
    if cs.len() == 0 {
        base
    } else {
        apply_change(apply_all(base, session, cs.drop_last()), session, cs.last())
    }
}

/// What a commit leaves in the base: the session's files, where a file
/// whose content hash did not change keeps the base's bytes.
pub open spec fn committed(base: Tree, session: Tree) -> Tree {
    Map::new(
        |p: Seq<char>| session.contains_key(p),
        |p: Seq<char>|
            if base.contains_key(p) && content_hash_of(base[p]) == content_hash_of(session[p]) {
                base[p]
            } else {
                session[p]
            },
    )
}

/// Some change in `cs` is about `p`.
pub open spec fn touches(cs: Seq<FileChange>, p: Seq<char>) -> bool {
    exists|i: int| 0 <= i < cs.len() && (#[trigger] cs[i]).rel() == p
}

/// Each change's variant agrees with the session: added and modified files
/// are in it, deleted ones are not.
pub open spec fn agrees_with(cs: Seq<FileChange>, session: Tree) -> bool {
    forall|i: int| 0 <= i < cs.len() ==> match #[trigger] cs[i] {
        FileChange::Deleted(p) => !session.contains_key(p@),
        _ => session.contains_key(cs[i].rel()),
    }
}

/// The base with every path that `cs` touches taken from the session.
pub open spec fn overlay(base: Tree, session: Tree, cs: Seq<FileChange>) -> Tree {
    Map::new(
        |p: Seq<char>| if touches(cs, p) { session.contains_key(p) } else { base.contains_key(p) },
        |p: Seq<char>| if touches(cs, p) { session[p] } else { base[p] },
    )
}

/// Applying changes in order takes each touched path from the session.
proof fn lemma_apply_overlay(base: Tree, session: Tree, cs: Seq<FileChange>)
    requires
        agrees_with(cs, session),
    ensures
        apply_all(base, session, cs) == overlay(base, session, cs),
    decreases cs.len(),
{
    if cs.len() > 0 {
        let init = cs.drop_last();
        let last = cs.last();
        assert forall|i: int| 0 <= i < init.len() implies match #[trigger] init[i] {
            FileChange::Deleted(p) => !session.contains_key(p@),
            _ => session.contains_key(init[i].rel()),
        } by {
            assert(init[i] == cs[i]);
        }
        lemma_apply_overlay(base, session, init);
        assert(cs[cs.len() - 1] == last);
        assert forall|p: Seq<char>| touches(cs, p) <==> (touches(init, p) || last.rel() == p) by {
            if touches(cs, p) {
                let i = choose|i: int| 0 <= i < cs.len() && (#[trigger] cs[i]).rel() == p;
                if i < cs.len() - 1 {
                    assert(init[i] == cs[i]);
                }
            }
            if touches(init, p) {
                let i = choose|i: int| 0 <= i < init.len() && (#[trigger] init[i]).rel() == p;
                assert(init[i] == cs[i]);
            }
        }
        assert(apply_all(base, session, cs) =~= overlay(base, session, cs));
    } else {
        assert(apply_all(base, session, cs) =~= overlay(base, session, cs));
    }
}

/// Committing a session carries its net changes into the base: applying the
/// change list between the two trees, in any order, leaves exactly the
/// session's files, each with the session's content hash and with the
/// session's bytes wherever the hash changed; files that the session no longer
/// has are gone.
pub proof fn lemma_commit_carries_session(base: Tree, session: Tree, cs: Seq<FileChange>)
    requires
        is_change_list(cs, snapshot_of(session), snapshot_of(base)),
    ensures
        apply_all(base, session, cs) == committed(base, session),
        forall|p: Seq<char>| #[trigger] apply_all(base, session, cs).contains_key(p) <==> session.contains_key(p),
        forall|p: Seq<char>|
            session.contains_key(p) ==> content_hash_of(#[trigger] apply_all(base, session, cs)[p])
                == content_hash_of(session[p]),
        forall|p: Seq<char>|
            session.contains_key(p) && !(base.contains_key(p) && content_hash_of(base[p]) == content_hash_of(session[p]))
                ==> #[trigger] apply_all(base, session, cs)[p] == session[p],
{
    let ss = snapshot_of(session);
    let bs = snapshot_of(base);
    assert forall|i: int| 0 <= i < cs.len() implies match #[trigger] cs[i] {
        FileChange::Deleted(p) => !session.contains_key(p@),
        _ => session.contains_key(cs[i].rel()),
    } by {
        assert(crate::diff::is_change_of(cs[i], ss, bs));
    }
    lemma_apply_overlay(base, session, cs);
    assert forall|p: Seq<char>| #[trigger] touches(cs, p) <==> differs(ss, bs, p) by {
        if touches(cs, p) {
            let i = choose|i: int| 0 <= i < cs.len() && (#[trigger] cs[i]).rel() == p;
            assert(crate::diff::is_change_of(cs[i], ss, bs));
        }
        if differs(ss, bs, p) {
            let i = choose|i: int| 0 <= i < cs.len() && (#[trigger] cs[i]).rel() == p;
        }
    }
    assert(overlay(base, session, cs) =~= committed(base, session));
}

/// A session that changed nothing commits no change and leaves the base as it was.
pub proof fn lemma_unchanged_session(base: Tree, cs: Seq<FileChange>)
    requires
        is_change_list(cs, snapshot_of(base), snapshot_of(base)),
    ensures
        cs.len() == 0,
        apply_all(base, base, cs) == base,
{
    if cs.len() > 0 {
        assert(crate::diff::is_change_of(cs[0], snapshot_of(base), snapshot_of(base)));
    }
}

/// Two sessions in a row that each changed nothing leave the base as it was.
pub proof fn lemma_two_unchanged_sessions(base: Tree, first: Seq<FileChange>, second: Seq<FileChange>)
    requires
        is_change_list(first, snapshot_of(base), snapshot_of(base)),
        is_change_list(
            second,
            snapshot_of(apply_all(base, base, first)),
            snapshot_of(apply_all(base, base, first)),
        ),
    ensures
        apply_all(apply_all(base, base, first), apply_all(base, base, first), second) == base,
{
    lemma_unchanged_session(base, first);
    lemma_unchanged_session(apply_all(base, base, first), second);
}

/// Deleting a file, writing it again and deleting it once more commits the
/// same base as deleting it once, and the file is gone from the base.
pub proof fn lemma_delete_twice(
    base: Tree,
    session: Tree,
    p: Seq<char>,
    contents: Seq<u8>,
    once: Seq<FileChange>,
    twice: Seq<FileChange>,
)
    requires
        is_change_list(once, snapshot_of(session.remove(p)), snapshot_of(base)),
        is_change_list(twice, snapshot_of(session.remove(p).insert(p, contents).remove(p)), snapshot_of(base)),
    ensures
        apply_all(base, session.remove(p).insert(p, contents).remove(p), twice)
            == apply_all(base, session.remove(p), once),
        !apply_all(base, session.remove(p), once).contains_key(p),
{
    assert(session.remove(p).insert(p, contents).remove(p) =~= session.remove(p));
    lemma_commit_carries_session(base, session.remove(p), once);
    lemma_commit_carries_session(base, session.remove(p), twice);
}

} // verus!
