//! Cloning a tree into a session directory, one walked entry at a time.
//!
//! Only directories and regular files are cloned. Symbolic links, devices,
//! sockets and the like are passed over, neither followed nor copied; the
//! tree differ ignores them as well.
use vstd::prelude::*;
use crate::paths::{is_within, joined, join_path, relative_part, strip_root};

verus! {

/// What kind of entry the walk met; links are not followed to decide it.
#[derive(Debug, Clone, Copy, PartialEq, Eq)]
pub enum EntryKind {
    Directory,
    File,
    Other,
}

/// What to do for one walked entry.
#[derive(Debug, Clone, PartialEq, Eq)]
pub enum CloneStep {
    /// Nothing: the root itself, an entry outside the root, or one that is
    /// neither a directory nor a regular file.
    Skip,
    /// Create this directory and its missing parents.
    CreateDir(String),
    /// Clone the file `from` to `to`, copy-on-write where the filesystem
    /// allows it and by a byte copy otherwise.
    CloneFile { from: String, to: String },
}

/// The step for the entry at `entry` of the kind `kind`, when `src_root` is
/// cloned to `dst_root`: the entry's place below `src_root`, taken below
/// `dst_root`.
pub fn clone_step(src_root: &str, dst_root: &str, entry: &str, kind: EntryKind) -> (r: CloneStep)
    ensures
        !is_within(entry@, src_root@) || relative_part(entry@, src_root@).len() == 0 || kind == EntryKind::Other
            ==> r == CloneStep::Skip,
        is_within(entry@, src_root@) && relative_part(entry@, src_root@).len() > 0 ==> match kind {
            EntryKind::Directory => r matches CloneStep::CreateDir(t) && t@ == joined(
                dst_root@,
                relative_part(entry@, src_root@),
            ),
            EntryKind::File => r matches CloneStep::CloneFile { from, to } && from@ == entry@ && to@
                == joined(dst_root@, relative_part(entry@, src_root@)),
            EntryKind::Other => r == CloneStep::Skip,
        },
{
    let rel = match strip_root(entry, src_root) {
        None => return CloneStep::Skip,
        Some(rel) => rel,
    };
    if rel.as_str().unicode_len() == 0 {
        return CloneStep::Skip;
    }
    match kind {
        EntryKind::Directory => CloneStep::CreateDir(join_path(dst_root, rel.as_str())),
        EntryKind::File => CloneStep::CloneFile { from: entry.to_owned(), to: join_path(dst_root, rel.as_str()) },
        EntryKind::Other => CloneStep::Skip,
    }
}

} // verus!
