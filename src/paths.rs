//! Paths as `/`-separated strings, compared by whole components.
use vstd::prelude::*;

verus! {

/// The path separator.
pub open spec fn is_sep(c: char) -> bool {
    c == '/'
}

/// `root` ends with a separator (as the filesystem root `/` does).
pub open spec fn ends_with_sep(root: Seq<char>) -> bool {
    root.len() > 0 && is_sep(root.last())
}

/// `path` is `root` itself or lies below it: `root` is a prefix of `path`
/// made of whole components, so `/a/bc` is not within `/a/b`.
pub open spec fn is_within(path: Seq<char>, root: Seq<char>) -> bool {
    &&& root.len() <= path.len()
    &&& path.subrange(0, root.len() as int) == root
    &&& (path.len() == root.len() || ends_with_sep(root) || is_sep(path[root.len() as int]))
}

/// What remains of `path` below `root`, without the separator between them.
pub open spec fn relative_part(path: Seq<char>, root: Seq<char>) -> Seq<char> {
    if path.len() == root.len() {
        Seq::empty()
    } else if ends_with_sep(root) {
        path.subrange(root.len() as int, path.len() as int)
    } else {
        path.subrange(root.len() as int + 1, path.len() as int)
    }
}

/// `rel` appended to `root`, with one separator between them.
pub open spec fn joined(root: Seq<char>, rel: Seq<char>) -> Seq<char> {
    if rel.len() == 0 {
        root
    } else if ends_with_sep(root) {
        root + rel
    } else {
        root + seq!['/'] + rel
    }
}

/// Whether `path` is `root` or lies below it.
pub fn path_within(path: &str, root: &str) -> (r: bool)
    ensures
        r == is_within(path@, root@),
{
    let plen = path.unicode_len();
    let rlen = root.unicode_len();
    if plen < rlen {
        return false;
    }
    let head = path.substring_char(0, rlen).to_owned();
    let whole_root = root.to_owned();
    if head != whole_root {
        return false;
    }
    if plen == rlen {
        return true;
    }
    if rlen > 0 && root.get_char(rlen - 1) == '/' {
        return true;
    }
    path.get_char(rlen) == '/'
}

/// `path` relative to `root`, if it lies within it (`Some("")` for `root` itself).
pub fn strip_root(path: &str, root: &str) -> (r: Option<String>)
    ensures
        r is Some <==> is_within(path@, root@),
        r matches Some(rel) ==> rel@ == relative_part(path@, root@),
{
    if !path_within(path, root) {
        return None;
    }
    let plen = path.unicode_len();
    let rlen = root.unicode_len();
    if plen == rlen {
        return Some(String::new());
    }
    if rlen > 0 && root.get_char(rlen - 1) == '/' {
        Some(path.substring_char(rlen, plen).to_owned())
    } else {
        Some(path.substring_char(rlen + 1, plen).to_owned())
    }
}

/// `rel` appended to `root`.
pub fn join_path(root: &str, rel: &str) -> (r: String)
    ensures
        r@ == joined(root@, rel@),
{
    let rlen = root.unicode_len();
    if rel.unicode_len() == 0 {
        return root.to_owned();
    }
    if rlen > 0 && root.get_char(rlen - 1) == '/' {
        root.to_owned().concat(rel)
    } else {
        let sep = "/";
        proof {
            reveal_strlit("/");
        }
        root.to_owned().concat(sep).concat(rel)
    }
}

} // verus!
