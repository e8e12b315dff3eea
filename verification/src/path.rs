//! Paths as texts with `/` between their components.

use crate::text::chars_of;
use vstd::prelude::*;

verus! {

/// A path that starts at the root of the file system.
pub open spec fn is_absolute(path: Seq<char>) -> bool {
    path.len() > 0 && path[0] == '/'
}

/// `base` as the prefix of the paths below it: with a `/` at its end, unless it
/// is empty.
pub open spec fn as_prefix(base: Seq<char>) -> Seq<char> {
    if base.len() == 0 || base.last() == '/' {
        base
    } else {
        base.push('/')
    }
}

/// `path` under `root`. An absolute `path` stands for itself.
pub open spec fn joined(root: Seq<char>, path: Seq<char>) -> Seq<char> {
    if is_absolute(path) {
        path
    } else {
        as_prefix(root) + path
    }
}

/// `path` as seen from `base`: what follows `base` and its `/` in a path that
/// lies below `base`, and the path itself otherwise.
pub open spec fn relative_to(path: Seq<char>, base: Seq<char>) -> Seq<char> {
    if as_prefix(base).is_prefix_of(path) {
        path.skip(as_prefix(base).len() as int)
    } else {
        path
    }
}

/// Each path of `paths` under `root`.
pub open spec fn joined_all(root: Seq<char>, paths: Seq<Seq<char>>) -> Seq<Seq<char>> {
    paths.map_values(|p: Seq<char>| joined(root, p))
}

/// Each path of `paths` as seen from `base`.
pub open spec fn relative_all(paths: Seq<Seq<char>>, base: Seq<char>) -> Seq<Seq<char>> {
    paths.map_values(|p: Seq<char>| relative_to(p, base))
}

/// Puts `path` under `root`.
pub fn join(root: &str, path: &str) -> (r: String)
    ensures
        r@ == joined(root@, path@),
{
    let root_chars = chars_of(root);
    let path_chars = chars_of(path);
    if path_chars.len() > 0 && path_chars[0] == '/' {
        return String::from_str(path);
    }
    let n = root_chars.len();
    let mut out = String::from_str(root);
    if n > 0 && root_chars[n - 1] != '/' {
        proof {
            reveal_strlit("/");
        }
        out.append("/");
    }
    out.append(path);
    out
}

/// Whether `path` starts with the characters of `prefix`.
fn starts_with(path: &Vec<char>, prefix: &Vec<char>) -> (b: bool)
    ensures
        b == prefix@.is_prefix_of(path@),
{
    if prefix.len() > path.len() {
        return false;
    }
    let mut i: usize = 0;
    while i < prefix.len()
        invariant
            i <= prefix.len() <= path.len(),
            forall|k: int| 0 <= k < i ==> prefix@[k] == path@[k],
        decreases prefix.len() - i,
    {
        if prefix[i] != path[i] {
            return false;
        }
        i += 1;
    }
    true
}

/// Renders `path` as seen from `base`.
pub fn relativize(path: &str, base: &str) -> (r: String)
    ensures
        r@ == relative_to(path@, base@),
{
    let path_chars = chars_of(path);
    let mut prefix = chars_of(base);
    let n = prefix.len();
    if n > 0 && prefix[n - 1] != '/' {
        prefix.push('/');
    }
    if starts_with(&path_chars, &prefix) {
        String::from_str(path.substring_char(prefix.len(), path_chars.len()))
    } else {
        String::from_str(path)
    }
}

} // verus!
