//! The staged files of a repository, from the deltas between the tree of HEAD
//! and the index.

use crate::path::{join, joined, joined_all};
use vstd::prelude::*;
use vstd::seq_lib::{lemma_seq_concat_contains_all_elements, lemma_seq_contains_after_push};

verus! {

/// What looking up the commit of HEAD found.
#[derive(Debug, Clone, Copy, PartialEq, Eq, Structural)]
pub enum HeadState {
    /// HEAD points at a commit.
    Born,
    /// The repository has no commit yet.
    Unborn,
}

/// The tree that the index is compared with.
#[derive(Debug, Clone, Copy, PartialEq, Eq, Structural)]
pub enum DiffBase {
    /// The tree of the commit of HEAD.
    HeadTree,
    /// The empty tree: every entry of the index counts as staged.
    EmptyTree,
}

impl HeadState {
    /// The tree to compare the index with. A repository without a commit is
    /// compared with the empty tree.
    pub fn diff_base(self) -> (base: DiffBase)
        ensures
            base == (match self {
                HeadState::Born => DiffBase::HeadTree,
                HeadState::Unborn => DiffBase::EmptyTree,
            }),
    {
        match self {
            HeadState::Born => DiffBase::HeadTree,
            HeadState::Unborn => DiffBase::EmptyTree,
        }
    }
}

/// One change between the compared tree and the index. The paths are relative
/// to the root of the repository.
#[derive(Debug, Clone, PartialEq, Eq)]
pub struct Delta {
    /// The path on the side of the tree: absent for an addition.
    pub old_path: Option<String>,
    /// The path on the side of the index: absent for a deletion.
    pub new_path: Option<String>,
}

/// The path of one side of a delta, if the side has one.
pub open spec fn side_paths(path: Option<String>) -> Seq<Seq<char>> {
    match path {
        Some(p) => seq![p@],
        None => Seq::empty(),
    }
}

/// The paths that a delta names: the old one, then the new one.
pub open spec fn delta_paths(delta: Delta) -> Seq<Seq<char>> {
    side_paths(delta.old_path) + side_paths(delta.new_path)
}

/// The paths that the deltas name, in the order of the deltas.
pub open spec fn emitted(deltas: Seq<Delta>) -> Seq<Seq<char>>
    decreases deltas.len(),
{
    if deltas.len() == 0 {
        Seq::empty()
    } else {
        emitted(deltas.drop_last()) + delta_paths(deltas.last())
    }
}

/// `s` without the later occurrences of each of its values.
pub open spec fn first_occurrences<A>(s: Seq<A>) -> Seq<A>
    decreases s.len(),
{
    if s.len() == 0 {
        Seq::empty()
    } else {
        noted(first_occurrences(s.drop_last()), s.last())
    }
}

/// `kept` with `x` at its end, unless it holds `x`.
pub open spec fn noted<A>(kept: Seq<A>, x: A) -> Seq<A> {
    if kept.contains(x) {
        kept
    } else {
        kept.push(x)
    }
}

/// One more value is kept where it is new.
pub proof fn lemma_first_occurrences_push<A>(s: Seq<A>, x: A)
    ensures
        first_occurrences(s.push(x)) == noted(first_occurrences(s), x),
{
    assert(s.push(x).drop_last() =~= s);
}

/// The staged files of a repository at `root` whose diff gave `deltas`.
pub open spec fn staged(root: Seq<char>, deltas: Seq<Delta>) -> Seq<Seq<char>> {
    first_occurrences(joined_all(root, emitted(deltas)))
}

/// What is kept holds every value of the sequence, and nothing else.
pub proof fn lemma_first_occurrences_same_values<A>(s: Seq<A>)
    ensures
        forall|x: A| first_occurrences(s).contains(x) <==> s.contains(x),
    decreases s.len(),
{
    if s.len() > 0 {
        let front = s.drop_last();
        let kept = first_occurrences(front);
        lemma_first_occurrences_same_values(front);
        assert(front.push(s.last()) =~= s);
        assert forall|x: A| first_occurrences(s).contains(x) <==> s.contains(x) by {
            lemma_seq_contains_after_push(front, s.last(), x);
            lemma_seq_contains_after_push(kept, s.last(), x);
        }
    }
}

/// Nothing is kept twice.
pub proof fn lemma_first_occurrences_no_duplicates<A>(s: Seq<A>)
    ensures
        first_occurrences(s).no_duplicates(),
    decreases s.len(),
{
    if s.len() > 0 {
        lemma_first_occurrences_no_duplicates(s.drop_last());
    }
}

/// A staged file is listed once, however many deltas name it and on whichever
/// side, and every path that a delta names is listed.
pub proof fn lemma_staged_lists_each_path_once(root: Seq<char>, deltas: Seq<Delta>)
    ensures
        staged(root, deltas).no_duplicates(),
        forall|p: Seq<char>|
            staged(root, deltas).contains(p) <==> joined_all(root, emitted(deltas)).contains(p),
{
    lemma_first_occurrences_no_duplicates(joined_all(root, emitted(deltas)));
    lemma_first_occurrences_same_values(joined_all(root, emitted(deltas)));
}

/// The paths of the deltas so far are among those of all the deltas.
proof fn lemma_emitted_holds_delta(deltas: Seq<Delta>, i: int)
    requires
        0 <= i < deltas.len(),
    ensures
        forall|p: Seq<char>| delta_paths(deltas[i]).contains(p) ==> emitted(deltas).contains(p),
    decreases deltas.len(),
{
    let front = emitted(deltas.drop_last());
    let back = delta_paths(deltas.last());
    assert forall|p: Seq<char>| delta_paths(deltas[i]).contains(p) implies emitted(
        deltas,
    ).contains(p) by {
        lemma_seq_concat_contains_all_elements(front, back, p);
        if i < deltas.len() - 1 {
            lemma_emitted_holds_delta(deltas.drop_last(), i);
        }
    }
}

/// A path that the deltas name is staged under the root.
proof fn lemma_named_path_is_staged(root: Seq<char>, deltas: Seq<Delta>, p: Seq<char>)
    requires
        emitted(deltas).contains(p),
    ensures
        staged(root, deltas).contains(joined(root, p)),
{
    let named = emitted(deltas);
    let k = named.lemma_contains_to_index(p);
    assert(joined_all(root, named)[k] == joined(root, p));
    assert(joined_all(root, named).contains(joined(root, p)));
    lemma_first_occurrences_same_values(joined_all(root, named));
}

/// Whatever a delta names on either side is staged under the root.
pub proof fn lemma_delta_paths_are_staged(root: Seq<char>, deltas: Seq<Delta>, i: int)
    requires
        0 <= i < deltas.len(),
    ensures
        deltas[i].old_path matches Some(p) ==> staged(root, deltas).contains(joined(root, p@)),
        deltas[i].new_path matches Some(p) ==> staged(root, deltas).contains(joined(root, p@)),
{
    let both = delta_paths(deltas[i]);
    lemma_emitted_holds_delta(deltas, i);
    if deltas[i].old_path is Some {
        let p = deltas[i].old_path->0@;
        assert(both[0] == p);
        lemma_named_path_is_staged(root, deltas, p);
    }
    if deltas[i].new_path is Some {
        let p = deltas[i].new_path->0@;
        assert(both[both.len() - 1] == p);
        lemma_named_path_is_staged(root, deltas, p);
    }
}

/// A repository as the dispatch reads it: its root and the deltas between the
/// compared tree and the index.
#[derive(Debug, Clone, PartialEq, Eq)]
pub struct Repo {
    /// The root of the working tree.
    pub root: String,
    /// The deltas of the diff, in its order.
    pub deltas: Vec<Delta>,
}

/// Whether `paths` holds a path with the text of `path`.
fn holds(paths: &Vec<String>, path: &String) -> (b: bool)
    ensures
        b == paths.deep_view().contains(path@),
{
    let mut i: usize = 0;
    while i < paths.len()
        invariant
            i <= paths.len(),
            forall|k: int| 0 <= k < i ==> paths.deep_view()[k] != path@,
        decreases paths.len() - i,
    {
        if paths[i] == *path {
            assert(paths.deep_view()[i as int] == path@);
            return true;
        }
        i += 1;
    }
    false
}

/// Adds `path` under `root` to `out` unless it is there.
fn note_path(out: &mut Vec<String>, root: &str, path: &String)
    ensures
        final(out).deep_view() == noted(old(out).deep_view(), joined(root@, path@)),
{
    let full = join(root, path.as_str());
    if !holds(out, &full) {
        out.push(full);
    }
}

impl Repo {
    /// The staged files: each path that a delta names, under the root, listed
    /// once, where it is named first.
    pub fn staged_files(&self) -> (files: Vec<String>)
        ensures
            files.deep_view() == staged(self.root@, self.deltas@),
            files.deep_view().no_duplicates(),
    {
        let mut out: Vec<String> = Vec::new();
        let mut i: usize = 0;
        while i < self.deltas.len()
            invariant
                i <= self.deltas.len(),
                out.deep_view() == staged(self.root@, self.deltas@.take(i as int)),
            decreases self.deltas.len() - i,
        {
            let delta = &self.deltas[i];
            let ghost seen = emitted(self.deltas@.take(i as int));
            let ghost next = emitted(self.deltas@.take(i + 1));
            proof {
                assert(self.deltas@.take(i + 1).drop_last() =~= self.deltas@.take(i as int));
            }
            match &delta.old_path {
                Some(p) => {
                    note_path(&mut out, self.root.as_str(), p);
                    proof {
                        assert(joined_all(self.root@, seen.push(p@)) =~= joined_all(
                            self.root@,
                            seen,
                        ).push(joined(self.root@, p@)));
                        lemma_first_occurrences_push(
                            joined_all(self.root@, seen),
                            joined(self.root@, p@),
                        );
                    }
                },
                None => {},
            }
            let ghost middle = seen + side_paths(delta.old_path);
            assert(out.deep_view() == first_occurrences(joined_all(self.root@, middle))) by {
                if delta.old_path is Some {
                    assert(middle =~= seen.push(delta.old_path->0@));
                } else {
                    assert(middle =~= seen);
                }
            }
            match &delta.new_path {
                Some(p) => {
                    note_path(&mut out, self.root.as_str(), p);
                    proof {
                        assert(joined_all(self.root@, middle.push(p@)) =~= joined_all(
                            self.root@,
                            middle,
                        ).push(joined(self.root@, p@)));
                        lemma_first_occurrences_push(
                            joined_all(self.root@, middle),
                            joined(self.root@, p@),
                        );
                    }
                },
                None => {},
            }
            proof {
                if delta.new_path is Some {
                    assert(next =~= middle.push(delta.new_path->0@));
                } else {
                    assert(next =~= middle);
                }
            }
            i += 1;
        }
        proof {
            assert(self.deltas@.take(i as int) =~= self.deltas@);
            lemma_staged_lists_each_path_once(self.root@, self.deltas@);
        }
        out
    }
}

} // verus!
