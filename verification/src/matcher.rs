//! Glob patterns compiled into predicates over paths.

use crate::text::chars_of;
use globset::{GlobBuilder, GlobSet};
use vstd::prelude::*;

verus! {

/// The compiled form of glob patterns in `globset`. Nothing inside it is
/// visible here; `set_language` stands for what it matches.
#[verifier::external_type_specification]
#[verifier::external_body]
pub struct ExGlobSet(GlobSet);

/// The error with which `globset` refuses a pattern.
#[verifier::external_type_specification]
#[verifier::external_body]
pub struct ExGlobError(globset::Error);

/// The most `{` that a pattern may hold.
pub const MAX_BRACES: usize = 256;

/// The test for the character that opens a group of alternatives.
pub open spec fn is_open_brace() -> spec_fn(char) -> bool {
    |c: char| c == '{'
}

/// The number of `{` in a pattern. No group of alternatives is nested deeper
/// than that.
pub open spec fn brace_count(pattern: Seq<char>) -> nat {
    pattern.filter(is_open_brace()).len()
}

/// The paths that `globset` matches with the one pattern `pattern` where a
/// separator has to be matched literally: `*` and `?` do not match `/`, and
/// only `**` crosses directories. Its other options are the default ones.
/// `None` where it refuses the pattern. The answer is that of the target the
/// crate is built for: `globset` reads `\` as an escape where `/` is the only
/// path separator, and as a separator elsewhere.
pub uninterp spec fn glob_language(pattern: Seq<char>) -> Option<Set<Seq<char>>>;

/// The paths that a compiled set matches.
pub uninterp spec fn set_language(set: GlobSet) -> Set<Seq<char>>;

/// Builds the glob with `GlobBuilder`, `literal_separator` switched on, and
/// calls `GlobSet::new` on that one glob. Both return their failure as an
/// error: a pattern that does not parse, or one whose automaton cannot be
/// built. The parser nests one group for each `{` that is closed, and the
/// regex text is written by a function that calls itself once for each level
/// of nesting, so the number of `{` is bounded here to keep that recursion
/// short. The contract names the outcome after the pattern alone, since
/// neither call reads anything else.
#[verifier::external_body]
fn build_glob_set(pattern: &str) -> (r: Result<GlobSet, globset::Error>)
    requires
        brace_count(pattern@) <= MAX_BRACES,
    ensures
        match r {
            Ok(set) => glob_language(pattern@) == Some(set_language(set)),
            Err(_) => glob_language(pattern@) is None,
        },
{
    GlobSet::new([GlobBuilder::new(pattern).literal_separator(true).build()?])
}

/// Calls `GlobSet::is_match`, which is true when a glob of the set matches the
/// path, and reads nothing but the set and the path.
#[verifier::external_body]
fn glob_set_is_match(set: &GlobSet, path: &str) -> (b: bool)
    ensures
        b == set_language(*set).contains(path@),
{
    set.is_match(path)
}

/// Counts the `{` of a pattern.
fn count_braces(pattern: &str) -> (n: usize)
    ensures
        n == brace_count(pattern@),
{
    let chars = chars_of(pattern);
    let ghost test = is_open_brace();
    let mut n: usize = 0;
    let mut i: usize = 0;
    proof {
        reveal(Seq::filter);
        assert(chars@.take(0).filter(test) =~= Seq::<char>::empty());
    }
    while i < chars.len()
        invariant
            i <= chars.len(),
            chars@ == pattern@,
            test == is_open_brace(),
            n == chars@.take(i as int).filter(test).len(),
            n <= i,
        decreases chars.len() - i,
    {
        proof {
            assert(chars@.take(i + 1) =~= chars@.take(i as int).push(chars@[i as int]));
            chars@.take(i as int).lemma_filter_push(chars@[i as int], test);
        }
        if chars[i] == '{' {
            n += 1;
        }
        i += 1;
    }
    assert(chars@.take(i as int) =~= chars@);
    n
}

/// A pattern that could not be compiled.
#[derive(Debug, Clone, PartialEq, Eq)]
pub struct InvalidPattern {
    pub pattern: String,
}

/// A glob pattern together with its compiled form.
#[derive(Debug)]
pub struct PathMatcher {
    pattern: String,
    compiled: GlobSet,
}

impl PathMatcher {
    /// The pattern is within the bound, and the compiled form matches what
    /// the pattern stands for.
    #[verifier::type_invariant]
    spec fn well_formed(self) -> bool {
        &&& brace_count(self.pattern@) <= MAX_BRACES
        &&& glob_language(self.pattern@) == Some(set_language(self.compiled))
    }

    /// The text of the pattern.
    pub closed spec fn pattern_text(self) -> Seq<char> {
        self.pattern@
    }

    /// Whether the matcher accepts `path`.
    pub open spec fn accepts(self, path: Seq<char>) -> bool {
        pattern_accepts(self.pattern_text(), path)
    }

    /// Compiles `pattern`, or reports it as invalid: a pattern that is not
    /// well-formed, or one with more than `MAX_BRACES` of `{`.
    pub fn compile(pattern: &str) -> (r: Result<PathMatcher, InvalidPattern>)
        ensures
            r is Ok <==> pattern_is_valid(pattern@),
            r matches Ok(m) ==> m.pattern_text() == pattern@,
            r matches Err(e) ==> e.pattern@ == pattern@,
    {
        if count_braces(pattern) > MAX_BRACES {
            return Err(InvalidPattern { pattern: String::from_str(pattern) });
        }
        match build_glob_set(pattern) {
            Ok(compiled) => Ok(PathMatcher { pattern: String::from_str(pattern), compiled }),
            Err(_) => Err(InvalidPattern { pattern: String::from_str(pattern) }),
        }
    }

    /// The pattern that the matcher was compiled from.
    pub fn pattern(&self) -> (p: &String)
        ensures
            p@ == self.pattern_text(),
    {
        &self.pattern
    }

    /// Tests `path` against the pattern. The path is matched as it is given.
    pub fn matches(&self, path: &str) -> (b: bool)
        ensures
            b == self.accepts(path@),
    {
        proof {
            use_type_invariant(self);
        }
        glob_set_is_match(&self.compiled, path)
    }
}

/// Whether `pattern` is a glob that compiles: it holds no more than
/// `MAX_BRACES` of `{`, and `globset` takes it.
pub open spec fn pattern_is_valid(pattern: Seq<char>) -> bool {
    brace_count(pattern) <= MAX_BRACES && glob_language(pattern) is Some
}

/// Whether the glob `pattern` matches `path`; false for a pattern that does not
/// compile.
pub open spec fn pattern_accepts(pattern: Seq<char>, path: Seq<char>) -> bool {
    pattern_is_valid(pattern) && glob_language(pattern)->0.contains(path)
}

/// Matching is a function of the pattern and the path: two matchers of one
/// pattern give one answer on one path, however often they are asked.
pub proof fn lemma_matching_is_a_function(first: PathMatcher, second: PathMatcher, path: Seq<char>)
    requires
        first.pattern_text() == second.pattern_text(),
    ensures
        first.accepts(path) == second.accepts(path),
{
}

} // verus!
