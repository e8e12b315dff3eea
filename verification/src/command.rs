//! Command strings and the command lines made from them.

use crate::text::chars_of;
use vstd::prelude::*;

verus! {

/// The ASCII whitespace characters: space, tab, line feed, form feed and
/// carriage return.
pub open spec fn is_space(c: char) -> bool {
    c == ' ' || c == '\t' || c == '\n' || c == '\x0C' || c == '\r'
}

/// The length of the leading run of characters of `s` that are not whitespace.
pub open spec fn word_len(s: Seq<char>) -> nat
    decreases s.len(),
{
    if s.len() == 0 || is_space(s[0]) {
        0
    } else {
        1 + word_len(s.drop_first())
    }
}

/// The words of `s`: its maximal runs of characters that are not whitespace,
/// from left to right.
pub open spec fn tokens(s: Seq<char>) -> Seq<Seq<char>>
    decreases s.len(),
{
    if s.len() == 0 {
        Seq::empty()
    } else if is_space(s[0]) {
        tokens(s.drop_first())
    } else {
        proof {
            lemma_word_len_bounds(s);
        }
        seq![s.take(word_len(s) as int)] + tokens(s.skip(word_len(s) as int))
    }
}

/// A leading word is no longer than the text, and not empty where the text
/// starts with a character that is not whitespace.
pub proof fn lemma_word_len_bounds(s: Seq<char>)
    ensures
        word_len(s) <= s.len(),
        s.len() > 0 && !is_space(s[0]) ==> word_len(s) >= 1,
    decreases s.len(),
{
    if s.len() > 0 && !is_space(s[0]) {
        lemma_word_len_bounds(s.drop_first());
    }
}

/// The leading word ends at the first whitespace character or at the end of
/// the text.
pub proof fn lemma_word_len_is(s: Seq<char>, n: nat)
    requires
        n <= s.len(),
        forall|k: int| 0 <= k < n ==> !is_space(#[trigger] s[k]),
        n == s.len() || is_space(s[n as int]),
    ensures
        word_len(s) == n,
    decreases n,
{
    if n > 0 {
        lemma_word_len_is(s.drop_first(), (n - 1) as nat);
    }
}

/// Whether `c` is an ASCII whitespace character.
pub fn is_whitespace(c: char) -> (b: bool)
    ensures
        b == is_space(c),
{
    c == ' ' || c == '\t' || c == '\n' || c == '\x0C' || c == '\r'
}

/// Splits a command string on ASCII whitespace.
pub fn tokenize(command: &str) -> (r: Vec<String>)
    ensures
        r.deep_view() == tokens(command@),
{
    let chars = chars_of(command);
    let n = chars.len();
    let mut out: Vec<String> = Vec::new();
    let mut i: usize = 0;
    assert(command@.skip(0) =~= command@);
    while i < n
        invariant
            chars@ == command@,
            n == chars.len(),
            i <= n,
            tokens(command@) == out.deep_view() + tokens(command@.skip(i as int)),
        decreases n - i,
    {
        let ghost rest = command@.skip(i as int);
        if is_whitespace(chars[i]) {
            assert(rest.drop_first() =~= command@.skip(i + 1));
            i += 1;
        } else {
            let start = i;
            let mut end = i + 1;
            while end < n && !is_whitespace(chars[end])
                invariant
                    start < end <= n,
                    n == chars.len(),
                    forall|k: int| start <= k < end ==> !is_space(#[trigger] chars@[k]),
                decreases n - end,
            {
                end += 1;
            }
            let word = String::from_str(command.substring_char(start, end));
            proof {
                let len = (end - start) as nat;
                lemma_word_len_is(rest, len);
                assert(rest.take(len as int) =~= command@.subrange(start as int, end as int));
                assert(rest.skip(len as int) =~= command@.skip(end as int));
            }
            out.push(word);
            i = end;
        }
    }
    out
}

/// A command line as the contracts read it.
pub struct CommandLine {
    pub program: Seq<char>,
    pub args: Seq<Seq<char>>,
    pub cwd: Seq<char>,
}

/// A command line: the executable, all of its arguments, and the directory
/// in which the process is started.
#[derive(Debug, Clone, PartialEq, Eq)]
pub struct Invocation {
    pub program: String,
    pub args: Vec<String>,
    pub cwd: String,
}

impl View for Invocation {
    type V = CommandLine;

    open spec fn view(&self) -> CommandLine {
        CommandLine { program: self.program@, args: self.args.deep_view(), cwd: self.cwd@ }
    }
}

/// The command line of `command` on `files`: the first word is the executable,
/// the other words are its first arguments, and the files follow them; the
/// process is started in `cwd`. A command without a word has no command line.
pub open spec fn command_line(
    command: Seq<char>,
    files: Seq<Seq<char>>,
    cwd: Seq<char>,
) -> Option<CommandLine> {
    let words = tokens(command);
    if words.len() == 0 {
        None
    } else {
        Some(CommandLine { program: words[0], args: words.drop_first() + files, cwd })
    }
}

/// Builds the command line of `command` on `files`, to be started in `cwd`.
pub fn invocation(command: &str, files: &Vec<String>, cwd: &str) -> (r: Option<Invocation>)
    ensures
        match r {
            Some(line) => command_line(command@, files.deep_view(), cwd@) == Some(line@),
            None => command_line(command@, files.deep_view(), cwd@) is None,
        },
{
    let mut words = tokenize(command);
    if words.len() == 0 {
        return None;
    }
    let ghost all = words.deep_view();
    let program = words.remove(0);
    let mut args = words;
    let mut i: usize = 0;
    while i < files.len()
        invariant
            i <= files.len(),
            all.len() > 0,
            args.deep_view() =~= all.drop_first() + files.deep_view().take(i as int),
        decreases files.len() - i,
    {
        let ghost before = args.deep_view();
        args.push(files[i].clone());
        assert(args.deep_view() =~= before.push(files[i as int]@));
        i += 1;
    }
    assert(files.deep_view().take(i as int) =~= files.deep_view());
    Some(Invocation { program, args, cwd: String::from_str(cwd) })
}

} // verus!
