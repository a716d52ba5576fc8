//! Chat: telling a command from talk, and a command's keyword from its
//! arguments.

use vstd::prelude::*;
use vstd::string::StrSliceExecFns;

verus! {

/// The place of the first space in `s`, or the length of `s` if it has none.
pub open spec fn spec_first_space(s: Seq<char>) -> int
    decreases s.len(),
{
    if s.len() == 0 {
        0
    } else if s[0] == ' ' {
        0
    } else {
        1 + spec_first_space(s.skip(1))
    }
}

/// The keyword of a command line: what stands before its first space.
pub open spec fn spec_keyword(line: Seq<char>) -> Seq<char> {
    line.take(spec_first_space(line))
}

/// The arguments of a command line: what stands behind its first space, and
/// nothing if it has none.
pub open spec fn spec_args(line: Seq<char>) -> Seq<char> {
    if spec_first_space(line) < line.len() {
        line.skip(spec_first_space(line) + 1)
    } else {
        Seq::empty()
    }
}

/// Whether a chat text is a command: it begins with a slash and goes on.
pub open spec fn spec_is_command(text: Seq<char>) -> bool {
    text.len() > 1 && text[0] == '/'
}

/// A command as typed: its keyword and the rest of the line.
#[derive(Debug)]
pub struct Command<'a> {
    pub keyword: &'a str,
    pub args: &'a str,
}

proof fn lemma_first_space(s: Seq<char>, k: int)
    requires
        0 <= k <= s.len(),
        forall|j: int| 0 <= j < k ==> s[j] != ' ',
        k < s.len() ==> s[k] == ' ',
    ensures
        spec_first_space(s) == k,
    decreases k,
{
    if k > 0 {
        let rest = s.skip(1);
        lemma_first_space(rest, k - 1);
    }
}

/// Splits a command line at its first space.
pub fn split_command<'a>(line: &'a str) -> (cmd: Command<'a>)
    ensures
        cmd.keyword@ == spec_keyword(line@),
        cmd.args@ == spec_args(line@),
{
    let n: usize = line.unicode_len();
    let mut k: usize = 0;
    while k < n && line.get_char(k) != ' '
        invariant
            n == line@.len(),
            k <= n,
            forall|j: int| 0 <= j < k ==> line@[j] != ' ',
        decreases n - k,
    {
        k = k + 1;
    }
    proof {
        lemma_first_space(line@, k as int);
    }
    let keyword = line.substring_char(0, k);
    if k < n {
        Command { keyword, args: line.substring_char(k + 1, n) }
    } else {
        let args = line.substring_char(n, n);
        Command { keyword, args }
    }
}

/// Looks a keyword up among the keywords of the known commands, and returns
/// the place of the first that equals it. `None` means that the command is
/// unknown, which the requester alone is told.
pub fn find_command(known: &Vec<String>, keyword: &str) -> (found: Option<usize>)
    ensures
        match found {
            Some(i) => i < known.len() && known@[i as int]@ == keyword@ && forall|j: int|
                0 <= j < i ==> (#[trigger] known@[j])@ != keyword@,
            None => forall|j: int| 0 <= j < known.len() ==> (#[trigger] known@[j])@ != keyword@,
        },
{
    let wanted: String = keyword.to_owned();
    let mut i: usize = 0;
    while i < known.len()
        invariant
            i <= known.len(),
            wanted@ == keyword@,
            forall|j: int| 0 <= j < i ==> (#[trigger] known@[j])@ != keyword@,
        decreases known.len() - i,
    {
        if known[i] == wanted {
            return Some(i);
        }
        i = i + 1;
    }
    None
}

/// Tells a command from talk. A text that begins with a slash and goes on is
/// a command, made of what follows the slash; anything else is talk.
pub fn route<'a>(text: &'a str) -> (cmd: Option<Command<'a>>)
    ensures
        cmd is Some <==> spec_is_command(text@),
        cmd is Some ==> cmd->0.keyword@ == spec_keyword(text@.skip(1)) && cmd->0.args@
            == spec_args(text@.skip(1)),
{
    let n: usize = text.unicode_len();
    if n > 1 && text.get_char(0) == '/' {
        let line = text.substring_char(1, n);
        Some(split_command(line))
    } else {
        None
    }
}

} // verus!
