//! How a chosen command is run: as a program with its arguments, or through
//! a host shell.
use vstd::prelude::*;
use crate::text::{chars_of, string_views};

verus! {

#[verifier::external_type_specification]
#[verifier::external_body]
pub struct ExParseError(shell_words::ParseError);

/// The words of a command line under POSIX shell quoting, as
/// `shell_words::split` gives them; none where the quoting is unbalanced.
pub uninterp spec fn shell_words_of(s: Seq<char>) -> Option<Seq<Seq<char>>>;

/// Relies on `shell_words::split`: the words of a command line, or an error
/// for an unterminated quote or escape; the outcome depends on the text alone.
#[verifier::external_body]
fn split_words(s: &str) -> (r: Result<Vec<String>, shell_words::ParseError>)
    ensures
        match r {
            Ok(v) => shell_words_of(s@) == Some(string_views(v@)),
            Err(_) => shell_words_of(s@) is None,
        },
{
    shell_words::split(s)
}

/// The program and arguments to run `command` with directly: its words,
/// where it has some and holds neither a pipe nor a redirection; else none,
/// and the command goes to a host shell.
pub open spec fn direct_words(command: Seq<char>, words: Option<Seq<Seq<char>>>) -> Option<
    Seq<Seq<char>>,
> {
    match words {
        Some(w) => if w.len() > 0 && !command.contains('|') && !command.contains('>') {
            Some(w)
        } else {
            None
        },
        None => None,
    }
}

pub open spec fn words_view(o: Option<Vec<String>>) -> Option<Seq<Seq<char>>> {
    match o {
        Some(v) => Some(string_views(v@)),
        None => None,
    }
}

/// The words to run `command` with directly, given its split into words
/// (`None` where the split failed).
pub fn direct_argv_from(command: &str, words: Option<Vec<String>>) -> (r: Option<Vec<String>>)
    ensures
        words_view(r) == direct_words(command@, words_view(words)),
{
    let c = chars_of(command);
    let mut special = false;
    let mut i: usize = 0;
    while i < c.len()
        invariant
            i <= c.len(),
            c@ == command@,
            special == exists|j: int| 0 <= j < i && (c@[j] == '|' || c@[j] == '>'),
        decreases c.len() - i,
    {
        if c[i] == '|' || c[i] == '>' {
            special = true;
        }
        i = i + 1;
    }
    assert(special == (command@.contains('|') || command@.contains('>')));
    match words {
        Some(w) => if w.len() > 0 && !special {
            Some(w)
        } else {
            None
        },
        None => None,
    }
}

/// The words to run `command` with directly, where it splits into words and
/// holds neither a pipe nor a redirection; else `None`.
pub fn direct_argv(command: &str) -> (r: Option<Vec<String>>)
    ensures
        words_view(r) == direct_words(command@, shell_words_of(command@)),
{
    let words = match split_words(command) {
        Ok(v) => Some(v),
        Err(_) => None,
    };
    direct_argv_from(command, words)
}

} // verus!
