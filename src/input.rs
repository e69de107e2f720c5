//! Command lines given as one string, such as a line typed at a prompt.
use vstd::prelude::*;

use crate::error::CliError;

verus! {

/// The words of a line split as a POSIX shell splits them, or `None` when
/// the line does not split.
pub uninterp spec fn shell_words(line: Seq<char>) -> Option<Seq<Seq<char>>>;

/// Relies on `shlex::split`: the words of the line, or `None` when the line
/// is erroneous.
#[verifier::external_body]
fn shell_split(line: &str) -> (r: Option<Vec<String>>)
    ensures
        match r {
            Some(w) => shell_words(line@) == Some(w@.map_values(|s: String| s@)),
            None => shell_words(line@) is None,
        },
{
    shlex::split(line)
}

/// The line that a program named `bin_name` sees when it is given `input`.
pub open spec fn command_line(bin_name: Seq<char>, input: Seq<char>) -> Seq<char> {
    bin_name + " "@ + input
}

/// The words of a split line, or the error for a line that did not split.
pub fn words_or_error(split: Option<Vec<String>>) -> (r: Result<Vec<String>, CliError>)
    ensures
        match split {
            Some(w) => r == Ok::<Vec<String>, CliError>(w),
            None => r matches Err(CliError::InputString),
        },
{
    match split {
        Some(w) => Ok(w),
        None => Err(CliError::InputString),
    }
}

/// Splits `input`, preceded by the program name `bin_name`, into the words
/// that a parser of command-line arguments takes.
pub fn split_command_line(bin_name: &str, input: &str) -> (r: Result<Vec<String>, CliError>)
    ensures
        match shell_words(command_line(bin_name@, input@)) {
            Some(w) => r is Ok && r->Ok_0@.map_values(|s: String| s@) == w,
            None => r matches Err(CliError::InputString),
        },
{
    proof {
        reveal_strlit(" ");
    }
    let line = String::from_str(bin_name).concat(" ").concat(input);
    words_or_error(shell_split(line.as_str()))
}

} // verus!
