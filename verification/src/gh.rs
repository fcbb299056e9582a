//! Parsing of the credential helper's output: the access token and the
//! (owner, repository) pair. The helper itself is run outside the library;
//! only its output text is handled here.

use vstd::prelude::*;
use vstd::string::StrSliceExecFns;

use crate::strutil::{first_index_of, str_trim, trim_spec, find_char};

verus! {

/// An error of the credential helper path: no token, or no owner/repository
/// pair, could be obtained.
#[derive(Clone, Copy, Debug, PartialEq, Eq, Structural)]
pub enum GitHubCLIError {
    NoToken,
    NoOwner,
}

impl GitHubCLIError {
    /// A human-readable description of the error.
    pub fn message(&self) -> (r: &'static str)
        ensures
            *self is NoToken ==> r@ == "No Token found"@,
            *self is NoOwner ==> r@ == "No Owner found"@,
    {
        match self {
            GitHubCLIError::NoToken => "No Token found",
            GitHubCLIError::NoOwner => "No Owner found",
        }
    }
}

/// The access token in the helper's output: the output trimmed.
pub fn token_from_output(output: &str) -> (r: String)
    ensures
        r@ == trim_spec(output@),
{
    str_trim(output).to_owned()
}

/// The (owner, name) pair in the helper's output: the output trimmed, then
/// split at its first line break. An output without one carries no pair.
pub fn parse_owner_name(output: &str) -> (r: Result<(String, String), GitHubCLIError>)
    ensures
        ({
            let t = trim_spec(output@);
            let cut = first_index_of(t, '\n');
            match r {
                Ok(pair) => cut >= 0 && pair.0@ == t.subrange(0, cut) && pair.1@ == t.subrange(
                    cut + 1,
                    t.len() as int,
                ),
                Err(e) => e is NoOwner && cut < 0,
            }
        }),
{
    let t = str_trim(output);
    let len = t.unicode_len();
    match find_char(t, '\n') {
        None => Err(GitHubCLIError::NoOwner),
        Some(cut) => {
            let owner = t.substring_char(0, cut).to_owned();
            let name = t.substring_char(cut + 1, len).to_owned();
            Ok((owner, name))
        },
    }
}

} // verus!
