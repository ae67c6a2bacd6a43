//! Decisions drawn from what version control reports.

use vstd::prelude::*;
use crate::model::GitStatus;
use crate::text::{chars_of, contains, contains_exec};

verus! {

/// How many of the latest commits are searched for error markers.
pub const RECENT_COMMITS: usize = 5;

/// A commit message that names unfinished or broken work.
pub open spec fn error_marker(message: Seq<char>) -> bool {
    contains(message, "FIXME"@) || contains(message, "TODO"@) || contains(message, "XXX"@)
        || contains(message, "HACK"@) || contains(message, "BUG"@)
}

/// One of the first `RECENT_COMMITS` commits, newest first, has a message
/// with an error marker; `None` stands for a commit whose message could not
/// be read.
pub open spec fn recent_error(messages: Seq<Option<String>>) -> bool {
    exists|i: int|
        0 <= i < messages.len() && i < RECENT_COMMITS && (#[trigger] messages[i] matches Some(m)
            && error_marker(m@))
}

fn has_marker(message: &String) -> (r: bool)
    ensures
        r == error_marker(message@),
{
    let c = chars_of(message.as_str());
    contains_exec(&c, "FIXME") || contains_exec(&c, "TODO") || contains_exec(&c, "XXX")
        || contains_exec(&c, "HACK") || contains_exec(&c, "BUG")
}

/// Check the messages of the latest commits, newest first, for error
/// markers.
pub fn has_recent_error_markers(messages: &Vec<Option<String>>) -> (r: bool)
    ensures
        r == recent_error(messages@),
{
    let mut i: usize = 0;
    while i < messages.len() && i < RECENT_COMMITS
        invariant
            i <= messages@.len(),
            i <= RECENT_COMMITS,
            forall|j: int|
                0 <= j < i ==> !(#[trigger] messages@[j] matches Some(m) && error_marker(m@)),
        decreases messages.len() - i,
    {
        match &messages[i] {
            Some(m) => {
                if has_marker(m) {
                    assert(messages@[i as int] matches Some(m) && error_marker(m@));
                    return true;
                }
            },
            None => {},
        }
        i += 1;
    }
    false
}

/// The status of a directory that is not a repository: clean, on no
/// branch, with no commits.
pub fn not_a_repository() -> (r: GitStatus)
    ensures
        !r.is_repo,
        r.branch is None,
        r.clean,
        r.last_commit is None,
        r.ahead == 0,
        r.behind == 0,
{
    GitStatus { is_repo: false, branch: None, clean: true, last_commit: None, ahead: 0, behind: 0 }
}

} // verus!
