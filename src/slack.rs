use vstd::prelude::*;

use crate::git::repo_analyzer::{RetroCommit, WorkingBranch};
use crate::git::search_interval::{datetime_text, format_datetime, SearchInterval};
use message::{author_order, create_message, render_blocks, NEWLINE};

pub mod message;

verus! {

/// Opens the digest's header line, before the start of the interval.
pub const HEADER_OPEN: &'static str = "Team git-status from ";

/// Separates the two ends of the interval in the header line.
pub const HEADER_MIDDLE: &'static str = " to ";

/// The header line naming the interval, given the texts of its two ends.
pub open spec fn header(from_text: Seq<char>, to_text: Seq<char>) -> Seq<char> {
    HEADER_OPEN@ + from_text + HEADER_MIDDLE@ + to_text + NEWLINE@
}

/// What a digest holds: nothing when there is nothing to report, else the
/// header line followed by the author blocks in some lexicographic listing
/// of all authors.
pub open spec fn is_digest(
    r: Seq<char>,
    from_text: Seq<char>,
    to_text: Seq<char>,
    commits: Seq<RetroCommit>,
    branches: Seq<WorkingBranch>,
) -> bool {
    if commits.len() == 0 && branches.len() == 0 {
        r.len() == 0
    } else {
        exists|authors: Seq<Seq<char>>|
            author_order(authors, commits, branches) && r == header(from_text, to_text)
                + render_blocks(authors, commits, branches)
    }
}

/// The digest of `commits` and `branches` under a header that names the
/// interval by the given texts; the empty string when both are empty, which
/// tells the sender that there is nothing to send.
pub fn compose_digest(
    from_text: &str,
    to_text: &str,
    commits: &Vec<RetroCommit>,
    branches: &Vec<WorkingBranch>,
) -> (r: String)
    ensures
        is_digest(r@, from_text@, to_text@, commits@, branches@),
{
    if commits.len() == 0 && branches.len() == 0 {
        return String::new();
    }
    let body = create_message(commits, branches);
    let mut message = String::from_str(HEADER_OPEN);
    message.append(from_text);
    message.append(HEADER_MIDDLE);
    message.append(to_text);
    message.append(NEWLINE);
    message.append(body.as_str());
    message
}

/// What goes into one digest: the merged commits, the branches in progress
/// and the interval they were found in.
pub struct MessageIngredients {
    pub commits: Vec<RetroCommit>,
    pub branches: Vec<WorkingBranch>,
    pub interval: SearchInterval,
}

impl MessageIngredients {
    /// The digest for the chat channel, its header naming the interval's
    /// two ends as calendar dates.
    pub fn format_slack(&self) -> (r: String)
        requires
            self.interval.wf(),
        ensures
            is_digest(
                r@,
                datetime_text(self.interval.from as int),
                datetime_text(self.interval.to as int),
                self.commits@,
                self.branches@,
            ),
    {
        let from_text = format_datetime(self.interval.from);
        let to_text = format_datetime(self.interval.to);
        compose_digest(from_text.as_str(), to_text.as_str(), &self.commits, &self.branches)
    }
}

} // verus!
