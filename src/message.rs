use vstd::prelude::*;

use crate::slack::message::{pretty_text, SUFFIX_COUNT};

verus! {

/// The suffix index after `i` in a reminder of at most `SUFFIX_COUNT`
/// commits: it runs one past the last emoji before wrapping to the first.
pub fn increase_index(i: usize) -> (r: usize)
    requires
        i < usize::MAX,
    ensures
        r == if i + 1 > SUFFIX_COUNT { 0 } else { i + 1 },
{
    let next = i + 1;
    if next > SUFFIX_COUNT {
        0
    } else {
        next
    }
}

/// A reminder of the commits merged on one day, one line each, ending with
/// their number; the empty string when there are none. Each commit gets its
/// own emoji, so at most `SUFFIX_COUNT` commits fit in one reminder.
pub fn prettify(commits: &Vec<String>) -> (r: String)
    requires
        commits@.len() <= SUFFIX_COUNT,
    ensures
        r@ == pretty_text(commits@),
{
    crate::slack::message::prettify(commits)
}

} // verus!
