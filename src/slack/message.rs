use vstd::prelude::*;

use crate::git::repo_analyzer::{RetroCommit, WorkingBranch};
use crate::text::{decimal, decimal_string, lemma_less_from_irreflexive, lemma_less_from_transitive, lemma_seq_less_total, seq_less, str_less};

verus! {

/// Opens the line of a merged commit.
pub const DONE_LINE: &'static str = "    [done] ";

/// Opens the line of a branch still in progress.
pub const IN_PROGRESS_LINE: &'static str = "    [in-progress] ";

/// Opens an author's heading.
pub const HEADING_OPEN: &'static str = "_";

/// Closes an author's heading and opens the preformatted block of their work.
pub const HEADING_CLOSE: &'static str = "_\n```\n";

/// Closes an author's preformatted block.
pub const BLOCK_CLOSE: &'static str = "```\n";

pub const NEWLINE: &'static str = "\n";

pub open spec fn str_views(v: Seq<String>) -> Seq<Seq<char>> {
    v.map_values(|s: String| s@)
}

/// The `[done]` lines of the commits by `author`, in the given order.
pub open spec fn done_lines(commits: Seq<RetroCommit>, author: Seq<char>) -> Seq<char>
    decreases commits.len(),
{
    if commits.len() == 0 {
        Seq::empty()
    } else {
        let rest = done_lines(commits.drop_last(), author);
        let c = commits.last();
        if c.author@ == author {
            rest + DONE_LINE@ + c.message@ + NEWLINE@
        } else {
            rest
        }
    }
}

/// The `[in-progress]` lines of the branches by `author`, in the given order.
pub open spec fn in_progress_lines(branches: Seq<WorkingBranch>, author: Seq<char>) -> Seq<char>
    decreases branches.len(),
{
    if branches.len() == 0 {
        Seq::empty()
    } else {
        let rest = in_progress_lines(branches.drop_last(), author);
        let b = branches.last();
        if b.author@ == author {
            rest + IN_PROGRESS_LINE@ + b.name@ + NEWLINE@
        } else {
            rest
        }
    }
}

/// One author's part of the digest: the name as a heading, then all of the
/// author's merged commits followed by all of the author's branches in
/// progress, inside a preformatted block.
pub open spec fn author_block(
    author: Seq<char>,
    commits: Seq<RetroCommit>,
    branches: Seq<WorkingBranch>,
) -> Seq<char> {
    HEADING_OPEN@ + author + HEADING_CLOSE@ + done_lines(commits, author) + in_progress_lines(
        branches,
        author,
    ) + BLOCK_CLOSE@
}

/// The blocks of the given authors, one after the other.
pub open spec fn render_blocks(
    authors: Seq<Seq<char>>,
    commits: Seq<RetroCommit>,
    branches: Seq<WorkingBranch>,
) -> Seq<char>
    decreases authors.len(),
{
    if authors.len() == 0 {
        Seq::empty()
    } else {
        render_blocks(authors.drop_last(), commits, branches) + author_block(
            authors.last(),
            commits,
            branches,
        )
    }
}

pub open spec fn is_author(
    a: Seq<char>,
    commits: Seq<RetroCommit>,
    branches: Seq<WorkingBranch>,
) -> bool {
    (exists|i: int| 0 <= i < commits.len() && #[trigger] commits[i].author@ == a) || (exists|j: int|
        0 <= j < branches.len() && #[trigger] branches[j].author@ == a)
}

pub open spec fn strictly_sorted(keys: Seq<Seq<char>>) -> bool {
    forall|i: int, j: int| 0 <= i < j < keys.len() ==> seq_less(#[trigger] keys[i], #[trigger] keys[j])
}

/// `authors` lists every author of a commit or branch exactly once, in
/// lexicographic order.
pub open spec fn author_order(
    authors: Seq<Seq<char>>,
    commits: Seq<RetroCommit>,
    branches: Seq<WorkingBranch>,
) -> bool {
    &&& strictly_sorted(authors)
    &&& forall|a: Seq<char>| authors.contains(a) <==> is_author(a, commits, branches)
}

/// A digest has one heading per author: an author listing in lexicographic
/// order holds no name twice, and every name in it is the author of some
/// commit or branch. Under each heading all the `[done]` lines come before
/// all the `[in-progress]` lines (see `author_block`).
pub proof fn lemma_one_heading_per_author(
    authors: Seq<Seq<char>>,
    commits: Seq<RetroCommit>,
    branches: Seq<WorkingBranch>,
)
    requires
        author_order(authors, commits, branches),
    ensures
        authors.no_duplicates(),
        forall|k: int| 0 <= k < authors.len() ==> is_author(#[trigger] authors[k], commits, branches),
{
    assert forall|i: int, j: int| 0 <= i < authors.len() && 0 <= j < authors.len() && i != j implies authors[i]
        != authors[j] by {
        if i < j {
            assert(seq_less(authors[i], authors[j]));
        } else {
            assert(seq_less(authors[j], authors[i]));
        }
        lemma_less_from_irreflexive(authors[i], 0);
    }
    assert forall|k: int| 0 <= k < authors.len() implies is_author(#[trigger] authors[k], commits, branches) by {
        assert(authors.contains(authors[k]));
    }
}

/// Adds `a` to the sorted list `keys` unless it is there already.
fn insert_sorted(keys: &mut Vec<String>, a: &String)
    requires
        strictly_sorted(str_views(old(keys)@)),
    ensures
        strictly_sorted(str_views(final(keys)@)),
        forall|x: Seq<char>|
            str_views(final(keys)@).contains(x) <==> (str_views(old(keys)@).contains(x) || x == a@),
{
    let ghost old_v = str_views(keys@);
    let n = keys.len();
    let mut i: usize = 0;
    while i < n && str_less(keys[i].as_str(), a.as_str())
        invariant
            n == keys@.len(),
            old_v == str_views(keys@),
            i <= n,
            forall|k: int| 0 <= k < i ==> seq_less(#[trigger] old_v[k], a@),
        decreases n - i,
    {
        i = i + 1;
    }
    if i < n && keys[i] == *a {
        assert(old_v[i as int] == a@);
        return;
    }
    proof {
        if i < n {
            lemma_seq_less_total(old_v[i as int], a@);
            assert forall|k: int| i <= k < n implies seq_less(a@, #[trigger] old_v[k]) by {
                if k > i {
                    lemma_less_from_transitive(a@, old_v[i as int], old_v[k], 0);
                }
            }
        }
    }
    keys.insert(i, a.clone());
    proof {
        let nv = str_views(keys@);
        assert(nv =~= old_v.insert(i as int, a@));
        assert forall|p: int, q: int| 0 <= p < q < nv.len() implies seq_less(
            #[trigger] nv[p],
            #[trigger] nv[q],
        ) by {
            if q < i {
                assert(nv[p] == old_v[p] && nv[q] == old_v[q]);
            } else if p < i && q == i {
            } else if p < i && q > i {
                assert(nv[q] == old_v[q - 1]);
                assert(seq_less(old_v[p], old_v[q - 1]));
            } else if p == i {
                assert(nv[q] == old_v[q - 1]);
            } else {
                assert(nv[p] == old_v[p - 1]);
                assert(nv[q] == old_v[q - 1]);
            }
        }
        assert forall|x: Seq<char>| nv.contains(x) <==> (old_v.contains(x) || x == a@) by {
            if nv.contains(x) {
                let k = choose|k: int| 0 <= k < nv.len() && nv[k] == x;
                if k < i {
                    assert(old_v[k] == x);
                } else if k > i {
                    assert(old_v[k - 1] == x);
                }
            }
            if old_v.contains(x) {
                let k = choose|k: int| 0 <= k < old_v.len() && old_v[k] == x;
                if k < i {
                    assert(nv[k] == x);
                } else {
                    assert(nv[k + 1] == x);
                }
            }
            if x == a@ {
                assert(nv[i as int] == x);
            }
        }
    }
}

/// Every author of a commit or branch, once each, in lexicographic order.
fn sorted_authors(commits: &Vec<RetroCommit>, branches: &Vec<WorkingBranch>) -> (r: Vec<String>)
    ensures
        author_order(str_views(r@), commits@, branches@),
{
    let mut keys: Vec<String> = Vec::new();
    let mut i: usize = 0;
    while i < commits.len()
        invariant
            i <= commits@.len(),
            strictly_sorted(str_views(keys@)),
            forall|a: Seq<char>|
                str_views(keys@).contains(a) <==> is_author(a, commits@.subrange(0, i as int), Seq::empty()),
        decreases commits@.len() - i,
    {
        insert_sorted(&mut keys, &commits[i].author);
        proof {
            let p = commits@.subrange(0, i + 1);
            let q = commits@.subrange(0, i as int);
            assert forall|a: Seq<char>| is_author(a, p, Seq::empty()) <==> (is_author(a, q, Seq::empty()) || a == commits@[i as int].author@) by {
                if is_author(a, p, Seq::empty()) {
                    let k = choose|k: int| 0 <= k < p.len() && #[trigger] p[k].author@ == a;
                    if k < i {
                        assert(q[k] == p[k]);
                    }
                }
                if is_author(a, q, Seq::empty()) {
                    let k = choose|k: int| 0 <= k < q.len() && #[trigger] q[k].author@ == a;
                    assert(q[k] == p[k]);
                }
                if a == commits@[i as int].author@ {
                    assert(p[i as int] == commits@[i as int]);
                }
            }
        }
        i = i + 1;
    }
    assert(commits@.subrange(0, commits@.len() as int) =~= commits@);
    let mut j: usize = 0;
    while j < branches.len()
        invariant
            j <= branches@.len(),
            strictly_sorted(str_views(keys@)),
            forall|a: Seq<char>|
                str_views(keys@).contains(a) <==> is_author(a, commits@, branches@.subrange(0, j as int)),
        decreases branches@.len() - j,
    {
        insert_sorted(&mut keys, &branches[j].author);
        proof {
            let p = branches@.subrange(0, j + 1);
            let q = branches@.subrange(0, j as int);
            assert forall|a: Seq<char>| is_author(a, commits@, p) <==> (is_author(a, commits@, q) || a == branches@[j as int].author@) by {
                if is_author(a, commits@, p) && !is_author(a, commits@, q) {
                    let k = choose|k: int| 0 <= k < p.len() && #[trigger] p[k].author@ == a;
                    if k < j {
                        assert(q[k] == p[k]);
                    }
                }
                if is_author(a, commits@, q) && !is_author(a, commits@, Seq::empty()) {
                    let k = choose|k: int| 0 <= k < q.len() && #[trigger] q[k].author@ == a;
                    assert(q[k] == p[k]);
                }
                if a == branches@[j as int].author@ {
                    assert(p[j as int] == branches@[j as int]);
                }
            }
        }
        j = j + 1;
    }
    assert(branches@.subrange(0, branches@.len() as int) =~= branches@);
    keys
}

/// Appends the `[done]` lines of `author`'s commits.
fn push_done_lines(out: &mut String, commits: &Vec<RetroCommit>, author: &String)
    ensures
        final(out)@ == old(out)@ + done_lines(commits@, author@),
{
    let ghost base = out@;
    let mut i: usize = 0;
    while i < commits.len()
        invariant
            i <= commits@.len(),
            out@ == base + done_lines(commits@.subrange(0, i as int), author@),
        decreases commits@.len() - i,
    {
        let c = &commits[i];
        let ghost before = out@;
        if c.author == *author {
            out.append(DONE_LINE);
            out.append(c.message.as_str());
            out.append(NEWLINE);
        }
        proof {
            let p = commits@.subrange(0, i + 1);
            assert(p.drop_last() =~= commits@.subrange(0, i as int));
            assert(p.last() == commits@[i as int]);
            let rest = done_lines(commits@.subrange(0, i as int), author@);
            if c.author@ == author@ {
                assert(out@ =~= base + (rest + DONE_LINE@ + c.message@ + NEWLINE@));
            }
        }
        i = i + 1;
    }
    assert(commits@.subrange(0, commits@.len() as int) =~= commits@);
}

/// Appends the `[in-progress]` lines of `author`'s branches.
fn push_in_progress_lines(out: &mut String, branches: &Vec<WorkingBranch>, author: &String)
    ensures
        final(out)@ == old(out)@ + in_progress_lines(branches@, author@),
{
    let ghost base = out@;
    let mut i: usize = 0;
    while i < branches.len()
        invariant
            i <= branches@.len(),
            out@ == base + in_progress_lines(branches@.subrange(0, i as int), author@),
        decreases branches@.len() - i,
    {
        let b = &branches[i];
        if b.author == *author {
            out.append(IN_PROGRESS_LINE);
            out.append(b.name.as_str());
            out.append(NEWLINE);
        }
        proof {
            let p = branches@.subrange(0, i + 1);
            assert(p.drop_last() =~= branches@.subrange(0, i as int));
            assert(p.last() == branches@[i as int]);
            let rest = in_progress_lines(branches@.subrange(0, i as int), author@);
            if b.author@ == author@ {
                assert(out@ =~= base + (rest + IN_PROGRESS_LINE@ + b.name@ + NEWLINE@));
            }
        }
        i = i + 1;
    }
    assert(branches@.subrange(0, branches@.len() as int) =~= branches@);
}

/// The digest body: for each author, in lexicographic order, a heading with
/// the author's name and a preformatted block with a `[done]` line per
/// merged commit followed by an `[in-progress]` line per branch, each kind
/// in the order given. Nothing at all when there is no commit and no branch.
pub fn create_message(commits: &Vec<RetroCommit>, branches: &Vec<WorkingBranch>) -> (r: String)
    ensures
        exists|authors: Seq<Seq<char>>|
            author_order(authors, commits@, branches@) && r@ == render_blocks(
                authors,
                commits@,
                branches@,
            ),
        commits@.len() == 0 && branches@.len() == 0 ==> r@.len() == 0,
{
    let keys = sorted_authors(commits, branches);
    let mut message = String::new();
    let mut t: usize = 0;
    while t < keys.len()
        invariant
            t <= keys@.len(),
            message@ == render_blocks(str_views(keys@).subrange(0, t as int), commits@, branches@),
        decreases keys@.len() - t,
    {
        let author = &keys[t];
        let ghost before = message@;
        message.append(HEADING_OPEN);
        message.append(author.as_str());
        message.append(HEADING_CLOSE);
        push_done_lines(&mut message, commits, author);
        push_in_progress_lines(&mut message, branches, author);
        message.append(BLOCK_CLOSE);
        proof {
            let kv = str_views(keys@);
            let p = kv.subrange(0, t + 1);
            assert(p.drop_last() =~= kv.subrange(0, t as int));
            assert(p.last() == author@);
            assert(message@ =~= before + author_block(author@, commits@, branches@));
        }
        t = t + 1;
    }
    proof {
        let kv = str_views(keys@);
        assert(kv.subrange(0, kv.len() as int) =~= kv);
        if commits@.len() == 0 && branches@.len() == 0 {
            if kv.len() > 0 {
                assert(kv.contains(kv[0]));
            }
            assert(kv.len() == 0);
        }
    }
    message
}

/// How many suffix emoji there are; the commit lines cycle through them.
pub const SUFFIX_COUNT: usize = 10;

/// First lines of a one-day commit reminder.
pub const START_ROW: &'static str = "\nA reminder on how cool you all are \u{1F60E}\nA year ago, this same day you've written history \u{1F4DC}\n";

/// Opens each commit line of a reminder.
pub const POINTER: &'static str = "\u{261E} ";

pub const SPACE: &'static str = " ";

/// Closes each commit line of a reminder.
pub const LINE_END: &'static str = " \n";

/// Closes a reminder, after the number of commits.
pub const COUNT_TAIL: &'static str = " merged commits in one day";

pub open spec fn suffix(i: int) -> Seq<char> {
    if i == 0 {
        "\u{1F64C}"@
    } else if i == 1 {
        "\u{1F44D}"@
    } else if i == 2 {
        "\u{1F64F}"@
    } else if i == 3 {
        "\u{1F389}"@
    } else if i == 4 {
        "\u{1F680}"@
    } else if i == 5 {
        "\u{1F918}"@
    } else if i == 6 {
        "\u{1F44F}"@
    } else if i == 7 {
        "\u{1F64C}"@
    } else if i == 8 {
        "\u{1F44D}"@
    } else {
        "\u{1F64F}"@
    }
}

/// The emoji that ends a commit line whose suffix index is `i`.
pub fn suffix_emoji(i: usize) -> (r: &'static str)
    requires
        i < SUFFIX_COUNT,
    ensures
        r@ == suffix(i as int),
{
    if i == 0 {
        "\u{1F64C}"
    } else if i == 1 {
        "\u{1F44D}"
    } else if i == 2 {
        "\u{1F64F}"
    } else if i == 3 {
        "\u{1F389}"
    } else if i == 4 {
        "\u{1F680}"
    } else if i == 5 {
        "\u{1F918}"
    } else if i == 6 {
        "\u{1F44F}"
    } else if i == 7 {
        "\u{1F64C}"
    } else if i == 8 {
        "\u{1F44D}"
    } else {
        "\u{1F64F}"
    }
}

/// The suffix index after `i`, wrapping to the first emoji after the last.
pub fn increase_index(i: usize) -> (r: usize)
    requires
        i < usize::MAX,
    ensures
        r == if i + 1 >= SUFFIX_COUNT { 0 } else { i + 1 },
{
    let next = i + 1;
    if next >= SUFFIX_COUNT {
        0
    } else {
        next
    }
}

/// The commit lines of a reminder: each commit followed by an emoji, the
/// emoji cycling through the suffix list.
pub open spec fn pretty_lines(commits: Seq<String>) -> Seq<char>
    decreases commits.len(),
{
    if commits.len() == 0 {
        Seq::empty()
    } else {
        pretty_lines(commits.drop_last()) + POINTER@ + commits.last()@ + SPACE@ + suffix(
            (commits.len() - 1) % (SUFFIX_COUNT as int),
        ) + LINE_END@
    }
}

/// The reminder for a day's commits: empty when there are none.
pub open spec fn pretty_text(commits: Seq<String>) -> Seq<char> {
    if commits.len() == 0 {
        Seq::empty()
    } else {
        START_ROW@ + pretty_lines(commits) + decimal(commits.len()) + COUNT_TAIL@
    }
}

/// A reminder of the commits merged on one day, one line each, ending with
/// their number; the empty string when there are none.
pub fn prettify(commits: &Vec<String>) -> (r: String)
    requires
        commits@.len() <= u16::MAX,
    ensures
        r@ == pretty_text(commits@),
{
    let mut index: usize = 0;
    let mut commits_count: u16 = 0;
    let mut pretty = String::from_str(START_ROW);
    let mut i: usize = 0;
    while i < commits.len()
        invariant
            commits@.len() <= u16::MAX,
            i <= commits@.len(),
            commits_count == i,
            index == i % SUFFIX_COUNT,
            pretty@ == START_ROW@ + pretty_lines(commits@.subrange(0, i as int)),
        decreases commits@.len() - i,
    {
        let ghost before = pretty@;
        pretty.append(POINTER);
        pretty.append(commits[i].as_str());
        pretty.append(SPACE);
        pretty.append(suffix_emoji(index));
        pretty.append(LINE_END);
        index = increase_index(index);
        commits_count = commits_count + 1;
        proof {
            let p = commits@.subrange(0, i + 1);
            assert(p.drop_last() =~= commits@.subrange(0, i as int));
            assert(p.last() == commits@[i as int]);
            assert(pretty@ =~= START_ROW@ + pretty_lines(p));
        }
        i = i + 1;
    }
    assert(commits@.subrange(0, commits@.len() as int) =~= commits@);
    let count = decimal_string(commits_count as u64);
    pretty.append(count.as_str());
    pretty.append(COUNT_TAIL);
    if commits_count == 0 {
        String::new()
    } else {
        pretty
    }
}

} // verus!
