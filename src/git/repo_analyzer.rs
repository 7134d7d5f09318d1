use vstd::prelude::*;

use super::backend;
use super::search_interval::{SearchInterval, TWO_WEEKS};
use crate::text::{contains_str, has_infix, str_equal};

verus! {

/// What the analysis reads of one commit: its commit time in seconds since
/// the epoch (time zone offset ignored), its author's display name and the
/// first line of its message (empty where either is absent).
#[derive(Clone, Debug)]
pub struct CommitInfo {
    pub seconds: i64,
    pub author: String,
    pub summary: String,
}

/// A commit merged during the search interval.
#[derive(Clone, Debug)]
pub struct RetroCommit {
    pub author: String,
    pub message: String,
}

/// A remote branch whose tip commit was made during the search interval.
#[derive(Clone, Debug)]
pub struct WorkingBranch {
    pub author: String,
    pub name: String,
}

/// A remote-tracking branch as listed by the repository: its short name and,
/// where it was looked up, the commit at its tip.
#[derive(Clone, Debug)]
pub struct BranchTip {
    pub name: String,
    pub tip: Option<CommitInfo>,
}

impl View for RetroCommit {
    type V = (Seq<char>, Seq<char>);

    open spec fn view(&self) -> (Seq<char>, Seq<char>) {
        (self.author@, self.message@)
    }
}

impl View for WorkingBranch {
    type V = (Seq<char>, Seq<char>);

    open spec fn view(&self) -> (Seq<char>, Seq<char>) {
        (self.author@, self.name@)
    }
}

impl PartialEq for WorkingBranch {
    fn eq(&self, other: &WorkingBranch) -> (r: bool) {
        self.author == other.author && self.name == other.name
    }
}

impl vstd::std_specs::cmp::PartialEqSpecImpl for WorkingBranch {
    open spec fn obeys_eq_spec() -> bool {
        true
    }

    open spec fn eq_spec(&self, other: &WorkingBranch) -> bool {
        self@ == other@
    }
}

impl Eq for WorkingBranch {}

pub open spec fn in_window(interval: SearchInterval, c: CommitInfo) -> bool {
    interval.contains_spec(c.seconds as int)
}

/// The commit as it is reported: author and summary.
pub open spec fn retro_view(c: CommitInfo) -> (Seq<char>, Seq<char>) {
    (c.author@, c.summary@)
}

pub open spec fn retro_views(s: Seq<RetroCommit>) -> Seq<(Seq<char>, Seq<char>)> {
    s.map_values(|c: RetroCommit| c@)
}

pub open spec fn branch_views(s: Seq<WorkingBranch>) -> Seq<(Seq<char>, Seq<char>)> {
    s.map_values(|b: WorkingBranch| b@)
}

/// What the analysis reads of a commit: `seconds`, and the author and
/// summary where the commit has them, the empty string where it has not.
pub fn commit_info(seconds: i64, author: Option<String>, summary: Option<String>) -> (r: CommitInfo)
    ensures
        r.seconds == seconds,
        r.author@ == (match author {
            Some(a) => a@,
            None => Seq::<char>::empty(),
        }),
        r.summary@ == (match summary {
            Some(m) => m@,
            None => Seq::<char>::empty(),
        }),
{
    let author = match author {
        Some(a) => a,
        None => String::new(),
    };
    let summary = match summary {
        Some(m) => m,
        None => String::new(),
    };
    CommitInfo { seconds, author, summary }
}

// A history walk is read as a sequence of entries: `Some` for a commit that
// was read, `None` for an entry whose id or commit could not be read.

/// A readable commit inside the window.
pub open spec fn is_inside(interval: SearchInterval, item: Option<CommitInfo>) -> bool {
    item is Some && in_window(interval, item->0)
}

/// The entry ends the search for the start of the run: it cannot be read or
/// it lies inside the window.
pub open spec fn starts_run(interval: SearchInterval, item: Option<CommitInfo>) -> bool {
    item is None || in_window(interval, item->0)
}

/// The entry ends the run: it cannot be read or it lies outside the window.
pub open spec fn ends_run(interval: SearchInterval, item: Option<CommitInfo>) -> bool {
    item is None || !in_window(interval, item->0)
}

/// The entry at `i` exists and could not be read.
pub open spec fn unreadable_at(items: Seq<Option<CommitInfo>>, i: int) -> bool {
    0 <= i < items.len() && items[i] is None
}

/// Index of the first entry at or after `i` that starts the run.
pub open spec fn run_start(items: Seq<Option<CommitInfo>>, interval: SearchInterval, i: int) -> int
    decreases items.len() - i,
{
    if i < 0 || i >= items.len() || starts_run(interval, items[i]) {
        i
    } else {
        run_start(items, interval, i + 1)
    }
}

/// Index of the first readable commit inside the window at or after `i`.
pub open spec fn inside_start(items: Seq<Option<CommitInfo>>, interval: SearchInterval, i: int) -> int
    decreases items.len() - i,
{
    if i < 0 || i >= items.len() || is_inside(interval, items[i]) {
        i
    } else {
        inside_start(items, interval, i + 1)
    }
}

/// Index of the first entry at or after `i` that ends the run.
pub open spec fn run_end(items: Seq<Option<CommitInfo>>, interval: SearchInterval, i: int) -> int
    decreases items.len() - i,
{
    if i < 0 || i >= items.len() || ends_run(interval, items[i]) {
        i
    } else {
        run_end(items, interval, i + 1)
    }
}

/// The commits of the entries `[a, b)`, as reported.
pub open spec fn run_views(items: Seq<Option<CommitInfo>>, a: int, b: int) -> Seq<
    (Seq<char>, Seq<char>),
> {
    items.subrange(a, b).map_values(|o: Option<CommitInfo>| retro_view(o->0))
}

/// The merged commits of a history walk: entries outside the window are
/// skipped up to the first one inside it, and from there commits are taken
/// up to the first one outside it again. `None` when an entry up to and
/// including the one that ends the run cannot be read.
pub open spec fn merged_outcome(items: Seq<Option<CommitInfo>>, interval: SearchInterval) -> Option<
    Seq<(Seq<char>, Seq<char>)>,
> {
    let a = run_start(items, interval, 0);
    let b = run_end(items, interval, a);
    if unreadable_at(items, a) || unreadable_at(items, b) {
        None
    } else {
        Some(run_views(items, a, b))
    }
}

/// The merged commits of a history walk when unreadable entries are passed
/// over before the run and end it once it has begun.
pub open spec fn lenient_merged(items: Seq<Option<CommitInfo>>, interval: SearchInterval) -> Seq<
    (Seq<char>, Seq<char>),
> {
    let a = inside_start(items, interval, 0);
    run_views(items, a, run_end(items, interval, a))
}

/// Every reported commit is a readable commit of the walk inside the window.
pub open spec fn from_inside(
    views: Seq<(Seq<char>, Seq<char>)>,
    items: Seq<Option<CommitInfo>>,
    interval: SearchInterval,
) -> bool {
    forall|k: int|
        0 <= k < views.len() ==> exists|j: int|
            0 <= j < items.len() && is_inside(interval, items[j]) && #[trigger] views[k]
                == retro_view(items[j]->0)
}

pub proof fn lemma_run_start(items: Seq<Option<CommitInfo>>, interval: SearchInterval, i: int)
    requires
        0 <= i <= items.len(),
    ensures
        i <= run_start(items, interval, i) <= items.len(),
        run_start(items, interval, i) < items.len() ==> starts_run(
            interval,
            items[run_start(items, interval, i)],
        ),
        forall|k: int|
            i <= k < run_start(items, interval, i) ==> !starts_run(interval, #[trigger] items[k]),
    decreases items.len() - i,
{
    if i < items.len() && !starts_run(interval, items[i]) {
        lemma_run_start(items, interval, i + 1);
    }
}

pub proof fn lemma_run_end(items: Seq<Option<CommitInfo>>, interval: SearchInterval, i: int)
    requires
        0 <= i <= items.len(),
    ensures
        i <= run_end(items, interval, i) <= items.len(),
        run_end(items, interval, i) < items.len() ==> ends_run(
            interval,
            items[run_end(items, interval, i)],
        ),
        forall|k: int| i <= k < run_end(items, interval, i) ==> is_inside(interval, #[trigger] items[k]),
    decreases items.len() - i,
{
    if i < items.len() && !ends_run(interval, items[i]) {
        lemma_run_end(items, interval, i + 1);
    }
}

/// `s2` begins with `s`.
pub open spec fn extends(s2: Seq<Option<CommitInfo>>, s: Seq<Option<CommitInfo>>) -> bool {
    s.len() <= s2.len() && forall|k: int| 0 <= k < s.len() ==> #[trigger] s2[k] == s[k]
}

pub proof fn lemma_run_start_extends(
    s: Seq<Option<CommitInfo>>,
    s2: Seq<Option<CommitInfo>>,
    interval: SearchInterval,
    i: int,
)
    requires
        extends(s2, s),
        0 <= i <= s.len(),
    ensures
        run_start(s, interval, i) < s.len() ==> run_start(s2, interval, i) == run_start(s, interval, i),
        run_start(s, interval, i) == s.len() ==> run_start(s2, interval, i) == run_start(
            s2,
            interval,
            s.len() as int,
        ),
    decreases s.len() - i,
{
    if i < s.len() {
        assert(s2[i] == s[i]);
        if !starts_run(interval, s[i]) {
            lemma_run_start_extends(s, s2, interval, i + 1);
        }
    }
}

pub proof fn lemma_inside_start_extends(
    s: Seq<Option<CommitInfo>>,
    s2: Seq<Option<CommitInfo>>,
    interval: SearchInterval,
    i: int,
)
    requires
        extends(s2, s),
        0 <= i <= s.len(),
    ensures
        inside_start(s, interval, i) < s.len() ==> inside_start(s2, interval, i) == inside_start(
            s,
            interval,
            i,
        ),
        inside_start(s, interval, i) == s.len() ==> inside_start(s2, interval, i) == inside_start(
            s2,
            interval,
            s.len() as int,
        ),
    decreases s.len() - i,
{
    if i < s.len() {
        assert(s2[i] == s[i]);
        if !is_inside(interval, s[i]) {
            lemma_inside_start_extends(s, s2, interval, i + 1);
        }
    }
}

pub proof fn lemma_run_end_extends(
    s: Seq<Option<CommitInfo>>,
    s2: Seq<Option<CommitInfo>>,
    interval: SearchInterval,
    i: int,
)
    requires
        extends(s2, s),
        0 <= i <= s.len(),
    ensures
        run_end(s, interval, i) < s.len() ==> run_end(s2, interval, i) == run_end(s, interval, i),
        run_end(s, interval, i) == s.len() ==> run_end(s2, interval, i) == run_end(
            s2,
            interval,
            s.len() as int,
        ),
    decreases s.len() - i,
{
    if i < s.len() {
        assert(s2[i] == s[i]);
        if !ends_run(interval, s[i]) {
            lemma_run_end_extends(s, s2, interval, i + 1);
        }
    }
}

/// The run of `items` has started and ended within `items` (with unreadable
/// entries passed over before the run where `lenient`).
pub open spec fn run_closed(items: Seq<Option<CommitInfo>>, interval: SearchInterval, lenient: bool) -> bool {
    let a = if lenient {
        inside_start(items, interval, 0)
    } else {
        run_start(items, interval, 0)
    };
    a < items.len() && run_end(items, interval, a) < items.len()
}

/// Whatever follows `items` in the walk leaves its merged commits as they are.
pub open spec fn outcome_is_final(
    items: Seq<Option<CommitInfo>>,
    interval: SearchInterval,
    lenient: bool,
) -> bool {
    if lenient {
        forall|rest: Seq<Option<CommitInfo>>|
            #[trigger] lenient_merged(items + rest, interval) == lenient_merged(items, interval)
    } else {
        forall|rest: Seq<Option<CommitInfo>>|
            #[trigger] merged_outcome(items + rest, interval) == merged_outcome(items, interval)
    }
}

/// Once the run has ended, the rest of the walk does not matter: reading can
/// stop there.
pub proof fn lemma_closed_run_is_final(
    items: Seq<Option<CommitInfo>>,
    interval: SearchInterval,
    lenient: bool,
)
    requires
        run_closed(items, interval, lenient),
    ensures
        outcome_is_final(items, interval, lenient),
{
    lemma_run_start(items, interval, 0);
    if lenient {
        assert forall|rest: Seq<Option<CommitInfo>>|
            #[trigger] lenient_merged(items + rest, interval) == lenient_merged(items, interval) by {
            let s2 = items + rest;
            assert(extends(s2, items));
            lemma_inside_start_extends(items, s2, interval, 0);
            let a = inside_start(items, interval, 0);
            lemma_inside_start_bounds(items, interval, 0);
            lemma_run_end(items, interval, a);
            lemma_run_end_extends(items, s2, interval, a);
            let b = run_end(items, interval, a);
            assert(s2.subrange(a, b) =~= items.subrange(a, b));
        }
    } else {
        assert forall|rest: Seq<Option<CommitInfo>>|
            #[trigger] merged_outcome(items + rest, interval) == merged_outcome(items, interval) by {
            let s2 = items + rest;
            assert(extends(s2, items));
            lemma_run_start_extends(items, s2, interval, 0);
            let a = run_start(items, interval, 0);
            lemma_run_end(items, interval, a);
            lemma_run_end_extends(items, s2, interval, a);
            let b = run_end(items, interval, a);
            assert(s2.subrange(a, b) =~= items.subrange(a, b));
            assert(s2[a] == items[a]);
            assert(s2[b] == items[b]);
        }
    }
}

pub proof fn lemma_inside_start_bounds(items: Seq<Option<CommitInfo>>, interval: SearchInterval, i: int)
    requires
        0 <= i <= items.len(),
    ensures
        i <= inside_start(items, interval, i) <= items.len(),
    decreases items.len() - i,
{
    if i < items.len() && !is_inside(interval, items[i]) {
        lemma_inside_start_bounds(items, interval, i + 1);
    }
}

pub fn starts_run_at(interval: &SearchInterval, item: &Option<CommitInfo>) -> (r: bool)
    ensures
        r == starts_run(*interval, *item),
{
    match item {
        Some(c) => interval.contains(c.seconds),
        None => true,
    }
}

pub fn ends_run_at(interval: &SearchInterval, item: &Option<CommitInfo>) -> (r: bool)
    ensures
        r == ends_run(*interval, *item),
{
    match item {
        Some(c) => !interval.contains(c.seconds),
        None => true,
    }
}

pub fn is_inside_at(interval: &SearchInterval, item: &Option<CommitInfo>) -> (r: bool)
    ensures
        r == is_inside(*interval, *item),
{
    match item {
        Some(c) => interval.contains(c.seconds),
        None => false,
    }
}

/// The commits of the run that starts at entry `start`, and where it ends.
fn collect_run(items: &Vec<Option<CommitInfo>>, interval: &SearchInterval, start: usize) -> (r: (
    Vec<RetroCommit>,
    usize,
))
    requires
        start <= items@.len(),
    ensures
        r.1 == run_end(items@, *interval, start as int),
        retro_views(r.0@) == run_views(items@, start as int, r.1 as int),
        from_inside(retro_views(r.0@), items@, *interval),
{
    let n = items.len();
    let mut i = start;
    let mut r: Vec<RetroCommit> = Vec::new();
    proof {
        lemma_run_end(items@, *interval, start as int);
    }
    while i < n && !ends_run_at(interval, &items[i])
        invariant
            n == items@.len(),
            start <= i <= n,
            run_end(items@, *interval, start as int) == run_end(items@, *interval, i as int),
            forall|k: int| start <= k < i ==> is_inside(*interval, #[trigger] items@[k]),
            retro_views(r@) == run_views(items@, start as int, i as int),
        decreases n - i,
    {
        let ghost before = r@;
        match &items[i] {
            Some(c) => {
                r.push(RetroCommit { author: c.author.clone(), message: c.summary.clone() });
            },
            None => {},
        }
        proof {
            assert(items@.subrange(start as int, i + 1) =~= items@.subrange(start as int, i as int).push(
                items@[i as int],
            ));
            assert(retro_views(r@) =~= retro_views(before).push(retro_view(items@[i as int]->0)));
            assert(retro_views(r@) =~= run_views(items@, start as int, i + 1));
        }
        i = i + 1;
    }
    proof {
        let v = retro_views(r@);
        assert forall|k: int| 0 <= k < v.len() implies exists|j: int|
            0 <= j < items@.len() && is_inside(*interval, items@[j]) && #[trigger] v[k] == retro_view(
                items@[j]->0,
            ) by {
            assert(is_inside(*interval, items@[start + k]));
            assert(v[k] == run_views(items@, start as int, i as int)[k]);
        }
    }
    (r, i)
}

/// The commits that a history walk reports as merged in `interval`
/// (`merged_outcome`): `None` when an entry up to the end of the run could
/// not be read.
pub fn select_merged(items: &Vec<Option<CommitInfo>>, interval: &SearchInterval) -> (r: Option<
    Vec<RetroCommit>,
>)
    ensures
        r is Some <==> merged_outcome(items@, *interval) is Some,
        r matches Some(v) ==> merged_outcome(items@, *interval) == Some(retro_views(v@)) && from_inside(
            retro_views(v@),
            items@,
            *interval,
        ),
{
    let n = items.len();
    let mut i: usize = 0;
    while i < n && !starts_run_at(interval, &items[i])
        invariant
            n == items@.len(),
            i <= n,
            run_start(items@, *interval, 0) == run_start(items@, *interval, i as int),
        decreases n - i,
    {
        i = i + 1;
    }
    if i < n && items[i].is_none() {
        return None;
    }
    let (run, end) = collect_run(items, interval, i);
    if end < n && items[end].is_none() {
        return None;
    }
    Some(run)
}

/// The commits that a history walk reports as merged in `interval` when
/// unreadable entries are passed over before the run and end it once it
/// has begun (`lenient_merged`).
pub fn select_merged_lenient(items: &Vec<Option<CommitInfo>>, interval: &SearchInterval) -> (r: Vec<
    RetroCommit,
>)
    ensures
        retro_views(r@) == lenient_merged(items@, *interval),
        from_inside(retro_views(r@), items@, *interval),
{
    let n = items.len();
    let mut i: usize = 0;
    while i < n && !is_inside_at(interval, &items[i])
        invariant
            n == items@.len(),
            i <= n,
            inside_start(items@, *interval, 0) == inside_start(items@, *interval, i as int),
        decreases n - i,
    {
        i = i + 1;
    }
    collect_run(items, interval, i).0
}

/// Every entry of the walk could be read and commit times never increase
/// along it.
pub open spec fn ordered_readable(items: Seq<Option<CommitInfo>>) -> bool {
    &&& forall|i: int| 0 <= i < items.len() ==> #[trigger] items[i] is Some
    &&& forall|i: int, j: int|
        0 <= i < j < items.len() ==> #[trigger] items[i]->0.seconds >= #[trigger] items[j]->0.seconds
}

/// The run of the walk holds exactly its commits strictly inside the window.
pub open spec fn exactly_in_window(items: Seq<Option<CommitInfo>>, interval: SearchInterval) -> bool {
    let a = run_start(items, interval, 0);
    let b = run_end(items, interval, a);
    forall|k: int|
        0 <= k < items.len() ==> (in_window(interval, #[trigger] items[k]->0) <==> a <= k < b)
}

/// For a walk whose commits all could be read and whose commit times never
/// increase, the merged commits are exactly the commits of the walk strictly
/// inside the window, in walk order: a commit at either end of the window
/// is never reported.
pub proof fn lemma_ordered_walk_takes_every_commit_in_window(
    items: Seq<Option<CommitInfo>>,
    interval: SearchInterval,
)
    requires
        ordered_readable(items),
    ensures
        merged_outcome(items, interval) is Some,
        exactly_in_window(items, interval),
        ({
            let a = run_start(items, interval, 0);
            let b = run_end(items, interval, a);
            &&& merged_outcome(items, interval)->0 == run_views(items, a, b)
            &&& forall|k: int|
                0 <= k < items.len() ==> (in_window(interval, #[trigger] items[k]->0) <==> a <= k
                    < b)
        }),
{
    let a = run_start(items, interval, 0);
    lemma_run_start(items, interval, 0);
    lemma_run_end(items, interval, a);
    let b = run_end(items, interval, a);
    assert forall|k: int| 0 <= k < items.len() && in_window(interval, #[trigger] items[k]->0) implies (a
        <= k < b) by {
        assert(items[k] is Some);
        if k < a {
            assert(!starts_run(interval, items[k]));
        }
        if k >= b {
            assert(items[a] is Some && items[b] is Some);
            assert(items[a]->0.seconds >= items[b]->0.seconds);
            assert(items[b]->0.seconds >= items[k]->0.seconds);
        }
    }
    assert forall|k: int| 0 <= k < items.len() && a <= k < b implies in_window(
        interval,
        #[trigger] items[k]->0,
    ) by {
        assert(is_inside(interval, items[k]));
    }
}

/// Name of the symbolic branch that points at the remote's default branch.
pub const REMOTE_HEAD: &'static str = "origin/HEAD";

/// Branches whose name holds this text are release branches.
pub const RELEASE_MARK: &'static str = "release-";

/// Branches that are never reported as work in progress.
pub open spec fn is_excluded(name: Seq<char>) -> bool {
    name == REMOTE_HEAD@ || has_infix(name, RELEASE_MARK@)
}

/// Whether the branch named `name` is left out of the in-progress report.
pub fn is_excluded_branch(name: &str) -> (r: bool)
    ensures
        r == is_excluded(name@),
{
    str_equal(name, REMOTE_HEAD) || contains_str(name, RELEASE_MARK)
}

/// The branch is reported: its name is not excluded and its tip was looked
/// up and lies inside the window.
pub open spec fn is_working(b: BranchTip, interval: SearchInterval) -> bool {
    &&& !is_excluded(b.name@)
    &&& b.tip is Some
    &&& in_window(interval, b.tip->0)
}

/// The branch as it is reported: tip author and branch name.
pub open spec fn working_view(b: BranchTip) -> (Seq<char>, Seq<char>) {
    (b.tip->0.author@, b.name@)
}

/// The in-progress branches among `tips`, in listing order.
pub open spec fn working_branches(tips: Seq<BranchTip>, interval: SearchInterval) -> Seq<
    (Seq<char>, Seq<char>),
>
    decreases tips.len(),
{
    if tips.len() == 0 {
        Seq::empty()
    } else {
        let rest = working_branches(tips.drop_last(), interval);
        if is_working(tips.last(), interval) {
            rest.push(working_view(tips.last()))
        } else {
            rest
        }
    }
}

/// The branches as listed, once every one of them could be read.
pub open spec fn read_tips(reads: Seq<Option<BranchTip>>) -> Seq<BranchTip> {
    reads.map_values(|o: Option<BranchTip>| o->0)
}

/// The in-progress branches of a branch listing, each entry `None` where
/// listing the branch, reading its name, resolving its reference or finding
/// its tip commit failed: `None` as soon as one of them failed.
pub open spec fn branch_outcome(reads: Seq<Option<BranchTip>>, interval: SearchInterval) -> Option<
    Seq<(Seq<char>, Seq<char>)>,
> {
    if exists|k: int| 0 <= k < reads.len() && #[trigger] reads[k] is None {
        None
    } else {
        Some(working_branches(read_tips(reads), interval))
    }
}

/// The branches reported as work in progress during `interval`, in the
/// order in which they are listed (`branch_outcome`); `None` when any
/// branch of the listing could not be read.
pub fn select_working(reads: &Vec<Option<BranchTip>>, interval: &SearchInterval) -> (r: Option<
    Vec<WorkingBranch>,
>)
    ensures
        r is Some <==> branch_outcome(reads@, *interval) is Some,
        r matches Some(v) ==> branch_outcome(reads@, *interval) == Some(branch_views(v@)),
{
    let mut r: Vec<WorkingBranch> = Vec::new();
    let mut i: usize = 0;
    while i < reads.len()
        invariant
            i <= reads@.len(),
            forall|k: int| 0 <= k < i ==> #[trigger] reads@[k] is Some,
            branch_views(r@) == working_branches(read_tips(reads@.subrange(0, i as int)), *interval),
        decreases reads@.len() - i,
    {
        let b = match &reads[i] {
            Some(b) => b,
            None => {
                assert(reads@[i as int] is None);
                return None;
            },
        };
        let ghost before = r@;
        if !is_excluded_branch(b.name.as_str()) {
            match &b.tip {
                Some(c) => {
                    if interval.contains(c.seconds) {
                        r.push(WorkingBranch { author: c.author.clone(), name: b.name.clone() });
                    }
                },
                None => {},
            }
        }
        proof {
            let p = read_tips(reads@.subrange(0, i + 1));
            assert(p.drop_last() =~= read_tips(reads@.subrange(0, i as int)));
            assert(p.last() == *b);
            if is_working(*b, *interval) {
                assert(branch_views(r@) =~= branch_views(before).push(working_view(*b)));
            } else {
                assert(r@ == before);
            }
        }
        i = i + 1;
    }
    assert(reads@.subrange(0, reads@.len() as int) =~= reads@);
    Some(r)
}

/// What is reported as in progress is exactly the branches that are not
/// excluded and whose tip lies in the window: `origin/HEAD` and release
/// branches never appear, whatever their tip's time, and each reported
/// entry carries its tip's author.
pub proof fn lemma_working_branches(tips: Seq<BranchTip>, interval: SearchInterval)
    ensures
        forall|k: int|
            0 <= k < working_branches(tips, interval).len() ==> {
                let e = #[trigger] working_branches(tips, interval)[k];
                &&& e.1 != REMOTE_HEAD@
                &&& !has_infix(e.1, RELEASE_MARK@)
                &&& exists|j: int|
                    0 <= j < tips.len() && is_working(tips[j], interval) && e == working_view(
                        #[trigger] tips[j],
                    )
            },
        forall|j: int|
            0 <= j < tips.len() && is_working(#[trigger] tips[j], interval) ==> working_branches(
                tips,
                interval,
            ).contains(working_view(tips[j])),
    decreases tips.len(),
{
    if tips.len() > 0 {
        let init = tips.drop_last();
        lemma_working_branches(init, interval);
        let w = working_branches(tips, interval);
        let wi = working_branches(init, interval);
        assert forall|k: int| 0 <= k < w.len() implies {
            let e = #[trigger] w[k];
            &&& e.1 != REMOTE_HEAD@
            &&& !has_infix(e.1, RELEASE_MARK@)
            &&& exists|j: int|
                0 <= j < tips.len() && is_working(tips[j], interval) && e == working_view(
                    #[trigger] tips[j],
                )
        } by {
            if k < wi.len() {
                assert(w[k] == wi[k]);
                let j = choose|j: int|
                    0 <= j < init.len() && is_working(init[j], interval) && wi[k] == working_view(
                        #[trigger] init[j],
                    );
                assert(tips[j] == init[j]);
            } else {
                assert(tips[tips.len() - 1] == tips.last());
            }
        }
        assert forall|j: int| 0 <= j < tips.len() && is_working(#[trigger] tips[j], interval) implies w.contains(
            working_view(tips[j]),
        ) by {
            if j < tips.len() - 1 {
                assert(tips[j] == init[j]);
                let k = choose|k: int| 0 <= k < wi.len() && wi[k] == working_view(init[j]);
                assert(w[k] == wi[k]);
            } else {
                assert(w[w.len() - 1] == working_view(tips[j]));
            }
        }
    }
}

/// No two listed branches share a name (as git's references do not).
pub open spec fn names_distinct(tips: Seq<BranchTip>) -> bool {
    forall|i: int, j: int|
        0 <= i < tips.len() && 0 <= j < tips.len() && i != j ==> #[trigger] tips[i].name@
            != #[trigger] tips[j].name@
}

/// No reported branch carries the name of a listed branch that is not in
/// progress.
pub open spec fn omits_unworking(
    r: Result<Vec<WorkingBranch>, GitError>,
    tips: Seq<BranchTip>,
    interval: SearchInterval,
) -> bool {
    r matches Ok(v) ==> forall|j: int, k: int|
        0 <= j < tips.len() && !is_working(#[trigger] tips[j], interval) && 0 <= k < v@.len()
            ==> #[trigger] v@[k].name@ != tips[j].name@
}

/// A listed branch that is excluded, whose tip was not looked up, or whose
/// tip lies outside the window (at either end included) is not reported,
/// where branch names are unique in the listing.
pub proof fn lemma_unreported_branches(tips: Seq<BranchTip>, interval: SearchInterval)
    requires
        names_distinct(tips),
    ensures
        forall|j: int, k: int|
            0 <= j < tips.len() && !is_working(#[trigger] tips[j], interval) && 0 <= k
                < working_branches(tips, interval).len() ==> #[trigger] working_branches(
                tips,
                interval,
            )[k].1 != tips[j].name@,
{
    lemma_working_branches(tips, interval);
    let w = working_branches(tips, interval);
    assert forall|j: int, k: int|
        0 <= j < tips.len() && !is_working(#[trigger] tips[j], interval) && 0 <= k < w.len() implies #[trigger] w[k].1
        != tips[j].name@ by {
        let i = choose|i: int|
            0 <= i < tips.len() && is_working(tips[i], interval) && w[k] == working_view(
                #[trigger] tips[i],
            );
        assert(i != j);
    }
}

/// Why an analysis step failed, with the backend's message.
#[derive(Clone, Debug)]
pub enum GitError {
    /// The path does not hold a readable repository with commits.
    Open(String),
    /// Walking history or resolving a reference or commit failed.
    Traversal(String),
    /// Refreshing the remote-tracking branches failed.
    Fetch(String),
}

pub(crate) fn traversal(e: &git2::Error) -> (r: GitError)
    ensures
        r is Traversal,
{
    GitError::Traversal(backend::error_message(e))
}

/// Projects a commit down to what the analysis reads of it.
pub(crate) fn read_commit(c: &git2::Commit<'_>) -> (r: CommitInfo) {
    commit_info(backend::commit_seconds(c), backend::commit_author(c), backend::commit_summary(c))
}

/// `r` reports `outcome`: the commits where there is one, a traversal error
/// where an entry could not be read.
pub open spec fn reports_merged(
    r: Result<Vec<RetroCommit>, GitError>,
    items: Seq<Option<CommitInfo>>,
    interval: SearchInterval,
) -> bool {
    match r {
        Ok(v) => merged_outcome(items, interval) == Some(retro_views(v@)) && from_inside(
            retro_views(v@),
            items,
            interval,
        ),
        Err(e) => merged_outcome(items, interval) is None && e is Traversal,
    }
}

/// `r` reports `branch_outcome`: the branches where there is one, a
/// traversal error where a branch could not be read.
pub open spec fn reports_branches(
    r: Result<Vec<WorkingBranch>, GitError>,
    reads: Seq<Option<BranchTip>>,
    interval: SearchInterval,
) -> bool {
    match r {
        Ok(v) => branch_outcome(reads, interval) == Some(branch_views(v@)),
        Err(e) => branch_outcome(reads, interval) is None && e is Traversal,
    }
}

/// The entries of the history walk of `repo` from its current branch tip, in
/// walk order, `None` for an entry whose id or commit cannot be read; the
/// message of the last read failure; and whether reading stopped before the
/// end of the walk. It stops only once the run of commits inside `interval`
/// has ended (`run_closed`), so that nothing after it can change the merged
/// commits.
pub(crate) fn read_walk(repo: &git2::Repository, interval: &SearchInterval, lenient: bool) -> (r: Result<
    (Vec<Option<CommitInfo>>, String, bool),
    GitError,
>)
    ensures
        r matches Err(e) ==> e is Traversal,
        r matches Ok(t) ==> (t.2 ==> run_closed(t.0@, *interval, lenient) && outcome_is_final(
            t.0@,
            *interval,
            lenient,
        )),
{
    let mut walk = match backend::new_revwalk(repo) {
        Ok(w) => w,
        Err(e) => return Err(traversal(&e)),
    };
    match backend::push_head(&mut walk) {
        Ok(()) => {},
        Err(e) => return Err(traversal(&e)),
    }
    let ids = backend::walk_ids(walk);
    let mut items: Vec<Option<CommitInfo>> = Vec::new();
    let mut failure = String::new();
    let mut entered = false;
    let mut stopped = false;
    let mut i: usize = 0;
    while i < ids.len()
        invariant_except_break
            !stopped,
            !lenient && !entered ==> run_start(items@, *interval, 0) == items@.len(),
            lenient && !entered ==> inside_start(items@, *interval, 0) == items@.len(),
            !lenient && entered ==> run_start(items@, *interval, 0) < items@.len() && run_end(
                items@,
                *interval,
                run_start(items@, *interval, 0),
            ) == items@.len(),
            lenient && entered ==> inside_start(items@, *interval, 0) < items@.len() && run_end(
                items@,
                *interval,
                inside_start(items@, *interval, 0),
            ) == items@.len(),
        invariant
            i <= ids@.len(),
        ensures
            stopped ==> run_closed(items@, *interval, lenient),
        decreases ids@.len() - i,
    {
        let item = match &ids[i] {
            Ok(oid) => match backend::find_commit(repo, *oid) {
                Ok(c) => Some(read_commit(&c)),
                Err(e) => {
                    failure = backend::error_message(&e);
                    None
                },
            },
            Err(e) => {
                failure = backend::error_message(e);
                None
            },
        };
        let stop = match &item {
            Some(c) => entered && !interval.contains(c.seconds),
            None => entered || !lenient,
        };
        let inside = is_inside_at(interval, &item);
        let ghost before = items@;
        items.push(item);
        proof {
            let n = before.len() as int;
            assert(extends(items@, before));
            assert(items@[n] == item);
            lemma_run_start(before, *interval, 0);
            lemma_inside_start_bounds(before, *interval, 0);
            lemma_run_start_extends(before, items@, *interval, 0);
            lemma_inside_start_extends(before, items@, *interval, 0);
            let a = run_start(before, *interval, 0);
            let a2 = inside_start(before, *interval, 0);
            if a <= n {
                lemma_run_end(before, *interval, a);
                lemma_run_end_extends(before, items@, *interval, a);
            }
            if a2 <= n {
                lemma_run_end(before, *interval, a2);
                lemma_run_end_extends(before, items@, *interval, a2);
            }
            assert(run_end(items@, *interval, n + 1) == n + 1);
            assert(run_start(items@, *interval, n + 1) == n + 1);
            assert(inside_start(items@, *interval, n + 1) == n + 1);
        }
        if stop {
            stopped = true;
            break;
        }
        entered = entered || inside;
        i = i + 1;
    }
    proof {
        if stopped {
            lemma_closed_run_is_final(items@, *interval, lenient);
        }
    }
    Ok((items, failure, stopped))
}

/// Accepts the repository `repo` that was opened, given whether it has no
/// commits (`empty`, or the error met finding out): only a repository
/// known to hold commits is kept.
pub fn check_opened(repo: git2::Repository, empty: Result<bool, git2::Error>) -> (r: Result<
    git2::Repository,
    GitError,
>)
    ensures
        r is Ok <==> empty matches Ok(false),
        r matches Ok(x) ==> x == repo,
        r matches Err(e) ==> e is Open,
{
    match empty {
        Ok(false) => Ok(repo),
        Ok(true) => Err(GitError::Open(String::from_str("the repository has no commits"))),
        Err(e) => Err(GitError::Open(backend::error_message(&e))),
    }
}

/// The repository at `path`, provided it holds commits.
pub(crate) fn open_repository_at(path: &str) -> (r: Result<git2::Repository, GitError>)
    ensures
        r matches Err(e) ==> e is Open,
{
    match backend::open_repository(path) {
        Ok(repo) => {
            let empty = backend::repository_is_empty(&repo);
            check_opened(repo, empty)
        },
        Err(e) => Err(GitError::Open(backend::error_message(&e))),
    }
}

/// A repository opened for analysis, and the interval it is analysed over.
pub struct RepoAnalyzer {
    pub interval: SearchInterval,
    pub repo: git2::Repository,
}

impl RepoAnalyzer {
    /// Opens the repository at `repo_path`, to be analysed over the two
    /// weeks that end now. Fails with `Open` where there is no readable
    /// repository there or it has no commits (see `check_opened`).
    pub fn new(repo_path: &str) -> (r: Result<RepoAnalyzer, GitError>)
        ensures
            r matches Ok(a) ==> a.interval.wf() && a.interval.to - a.interval.from == TWO_WEEKS,
            r matches Err(e) ==> e is Open,
    {
        match open_repository_at(repo_path) {
            Ok(repo) => Ok(RepoAnalyzer { repo, interval: SearchInterval::start_now(TWO_WEEKS) }),
            Err(e) => Err(e),
        }
    }

    pub fn set_interval(&mut self, interval: SearchInterval)
        ensures
            final(self).interval == interval,
            final(self).repo == old(self).repo,
    {
        self.interval = interval;
    }

    /// The commits merged during the interval: history is walked from the
    /// current branch tip, commits outside the interval are skipped up to
    /// the first one inside it, and commits are then taken up to the first
    /// one outside it again. Failing to start the walk, or to read an entry
    /// of it up to the end of the run, fails the whole call.
    pub fn get_commits(&self) -> (r: Result<Vec<RetroCommit>, GitError>)
        ensures
            exists|items: Seq<Option<CommitInfo>>|
                reports_merged(r, items, self.interval) && (ordered_readable(items)
                    ==> exactly_in_window(items, self.interval)),
    {
        let (items, failure, _) = match read_walk(&self.repo, &self.interval, false) {
            Ok(read) => read,
            Err(e) => {
                let r = Err(e);
                let ghost w: Seq<Option<CommitInfo>> = seq![None];
                assert(w[0] is None);
                assert(!ordered_readable(w));
                assert(reports_merged(r, w, self.interval) && (ordered_readable(w) ==> exactly_in_window(
                    w,
                    self.interval,
                )));
                return r;
            },
        };
        proof {
            if ordered_readable(items@) {
                lemma_ordered_walk_takes_every_commit_in_window(items@, self.interval);
            }
        }
        match select_merged(&items, &self.interval) {
            Some(v) => {
                assert(reports_merged(Ok(v), items@, self.interval));
                Ok(v)
            },
            None => {
                let r = Err(GitError::Traversal(failure));
                assert(reports_merged(r, items@, self.interval));
                r
            },
        }
    }

    /// The remote branches still in progress: every remote-tracking branch
    /// that is neither `origin/HEAD` nor a release branch and whose tip
    /// commit lies inside the interval, with the tip's author, in listing
    /// order. Any failure to list a branch, read its name, resolve its tip
    /// or find the tip commit fails the whole call. The remote-tracking
    /// branches are taken as they are: a caller that wants them current
    /// fetches the remote first.
    pub fn get_in_progress(&self) -> (r: Result<Vec<WorkingBranch>, GitError>)
        ensures
            exists|reads: Seq<Option<BranchTip>>|
                reports_branches(r, reads, self.interval) && (names_distinct(read_tips(reads))
                    ==> omits_unworking(r, read_tips(reads), self.interval)),
            r matches Ok(v) ==> forall|k: int|
                0 <= k < v@.len() ==> (#[trigger] v@[k]).name@ != REMOTE_HEAD@ && !has_infix(
                    v@[k].name@,
                    RELEASE_MARK@,
                ),
    {
        let listed = match backend::remote_branches(&self.repo) {
            Ok(l) => l,
            Err(e) => {
                let r = Err(traversal(&e));
                let ghost w: Seq<Option<BranchTip>> = seq![None];
                assert(w[0] is None);
                assert(reports_branches(r, w, self.interval) && (names_distinct(read_tips(w))
                    ==> omits_unworking(r, read_tips(w), self.interval)));
                return r;
            },
        };
        let mut reads: Vec<Option<BranchTip>> = Vec::new();
        let mut failure = String::new();
        let mut i: usize = 0;
        while i < listed.len()
            invariant
                i <= listed@.len(),
            decreases listed@.len() - i,
        {
            let read = match &listed[i] {
                Ok(branch) => match backend::branch_name(branch) {
                    Ok(name) => {
                        let name = match name {
                            Some(n) => n,
                            None => String::new(),
                        };
                        if is_excluded_branch(name.as_str()) {
                            Some(BranchTip { name, tip: None })
                        } else {
                            match backend::branch_target(branch) {
                                Ok(Some(oid)) => match backend::find_commit(&self.repo, oid) {
                                    Ok(c) => Some(BranchTip { name, tip: Some(read_commit(&c)) }),
                                    Err(e) => {
                                        failure = backend::error_message(&e);
                                        None
                                    },
                                },
                                Ok(None) => Some(BranchTip { name, tip: None }),
                                Err(e) => {
                                    failure = backend::error_message(&e);
                                    None
                                },
                            }
                        }
                    },
                    Err(e) => {
                        failure = backend::error_message(&e);
                        None
                    },
                },
                Err(e) => {
                    failure = backend::error_message(e);
                    None
                },
            };
            let failed = read.is_none();
            reads.push(read);
            if failed {
                break;
            }
            i = i + 1;
        }
        let r = match select_working(&reads, &self.interval) {
            Some(v) => Ok(v),
            None => Err(GitError::Traversal(failure)),
        };
        assert(reports_branches(r, reads@, self.interval));
        proof {
            if r is Ok {
                let v = r->Ok_0;
                lemma_working_branches(read_tips(reads@), self.interval);
                assert forall|k: int| 0 <= k < v@.len() implies (#[trigger] v@[k]).name@ != REMOTE_HEAD@
                    && !has_infix(v@[k].name@, RELEASE_MARK@) by {
                    assert(branch_views(v@)[k] == v@[k]@);
                }
                let tips = read_tips(reads@);
                if names_distinct(tips) {
                    lemma_unreported_branches(tips, self.interval);
                    assert forall|j: int, k: int|
                        0 <= j < tips.len() && !is_working(#[trigger] tips[j], self.interval) && 0 <= k
                            < v@.len() implies #[trigger] v@[k].name@ != tips[j].name@ by {
                        assert(branch_views(v@)[k] == v@[k]@);
                    }
                }
            }
        }
        r
    }
}

} // verus!
