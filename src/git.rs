use vstd::prelude::*;

use repo_analyzer::{
    lenient_merged, read_commit, read_walk, select_merged_lenient, retro_views, traversal, BranchTip,
    CommitInfo, GitError, RetroCommit,
};
use search_interval::{representable, today, SearchInterval, TWO_WEEKS};

mod backend;
pub mod repo_analyzer;
pub mod search_interval;

verus! {

/// The entry is a branch whose tip was found and lies strictly between
/// `from` and `to`.
pub open spec fn tip_in_range(read: Option<BranchTip>, from: int, to: int) -> bool {
    read is Some && read->0.tip is Some && from < read->0.tip->0.seconds && read->0.tip->0.seconds < to
}

/// The names of the branches in range, in listing order. Each entry of
/// `reads` is `None` where the branch could not be listed or its name could
/// not be read; such a branch is left out, as is one whose tip could not be
/// resolved or found (`tip` is `None`).
pub open spec fn names_in_range(reads: Seq<Option<BranchTip>>, from: int, to: int) -> Seq<Seq<char>>
    decreases reads.len(),
{
    if reads.len() == 0 {
        Seq::empty()
    } else {
        let rest = names_in_range(reads.drop_last(), from, to);
        if tip_in_range(reads.last(), from, to) {
            rest.push(reads.last()->0.name@)
        } else {
            rest
        }
    }
}

pub open spec fn string_views(v: Seq<String>) -> Seq<Seq<char>> {
    v.map_values(|s: String| s@)
}

/// The names of the branches read in `reads` whose tip commit lies
/// strictly between `from` and `to`, in listing order (`names_in_range`).
pub fn select_names_in_range(tips: &Vec<Option<BranchTip>>, from: i64, to: i64) -> (r: Vec<String>)
    ensures
        string_views(r@) == names_in_range(tips@, from as int, to as int),
{
    let mut r: Vec<String> = Vec::new();
    let mut i: usize = 0;
    while i < tips.len()
        invariant
            i <= tips@.len(),
            string_views(r@) == names_in_range(tips@.subrange(0, i as int), from as int, to as int),
        decreases tips@.len() - i,
    {
        let ghost before = r@;
        match &tips[i] {
            Some(b) => match &b.tip {
                Some(c) => {
                    if from < c.seconds && c.seconds < to {
                        r.push(b.name.clone());
                    }
                },
                None => {},
            },
            None => {},
        }
        proof {
            let p = tips@.subrange(0, i + 1);
            assert(p.drop_last() =~= tips@.subrange(0, i as int));
            assert(p.last() == tips@[i as int]);
            if r@.len() > before.len() {
                assert(string_views(r@) =~= string_views(before).push(tips@[i as int]->0.name@));
            } else {
                assert(r@ == before);
            }
        }
        i = i + 1;
    }
    assert(tips@.subrange(0, tips@.len() as int) =~= tips@);
    r
}

/// The log lines of reported commits: author, a space, summary.
pub open spec fn log_lines(commits: Seq<(Seq<char>, Seq<char>)>) -> Seq<Seq<char>> {
    commits.map_values(|c: (Seq<char>, Seq<char>)| c.0 + " "@ + c.1)
}

/// One line of the log: the author's name and the commit summary.
pub fn summarize(commit: &RetroCommit) -> (r: String)
    ensures
        r@ == commit.author@ + " "@ + commit.message@,
{
    String::from_str(commit.author.as_str()).concat(" ").concat(commit.message.as_str())
}

/// A repository read over the two weeks up to a fixed day. Unlike
/// `RepoAnalyzer` it keeps a repository that failed to open, and reports
/// the failure on each query.
pub struct GitRepo {
    today: i64,
    repo: Result<git2::Repository, String>,
}

impl GitRepo {
    /// The last day of the two weeks that are read.
    pub closed spec fn day(&self) -> i64 {
        self.today
    }

    /// The repository could be opened.
    pub closed spec fn opened(&self) -> bool {
        self.repo is Ok
    }

    /// Why the repository could not be opened.
    pub closed spec fn open_failure(&self) -> Seq<char> {
        match self.repo {
            Err(m) => m@,
            Ok(_) => Seq::empty(),
        }
    }

    pub open spec fn wf(&self) -> bool {
        representable(self.day() as int) && representable(self.day() - TWO_WEEKS)
    }

    pub open spec fn window(&self) -> SearchInterval {
        SearchInterval { from: (self.day() - TWO_WEEKS) as i64, to: self.day() }
    }

    /// The repository at `repo_path`, read over the two weeks up to now.
    pub fn new(repo_path: &str) -> (r: GitRepo)
        ensures
            r.wf(),
    {
        let repo = match repo_analyzer::open_repository_at(repo_path) {
            Ok(repo) => Ok(repo),
            Err(GitError::Open(m)) => Err(m),
            Err(GitError::Traversal(m)) => Err(m),
            Err(GitError::Fetch(m)) => Err(m),
        };
        GitRepo { repo, today: today() }
    }

    /// The repository at `repo_path`, read over the two weeks up to `day`.
    pub fn at_day(repo_path: &str, day: i64) -> (r: GitRepo)
        requires
            representable(day as int),
            representable(day - TWO_WEEKS),
        ensures
            r.wf(),
            r.day() == day,
    {
        let repo = match repo_analyzer::open_repository_at(repo_path) {
            Ok(repo) => Ok(repo),
            Err(GitError::Open(m)) => Err(m),
            Err(GitError::Traversal(m)) => Err(m),
            Err(GitError::Fetch(m)) => Err(m),
        };
        GitRepo { repo, today: day }
    }

    /// The log of the commits merged in the last two weeks, one line each.
    pub fn get_log(&self) -> (r: Result<Vec<String>, GitError>)
        requires
            self.wf(),
        ensures
            r matches Ok(v) ==> exists|walk: Seq<Option<CommitInfo>>|
                string_views(v@) == log_lines(lenient_merged(walk, self.window())),
            r matches Err(e) ==> (!self.opened() && e is Open) || (self.opened() && e is Traversal),
    {
        let commits = self.get_commits()?;
        let mut lines: Vec<String> = Vec::new();
        let mut i: usize = 0;
        while i < commits.len()
            invariant
                i <= commits@.len(),
                string_views(lines@) == log_lines(retro_views(commits@).subrange(0, i as int)),
            decreases commits@.len() - i,
        {
            let ghost before = lines@;
            lines.push(summarize(&commits[i]));
            proof {
                assert(retro_views(commits@).subrange(0, i + 1) =~= retro_views(commits@).subrange(
                    0,
                    i as int,
                ).push(commits@[i as int]@));
                assert(string_views(lines@) =~= string_views(before).push(lines@[i as int]@));
                assert(string_views(lines@) =~= log_lines(retro_views(commits@).subrange(0, i + 1)));
            }
            i = i + 1;
        }
        assert(retro_views(commits@).subrange(0, commits@.len() as int) =~= retro_views(commits@));
        Ok(lines)
    }

    /// The commits merged in the two weeks up to the fixed day.
    pub fn get_commits(&self) -> (r: Result<Vec<RetroCommit>, GitError>)
        requires
            self.wf(),
        ensures
            r matches Ok(v) ==> exists|walk: Seq<Option<CommitInfo>>|
                retro_views(v@) == lenient_merged(walk, self.window()),
            r matches Err(e) ==> (!self.opened() && e is Open) || (self.opened() && e is Traversal),
    {
        let interval = SearchInterval::starting(self.today, TWO_WEEKS);
        assert(interval == self.window());
        self.get_merged(interval.from, interval.to)
    }

    /// The names of the remote branches whose tip commit lies strictly
    /// between `from` and `to`; branches that cannot be read are left out.
    pub fn get_in_progress(&self, from: i64, to: i64) -> (r: Result<Vec<String>, GitError>)
        ensures
            r matches Ok(v) ==> exists|reads: Seq<Option<BranchTip>>|
                string_views(v@) == names_in_range(reads, from as int, to as int),
            !self.opened() ==> (r matches Err(GitError::Open(m)) && m@ == self.open_failure()),
            self.opened() ==> (r matches Err(e) ==> e is Traversal),
    {
        let repo = match &self.repo {
            Ok(repo) => repo,
            Err(m) => return Err(GitError::Open(m.clone())),
        };
        let listed = match backend_branches(repo) {
            Ok(l) => l,
            Err(e) => return Err(e),
        };
        let mut tips: Vec<Option<BranchTip>> = Vec::new();
        let mut i: usize = 0;
        while i < listed.len()
            invariant
                i <= listed@.len(),
            decreases listed@.len() - i,
        {
            let read = match &listed[i] {
                Ok(branch) => match backend::branch_name(branch) {
                    Ok(Some(name)) => {
                        let tip = match backend::branch_target(branch) {
                            Ok(Some(oid)) => match backend::find_commit(repo, oid) {
                                Ok(c) => Some(read_commit(&c)),
                                Err(_) => None,
                            },
                            _ => None,
                        };
                        Some(BranchTip { name, tip })
                    },
                    _ => None,
                },
                Err(_) => None,
            };
            tips.push(read);
            i = i + 1;
        }
        Ok(select_names_in_range(&tips, from, to))
    }

    /// The commits merged strictly between `from` and `to`: an unopened
    /// repository gives its `Open` error, failing to start the walk a
    /// `Traversal` error; a commit that cannot be read is passed over before
    /// the run and ends it once it has begun.
    fn get_merged(&self, from: i64, to: i64) -> (r: Result<Vec<RetroCommit>, GitError>)
        ensures
            !self.opened() ==> (r matches Err(GitError::Open(m)) && m@ == self.open_failure()),
            self.opened() ==> (r matches Ok(v) ==> exists|walk: Seq<Option<CommitInfo>>|
                retro_views(v@) == lenient_merged(walk, SearchInterval { from, to })),
            self.opened() ==> (r matches Err(e) ==> e is Traversal),
    {
        match &self.repo {
            Ok(repo) => {
                let interval = SearchInterval { from, to };
                let (items, _, _) = read_walk(repo, &interval, true)?;
                Ok(select_merged_lenient(&items, &interval))
            },
            Err(m) => Err(GitError::Open(m.clone())),
        }
    }
}

fn backend_branches(repo: &git2::Repository) -> (r: Result<
    Vec<Result<git2::Branch<'_>, git2::Error>>,
    GitError,
>)
    ensures
        r matches Err(e) ==> e is Traversal,
{
    match backend::remote_branches(repo) {
        Ok(l) => Ok(l),
        Err(e) => Err(traversal(&e)),
    }
}

} // verus!
