use git_retrospective::git::repo_analyzer::{
    commit_info, is_excluded_branch, select_merged, select_merged_lenient, select_working, BranchTip,
    CommitInfo, GitError, RepoAnalyzer, RetroCommit, WorkingBranch,
};
use git_retrospective::git::{select_names_in_range, summarize, GitRepo};
use git_retrospective::git::search_interval::{SearchInterval, FALLBACK_NOW, ONE_DAY, TWO_WEEKS};

// 2020-05-24 22:51:28 UTC
const DAY_WITH_COMMITS: i64 = 1_590_360_688;

fn info(seconds: i64, author: &str, summary: &str) -> Option<CommitInfo> {
    Some(CommitInfo { seconds, author: author.to_string(), summary: summary.to_string() })
}

fn tip(name: &str, seconds: i64, author: &str) -> Option<BranchTip> {
    Some(BranchTip { name: name.to_string(), tip: info(seconds, author, "tip") })
}

fn messages(commits: &[RetroCommit]) -> Vec<String> {
    commits.iter().map(|c| c.message.clone()).collect()
}

fn names(branches: &[WorkingBranch]) -> Vec<String> {
    branches.iter().map(|b| b.name.clone()).collect()
}

#[test]
fn get_time_range() {
    // 2020-05-01 22:22:22 and 2020-04-17 22:22:22
    let a_day = 1_588_371_742;
    let two_weeks_ago_timestamp = 1_587_162_142;
    let interval = SearchInterval::starting(a_day, TWO_WEEKS);
    assert_eq!(two_weeks_ago_timestamp, interval.from);
}

#[test]
fn starting_ends_at_anchor_and_spans_duration() {
    let interval = SearchInterval::starting(DAY_WITH_COMMITS, ONE_DAY);
    assert_eq!(interval.to, DAY_WITH_COMMITS);
    assert_eq!(interval.to - interval.from, ONE_DAY);
    assert_eq!(interval.get_git_time(), (DAY_WITH_COMMITS - ONE_DAY, DAY_WITH_COMMITS));
}

#[test]
fn clock_fallback_when_unreadable() {
    let interval = SearchInterval::from_clock(None, TWO_WEEKS);
    assert_eq!(interval.to, FALLBACK_NOW);
    assert_eq!(interval.from, FALLBACK_NOW - TWO_WEEKS);
    let read = SearchInterval::from_clock(Some(1_700_000_000), ONE_DAY);
    assert_eq!(read.to, 1_700_000_000);
    let now = SearchInterval::start_now(TWO_WEEKS);
    assert_eq!(now.to - now.from, TWO_WEEKS);
}

#[test]
fn interval_excludes_both_ends() {
    let interval = SearchInterval::starting(100, 10);
    assert!(!interval.contains(90));
    assert!(interval.contains(91));
    assert!(interval.contains(99));
    assert!(!interval.contains(100));
}

#[test]
fn merged_commits_are_strictly_inside_in_walk_order() {
    let interval = SearchInterval::starting(100, 50);
    let walk = vec![
        info(120, "a", "future"),
        info(100, "a", "at the end"),
        info(99, "a", "c3"),
        info(70, "b", "c2"),
        info(51, "a", "c1"),
        info(50, "a", "at the start"),
        info(10, "a", "old"),
    ];
    let merged = select_merged(&walk, &interval).unwrap();
    assert_eq!(messages(&merged), vec!["c3", "c2", "c1"]);
    assert_eq!(merged[1].author, "b");
}

#[test]
fn merged_run_stops_at_first_commit_outside() {
    let interval = SearchInterval::starting(100, 50);
    let walk = vec![info(90, "a", "first"), info(80, "a", "second"), info(20, "a", "old"), info(85, "a", "late")];
    assert_eq!(messages(&select_merged(&walk, &interval).unwrap()), vec!["first", "second"]);
    assert!(select_merged(&vec![], &interval).unwrap().is_empty());
    assert!(select_merged(&vec![info(10, "a", "old")], &interval).unwrap().is_empty());
}

#[test]
fn unreadable_entry_up_to_the_end_of_the_run_fails() {
    let interval = SearchInterval::starting(100, 50);
    // Before the run.
    assert!(select_merged(&vec![info(120, "a", "new"), None, info(90, "a", "in")], &interval).is_none());
    // Inside the run.
    assert!(select_merged(&vec![info(90, "a", "in"), None, info(80, "a", "in")], &interval).is_none());
    // Ending the run.
    assert!(select_merged(&vec![info(90, "a", "in"), None], &interval).is_none());
    // After the entry that ends the run: never read, so no failure.
    let walk = vec![info(90, "a", "in"), info(10, "a", "old"), None];
    assert_eq!(messages(&select_merged(&walk, &interval).unwrap()), vec!["in"]);
}

#[test]
fn lenient_walk_skips_unreadable_before_run_and_stops_inside() {
    let interval = SearchInterval::starting(100, 50);
    let walk = vec![info(120, "a", "new"), None, info(90, "a", "one"), info(80, "a", "two"), None, info(70, "a", "three")];
    assert_eq!(messages(&select_merged_lenient(&walk, &interval)), vec!["one", "two"]);
}

#[test]
fn commit_info_defaults_to_empty_text() {
    let c = commit_info(42, None, Some("Fix".to_string()));
    assert_eq!((c.seconds, c.author.as_str(), c.summary.as_str()), (42, "", "Fix"));
    let c = commit_info(7, Some("Ann".to_string()), None);
    assert_eq!((c.seconds, c.author.as_str(), c.summary.as_str()), (7, "Ann", ""));
}

#[test]
fn excluded_branch_names() {
    assert!(is_excluded_branch("origin/HEAD"));
    assert!(is_excluded_branch("origin/release-1.2"));
    assert!(is_excluded_branch("release-"));
    assert!(!is_excluded_branch("origin/HEADS"));
    assert!(!is_excluded_branch("origin/release"));
    assert!(!is_excluded_branch("origin/feature"));
}

#[test]
fn working_branches_follow_policy() {
    let interval = SearchInterval::starting(100, 50);
    let tips = vec![
        tip("origin/HEAD", 90, "a"),
        tip("origin/feature", 90, "Ann"),
        tip("origin/release-2", 90, "a"),
        tip("origin/old", 40, "a"),
        tip("origin/edge", 100, "a"),
        Some(BranchTip { name: "origin/unresolved".to_string(), tip: None }),
        tip("origin/other", 51, "Bo"),
    ];
    let working = select_working(&tips, &interval).unwrap();
    assert_eq!(
        working,
        vec![
            WorkingBranch { author: "Ann".to_string(), name: "origin/feature".to_string() },
            WorkingBranch { author: "Bo".to_string(), name: "origin/other".to_string() },
        ]
    );
}

#[test]
fn unreadable_branch_fails_the_listing() {
    let interval = SearchInterval::starting(100, 50);
    assert!(select_working(&vec![tip("origin/feature", 90, "Ann"), None], &interval).is_none());
    assert!(select_working(&vec![None, tip("origin/HEAD", 90, "Ann")], &interval).is_none());
    assert_eq!(select_working(&vec![], &interval), Some(vec![]));
}

#[test]
fn opening_a_repository_without_commits_fails() {
    let nanos = std::time::SystemTime::now().duration_since(std::time::UNIX_EPOCH).unwrap().as_nanos();
    let path = format!("/tmp/git-retrospective-empty-{}", nanos);
    git2::Repository::init(&path).unwrap();
    assert!(matches!(RepoAnalyzer::new(&path), Err(GitError::Open(_))));
}

#[test]
fn opening_a_missing_repository_fails() {
    match RepoAnalyzer::new("/nonexistent/surely/not/a/repository") {
        Err(GitError::Open(_)) => {}
        _ => panic!("expected an open error"),
    }
}

// The ten commits of the fixture, oldest first.
const HISTORY: [&str; 10] = [
    "Initial commit with basic functionality",
    "Rename app to girretro and add invalid command output",
    "Fix 0 commits message",
    "cover with some tests the message module",
    "Add basic readme",
    "Add dev and production environment",
    "Add usage message when using --help option",
    "Update readme and remove authore from usage",
    "Fix programming language for README usage",
    "Add TODO in the readme",
];

/// A repository whose ten commits by Ion Ostafi lie in the two weeks up to
/// `DAY_WITH_COMMITS`, the newest five of them in the last day, with one
/// older commit before the window, one exactly at its start and one exactly
/// at its end. Remote branches: `master` at the oldest commit, the two test
/// branches inside the window, and, where `noisy`, `origin/HEAD` pointing at
/// a test branch and a release branch inside the window (otherwise
/// `origin/HEAD` points at `master`).
fn fixture_repository(noisy: bool) -> String {
    let nanos = std::time::SystemTime::now()
        .duration_since(std::time::UNIX_EPOCH)
        .unwrap()
        .as_nanos();
    let path = format!("/tmp/git-retrospective-fixture-{}", nanos);
    let repo = git2::Repository::init(&path).unwrap();
    let tree_id = repo.treebuilder(None).unwrap().write().unwrap();
    let tree = repo.find_tree(tree_id).unwrap();
    let from = DAY_WITH_COMMITS - TWO_WEEKS;
    let commit = |secs: i64, message: &str, parent: Option<git2::Oid>| -> git2::Oid {
        let sig = git2::Signature::new("Ion Ostafi", "ion@example.com", &git2::Time::new(secs, 0)).unwrap();
        let parents: Vec<git2::Commit> = parent.into_iter().map(|p| repo.find_commit(p).unwrap()).collect();
        let refs: Vec<&git2::Commit> = parents.iter().collect();
        repo.commit(Some("HEAD"), &sig, &sig, message, &tree, &refs).unwrap()
    };
    let root = commit(from - 3_600, "Older than the window", None);
    let mut last = commit(from, "Exactly at the start", Some(root));
    let mut inside = Vec::new();
    for (k, message) in HISTORY.iter().enumerate() {
        let k = k as i64;
        let secs = if k < 5 { from + (k + 1) * 100_000 } else { DAY_WITH_COMMITS - ONE_DAY + (k - 4) * 10_000 };
        last = commit(secs, message, Some(last));
        inside.push(last);
    }
    commit(DAY_WITH_COMMITS, "Exactly at the end", Some(last));
    repo.reference("refs/remotes/origin/master", root, true, "fixture").unwrap();
    repo.reference("refs/remotes/origin/do_not_delete_used_for_tests_1", inside[2], true, "fixture").unwrap();
    repo.reference("refs/remotes/origin/do_not_delete_used_for_tests_2", inside[7], true, "fixture").unwrap();
    if noisy {
        repo.reference_symbolic(
            "refs/remotes/origin/HEAD",
            "refs/remotes/origin/do_not_delete_used_for_tests_1",
            true,
            "fixture",
        )
        .unwrap();
        repo.reference("refs/remotes/origin/release-1.0", inside[5], true, "fixture").unwrap();
    } else {
        repo.reference_symbolic("refs/remotes/origin/HEAD", "refs/remotes/origin/master", true, "fixture").unwrap();
    }
    path
}

fn test_branches() -> Vec<WorkingBranch> {
    vec![
        WorkingBranch { name: "origin/do_not_delete_used_for_tests_1".into(), author: "Ion Ostafi".into() },
        WorkingBranch { name: "origin/do_not_delete_used_for_tests_2".into(), author: "Ion Ostafi".into() },
    ]
}

#[test]
fn test_get_log() {
    let repo = GitRepo::at_day(&fixture_repository(false), DAY_WITH_COMMITS);
    let log = repo.get_log();
    assert!(log.is_ok());
    assert_eq!(
        log.as_ref().unwrap(),
        &vec![
            "Ion Ostafi Add TODO in the readme",
            "Ion Ostafi Fix programming language for README usage",
            "Ion Ostafi Update readme and remove authore from usage",
            "Ion Ostafi Add usage message when using --help option",
            "Ion Ostafi Add dev and production environment",
            "Ion Ostafi Add basic readme",
            "Ion Ostafi cover with some tests the message module",
            "Ion Ostafi Fix 0 commits message",
            "Ion Ostafi Rename app to girretro and add invalid command output",
            "Ion Ostafi Initial commit with basic functionality"
        ]
    );
}

#[test]
fn git_test_get_commits() {
    let repo = GitRepo::at_day(&fixture_repository(false), DAY_WITH_COMMITS);
    let commits = repo.get_commits();
    assert!(commits.is_ok());
    assert_eq!(commits.unwrap().iter().count(), 10);
}

#[test]
fn git_test_get_branches() {
    let repo = GitRepo::at_day(&fixture_repository(false), DAY_WITH_COMMITS);
    let interval = SearchInterval::starting(DAY_WITH_COMMITS, TWO_WEEKS);
    let (from, to) = interval.get_git_time();
    let names = repo.get_in_progress(from, to);
    assert!(names.is_ok());
    assert_eq!(
        names.as_ref().unwrap(),
        &vec!["origin/do_not_delete_used_for_tests_1", "origin/do_not_delete_used_for_tests_2"]
    );
}

#[test]
fn git_repo_reports_open_failure_on_each_query() {
    let repo = GitRepo::at_day("/nonexistent/surely/not/a/repository", DAY_WITH_COMMITS);
    assert!(matches!(repo.get_commits(), Err(GitError::Open(_))));
    assert!(matches!(repo.get_in_progress(0, 1), Err(GitError::Open(_))));
    assert_eq!(summarize(&RetroCommit { author: "Ann".into(), message: "Fix".into() }), "Ann Fix");
}

#[test]
fn repo_analyzer_test_get_commits() {
    let mut repo = RepoAnalyzer::new(&fixture_repository(false)).expect("Cant open path ./");
    repo.set_interval(SearchInterval::starting(DAY_WITH_COMMITS, ONE_DAY));
    let commits = repo.get_commits();
    assert!(commits.is_ok());
    assert_eq!(commits.as_ref().unwrap().iter().count(), 5);
    assert_eq!(commits.as_ref().unwrap()[4].message, String::from("Add dev and production environment"));
}

#[test]
fn repo_analyzer_test_get_branches() {
    let mut repo = RepoAnalyzer::new(&fixture_repository(false)).unwrap();
    repo.set_interval(SearchInterval::starting(DAY_WITH_COMMITS, TWO_WEEKS));
    let branches = repo.get_in_progress();
    assert!(branches.is_ok());
    assert_eq!(branches.as_ref().unwrap(), &test_branches());
}

#[test]
fn fixture_repository_end_to_end() {
    let path = fixture_repository(true);
    let mut repo = RepoAnalyzer::new(&path).expect("fixture repository opens");
    assert_eq!(repo.interval.to - repo.interval.from, TWO_WEEKS);
    repo.set_interval(SearchInterval::starting(DAY_WITH_COMMITS, TWO_WEEKS));
    let commits = repo.get_commits().unwrap();
    assert_eq!(commits.len(), 10);
    assert_eq!(commits[0].message, "Add TODO in the readme");
    assert_eq!(commits[9].message, "Initial commit with basic functionality");
    assert!(commits.iter().all(|c| c.author == "Ion Ostafi"));
    // origin/HEAD and the release branch point inside the window too.
    assert_eq!(repo.get_in_progress().unwrap(), test_branches());
    repo.set_interval(SearchInterval::starting(DAY_WITH_COMMITS - TWO_WEEKS - 7_200, ONE_DAY));
    assert!(repo.get_commits().unwrap().is_empty());
    assert!(names(&repo.get_in_progress().unwrap()).is_empty());
}

#[test]
fn legacy_names_skip_unreadable_branches() {
    let reads = vec![
        tip("origin/a", 90, "x"),
        None,
        Some(BranchTip { name: "origin/unresolved".to_string(), tip: None }),
        tip("origin/old", 10, "x"),
        tip("origin/HEAD", 95, "x"),
    ];
    assert_eq!(select_names_in_range(&reads, 50, 100), vec!["origin/a", "origin/HEAD"]);
}
