//! The calls into libgit2 (through the `git2` crate) that the analysis makes.
//! What they return depends on the repository on disk, so their contracts
//! promise nothing about it: the verified code is correct for every answer.
use vstd::prelude::*;

verus! {

#[verifier::external_type_specification]
#[verifier::external_body]
pub struct ExRepository(git2::Repository);

#[verifier::external_type_specification]
#[verifier::external_body]
pub struct ExGitError(git2::Error);

#[verifier::external_type_specification]
#[verifier::external_body]
pub struct ExOid(git2::Oid);

#[verifier::external_type_specification]
#[verifier::external_body]
pub struct ExRevwalk<'repo>(git2::Revwalk<'repo>);

#[verifier::external_type_specification]
#[verifier::external_body]
pub struct ExCommit<'repo>(git2::Commit<'repo>);

#[verifier::external_type_specification]
#[verifier::external_body]
pub struct ExBranch<'repo>(git2::Branch<'repo>);

/// Relies on `git2::Repository::open`: opens the repository at `path`, or
/// fails when there is none or it cannot be read.
#[verifier::external_body]
pub(crate) fn open_repository(path: &str) -> (r: Result<git2::Repository, git2::Error>) {
    git2::Repository::open(path)
}

/// Relies on `git2::Repository::is_empty`: whether the repository was just
/// initialised and holds no commits.
#[verifier::external_body]
pub(crate) fn repository_is_empty(repo: &git2::Repository) -> (r: Result<bool, git2::Error>) {
    repo.is_empty()
}

/// Relies on `git2::Error::message`: the error's text.
#[verifier::external_body]
pub(crate) fn error_message(e: &git2::Error) -> (r: String) {
    e.message().to_string()
}

/// Relies on `git2::Repository::revwalk`: a new, empty history walk.
#[verifier::external_body]
pub(crate) fn new_revwalk(repo: &git2::Repository) -> (r: Result<git2::Revwalk<'_>, git2::Error>) {
    repo.revwalk()
}

/// Relies on `git2::Revwalk::push_head`: starts the walk at the current
/// branch tip.
#[verifier::external_body]
pub(crate) fn push_head(walk: &mut git2::Revwalk<'_>) -> (r: Result<(), git2::Error>) {
    walk.push_head()
}

/// Relies on `Iterator::next` of `git2::Revwalk`: the commit ids of the walk
/// in the order the walk yields them, each or an error.
#[verifier::external_body]
pub(crate) fn walk_ids(walk: git2::Revwalk<'_>) -> (r: Vec<Result<git2::Oid, git2::Error>>) {
    walk.collect()
}

/// Relies on `git2::Repository::find_commit`: the commit with id `oid`.
#[verifier::external_body]
pub(crate) fn find_commit(repo: &git2::Repository, oid: git2::Oid) -> (r: Result<
    git2::Commit<'_>,
    git2::Error,
>) {
    repo.find_commit(oid)
}

/// Relies on `git2::Commit::time` and `git2::Time::seconds`: the commit time
/// in seconds since the epoch, without its time zone offset.
#[verifier::external_body]
pub(crate) fn commit_seconds(c: &git2::Commit<'_>) -> (r: i64) {
    c.time().seconds()
}

/// Relies on `git2::Commit::author` and `git2::Signature::name`: the
/// author's name, `None` where it is not valid UTF-8.
#[verifier::external_body]
pub(crate) fn commit_author(c: &git2::Commit<'_>) -> (r: Option<String>) {
    c.author().name().ok().map(String::from)
}

/// Relies on `git2::Commit::summary`: the first paragraph of the message,
/// `None` where there is none or it is not valid UTF-8.
#[verifier::external_body]
pub(crate) fn commit_summary(c: &git2::Commit<'_>) -> (r: Option<String>) {
    c.summary().ok().flatten().map(String::from)
}

/// Relies on `git2::Repository::branches` with `BranchType::Remote`: the
/// remote-tracking branches in listing order, each or an error.
#[verifier::external_body]
pub(crate) fn remote_branches(repo: &git2::Repository) -> (r: Result<
    Vec<Result<git2::Branch<'_>, git2::Error>>,
    git2::Error,
>) {
    repo.branches(Some(git2::BranchType::Remote)).map(|it| it.map(|b| b.map(|(b, _)| b)).collect())
}

/// Relies on `git2::Branch::name`: the branch's short name, `None` where it
/// is not valid UTF-8.
#[verifier::external_body]
pub(crate) fn branch_name(b: &git2::Branch<'_>) -> (r: Result<Option<String>, git2::Error>) {
    b.name().map(|n| n.map(String::from))
}

/// Relies on `git2::Reference::resolve` and `git2::Reference::target` of
/// the branch's reference: the id of the commit at its tip.
#[verifier::external_body]
pub(crate) fn branch_target(b: &git2::Branch<'_>) -> (r: Result<Option<git2::Oid>, git2::Error>) {
    b.get().resolve().map(|r| r.target())
}

} // verus!
