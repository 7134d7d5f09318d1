use git_retrospective::git::repo_analyzer::{RetroCommit, WorkingBranch};
use git_retrospective::git::search_interval::{SearchInterval, ONE_DAY, TWO_WEEKS};
use git_retrospective::message;
use git_retrospective::slack::message::{create_message, increase_index, prettify, SUFFIX_COUNT};
use git_retrospective::slack::{compose_digest, MessageIngredients};

fn commit(author: &str, message: &str) -> RetroCommit {
    RetroCommit { author: author.to_string(), message: message.to_string() }
}

fn branch(author: &str, name: &str) -> WorkingBranch {
    WorkingBranch { author: author.to_string(), name: name.to_string() }
}

#[test]
fn message_test_0_commits_message_is_empty() {
    let message = prettify(&vec![]);
    assert!(message.len() == 0);
    let message = message::prettify(&vec![]);
    assert!(message.len() == 0);
}

#[test]
fn message_test_increase_max_allowed_index() {
    let next_index = increase_index(SUFFIX_COUNT - 1);
    assert_eq!(0, next_index);
    let next_index = message::increase_index(SUFFIX_COUNT);
    assert_eq!(0, next_index);
}

#[test]
fn increase_index_steps_forward() {
    assert_eq!(increase_index(0), 1);
    assert_eq!(increase_index(8), 9);
    assert_eq!(message::increase_index(9), 10);
}

#[test]
fn prettify_lists_commits_with_emoji_and_count() {
    let text = prettify(&vec!["Ion Fix it".to_string(), "Ann Add it".to_string()]);
    let expected = "\nA reminder on how cool you all are \u{1F60E}\nA year ago, this same day you've written history \u{1F4DC}\n\u{261E} Ion Fix it \u{1F64C} \n\u{261E} Ann Add it \u{1F44D} \n2 merged commits in one day";
    assert_eq!(text, expected);
    assert_eq!(message::prettify(&vec!["Ion Fix it".to_string(), "Ann Add it".to_string()]), expected);
}

#[test]
fn prettify_cycles_through_emoji() {
    let commits: Vec<String> = (0..12).map(|i| format!("c{}", i)).collect();
    let text = prettify(&commits);
    assert!(text.contains("c9 \u{1F64F} \n"));
    assert!(text.contains("c10 \u{1F64C} \n"));
    assert!(text.contains("c11 \u{1F44D} \n"));
    assert!(text.ends_with("12 merged commits in one day"));
}

#[test]
fn empty_digest_is_empty() {
    assert_eq!(create_message(&vec![], &vec![]), "");
    let ingredients = MessageIngredients {
        commits: vec![],
        branches: vec![],
        interval: SearchInterval::starting(1_590_360_688, TWO_WEEKS),
    };
    assert_eq!(ingredients.format_slack(), "");
}

#[test]
fn digest_groups_by_author_in_order() {
    let commits = vec![commit("bob", "Fix parser"), commit("alice", "Add tests"), commit("bob", "Tidy up")];
    let branches = vec![branch("alice", "origin/feature"), branch("carol", "origin/spike"), branch("bob", "origin/wip")];
    let expected = "_alice_\n```\n    [done] Add tests\n    [in-progress] origin/feature\n```\n\
_bob_\n```\n    [done] Fix parser\n    [done] Tidy up\n    [in-progress] origin/wip\n```\n\
_carol_\n```\n    [in-progress] origin/spike\n```\n";
    assert_eq!(create_message(&commits, &branches), expected);
}

#[test]
fn digest_orders_authors_by_code_point() {
    let commits = vec![commit("bob", "b"), commit("Zed", "z"), commit("alice", "a"), commit("al", "x")];
    let text = create_message(&commits, &vec![]);
    let zed = text.find("_Zed_").unwrap();
    let al = text.find("_al_").unwrap();
    let alice = text.find("_alice_").unwrap();
    let bob = text.find("_bob_").unwrap();
    assert!(zed < al && al < alice && alice < bob);
}

#[test]
fn digest_header_names_the_interval() {
    let ingredients = MessageIngredients {
        commits: vec![commit("Ion Ostafi", "Add basic readme")],
        branches: vec![],
        interval: SearchInterval::starting(1_590_360_688, ONE_DAY),
    };
    assert_eq!(
        ingredients.format_slack(),
        "Team git-status from 2020-05-23 22:51:28 to 2020-05-24 22:51:28\n_Ion Ostafi_\n```\n    [done] Add basic readme\n```\n"
    );
}

#[test]
fn compose_digest_uses_given_header_texts() {
    let text = compose_digest("monday", "friday", &vec![], &vec![branch("a", "origin/x")]);
    assert_eq!(text, "Team git-status from monday to friday\n_a_\n```\n    [in-progress] origin/x\n```\n");
}
