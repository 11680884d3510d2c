//! The orchestrated ranking pipeline: dual-view ranking and the
//! merge/dedup step.

use gitm::git::parse_commits;
use gitm::rankers::RankError;
use gitm::search_agent::{rank_commit_results, rank_issue_results};
use gitm::github::issues_from_json;

fn blob(sha: &str, title: &str, added: &str) -> String {
    format!(
        "Ada|||a@x|||Sun, 01 Jan 2023 00:00:00 +0000|||{}|||body|||{}\ndiff --git a/f b/f\n--- a/f\n+++ b/f\n@@ -1,1 +1,2 @@\n ctx\n+{}\n",
        title, sha, added
    )
}

#[test]
fn message_view_ranks_matching_title_first() {
    let raw = format!(
        "{}\u{0}{}",
        blob("s1", "fix tokenizer bug", "unrelated"),
        blob("s2", "update docs", "other")
    );
    let commits = parse_commits(&raw, &None).unwrap();
    let results =
        rank_commit_results(&String::from("tokenizer"), commits, 10, false).unwrap();
    assert_eq!(results.len(), 2);
    assert_eq!(results[0].title, "fix tokenizer bug");
}

#[test]
fn patch_view_appends_after_message_view() {
    // the message view finds "renderer" only in the title of s1; the
    // patch view finds it only in the added lines of s2
    let raw = format!(
        "{}\u{0}{}",
        blob("s1", "renderer docs", "plain line"),
        blob("s2", "beta", "fn renderer() {}")
    );
    let commits = parse_commits(&raw, &None).unwrap();
    let with_patches =
        rank_commit_results(&String::from("renderer"), commits, 1, true).unwrap();
    // one hit from each view; identifiers differ, so both stay, and
    // the message-view hit ranks ahead of the patch-view hit
    assert_eq!(with_patches.len(), 2);
    assert_eq!(with_patches[0].sha, "s1");
    assert_eq!(with_patches[1].sha, "s2");
}

#[test]
fn duplicate_identifiers_keep_primary_hit() {
    let raw = blob("same", "gamma text", "gamma code");
    let commits = parse_commits(&raw, &None).unwrap();
    let results = rank_commit_results(&String::from("gamma"), commits, 5, true).unwrap();
    // both views rank the same record; the merge keeps one
    assert_eq!(results.len(), 1);
    assert_eq!(results[0].sha, "same");
    // the kept record is the primary-view rendering
    assert!(matches!(
        results[0].display_mode,
        gitm::git::CommitDisplayMode::TitleAndBody
    ));
}

#[test]
fn empty_record_set_is_a_ranking_error() {
    let r = rank_commit_results(&String::from("q"), Vec::new(), 10, false);
    assert!(matches!(r, Err(RankError::EmptyCorpus)));
}

#[test]
fn issues_rank_independently() {
    let json = "[\
        {\"author\": {\"login\": \"ada\"}, \"number\": 1, \"createdAt\": \"2023-01-01T00:00:00Z\", \"title\": \"parser panics\", \"body\": \"crash\"},\
        {\"author\": {\"login\": \"bob\"}, \"number\": 2, \"createdAt\": \"2023-01-02T00:00:00Z\", \"title\": \"docs typo\", \"body\": \"minor\"}\
    ]";
    let issues = issues_from_json(json).unwrap();
    let ranked = rank_issue_results(&String::from("parser"), issues, 10).unwrap();
    assert_eq!(ranked.len(), 2);
    assert_eq!(ranked[0].title, "parser panics");
    let none = rank_issue_results(&String::from("q"), Vec::new(), 10);
    assert!(none.is_err());
}
