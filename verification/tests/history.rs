//! Log-stream parsing, filtering, deduplication, dates and authors.

use gitm::dates::Timestamp;
use gitm::git::{
    dedupe_authors, parse_authors, parse_commits, passes_filter, split_raw_git_log_output, Author,
    Commit, CommitDisplayMode, FilterConfig, GitLogError,
};
use gitm::patch::{LineKind, PatchSet};
use gitm::rankers::Render;
use gitm::search_agent::dedupe_commits;

fn commit_with(sha: &str, title: &str) -> Commit {
    Commit {
        author: Author { name: Some(String::from("Ada")), username: None, email: None },
        date: Timestamp::from_ymd(2023, 1, 1),
        title: String::from(title),
        body: String::new(),
        sha: String::from(sha),
        patch_set: PatchSet::new(),
        display_mode: CommitDisplayMode::TitleAndBody,
    }
}

const BLOB: &str = "Ada Lovelace|||ada@x.com|||Mon, 02 Jan 2023 03:04:05 +0000|||Add parser|||Some body|||abc123\ndiff --git a/f.txt b/f.txt\n--- a/f.txt\n+++ b/f.txt\n@@ -1,1 +1,2 @@\n line1\n+line2\ndiff --git a/g.txt b/g.txt\n--- a/g.txt\n+++ b/g.txt\n@@ -1 +1 @@\n-old\n+new\n";

#[test]
fn split_record_two_fragments_one_metadata() {
    let (frags, meta) = split_raw_git_log_output(BLOB);
    assert_eq!(frags.len(), 2);
    for f in &frags {
        assert!(f.starts_with("diff --git"));
    }
    assert!(meta.contains("abc123"));
    assert!(meta.contains("Ada Lovelace"));
    assert!(!meta.contains("diff --git"));
    assert!(!meta.contains("+line2"));
    assert!(!meta.contains("-old"));
}

#[test]
fn split_record_metadata_resembling_patch_lines() {
    // lines before the first marker stay metadata, even when a later
    // patch line could be mistaken for one
    let blob = "title with diff --git inside? no: markers only open lines\ndiff --git a/x b/x\n+++ b/x\n";
    let (frags, meta) = split_raw_git_log_output(blob);
    assert_eq!(frags.len(), 1);
    assert!(meta.contains("markers only open lines"));
}

#[test]
fn parse_commits_reads_fields_and_patch() {
    let commits = parse_commits(BLOB, &None).unwrap();
    assert_eq!(commits.len(), 1);
    let c = &commits[0];
    assert_eq!(c.author.name.as_deref(), Some("Ada Lovelace"));
    assert_eq!(c.author.email.as_deref(), Some("ada@x.com"));
    assert_eq!(c.title, "Add parser");
    assert_eq!(c.body, "Some body");
    assert_eq!(c.sha, "abc123");
    // 2023-01-02 03:04:05 UTC
    assert_eq!(c.date.secs, 1672628645);
    assert_eq!(c.patch_set.files.len(), 2);
    let added = c.patch_set.values_of_kind(LineKind::Added);
    assert_eq!(added, vec![String::from("line2"), String::from("new")]);
    let removed = c.patch_set.values_of_kind(LineKind::Removed);
    assert_eq!(removed, vec![String::from("old")]);
}

#[test]
fn parse_commits_orders_oldest_first() {
    let older = "Ada|||a@x|||Sun, 01 Jan 2023 00:00:00 +0000|||Old|||b|||sha1\ndiff --git a/f b/f\n--- a/f\n+++ b/f\n@@ -1 +1 @@\n-x\n+y\n";
    let newer = "Ada|||a@x|||Mon, 02 Jan 2023 00:00:00 +0000|||New|||b|||sha2\ndiff --git a/f b/f\n--- a/f\n+++ b/f\n@@ -1 +1 @@\n-x\n+y\n";
    // the upstream tool emits newest first
    let raw = format!("{}\u{0}{}", newer, older);
    let commits = parse_commits(&raw, &None).unwrap();
    assert_eq!(commits.len(), 2);
    assert_eq!(commits[0].title, "Old");
    assert_eq!(commits[1].title, "New");
}

#[test]
fn parse_commits_drops_wrong_field_count_silently() {
    let blob = "only|||three|||fields\ndiff --git a/f b/f\n--- a/f\n+++ b/f\n@@ -1 +1 @@\n+y\n";
    let commits = parse_commits(blob, &None).unwrap();
    assert_eq!(commits.len(), 0);
}

#[test]
fn parse_commits_bad_date_is_fatal() {
    let blob = "Ada|||a@x|||not a date|||T|||B|||sha\ndiff --git a/f b/f\n--- a/f\n+++ b/f\n@@ -1 +1 @@\n+y\n";
    let r = parse_commits(blob, &None);
    assert!(matches!(r, Err(GitLogError::BadDate)));
    assert_eq!(
        GitLogError::BadDate.message(),
        "unreadable date field in history output"
    );
}

#[test]
fn parse_commits_applies_author_filter() {
    let cfg = Some(FilterConfig {
        author: Some(Author {
            name: Some(String::from("Grace")),
            username: None,
            email: None,
        }),
        date_range: None,
        git_log_get_all: false,
    });
    let commits = parse_commits(BLOB, &cfg).unwrap();
    assert_eq!(commits.len(), 0);
}

#[test]
fn filter_excludes_before_since_and_includes_before_until() {
    let author = Author { name: Some(String::from("Ada")), username: None, email: None };
    let date = Timestamp::from_ymd(2023, 1, 1);
    let since_cfg = Some(FilterConfig {
        author: None,
        date_range: Some((Some(Timestamp::from_ymd(2023, 2, 1)), None)),
        git_log_get_all: false,
    });
    assert!(!passes_filter(&since_cfg, &author, date));
    let until_cfg = Some(FilterConfig {
        author: None,
        date_range: Some((None, Some(Timestamp::from_ymd(2023, 2, 1)))),
        git_log_get_all: false,
    });
    assert!(passes_filter(&until_cfg, &author, date));
}

#[test]
fn filter_absent_config_keeps_everything() {
    let author = Author { name: None, username: None, email: None };
    assert!(passes_filter(&None, &author, Timestamp::from_ymd(1999, 12, 31)));
}

#[test]
fn filter_range_is_inclusive_at_both_ends() {
    let author = Author { name: Some(String::from("Ada")), username: None, email: None };
    let day = Timestamp::from_ymd(2023, 2, 1);
    let cfg = Some(FilterConfig {
        author: None,
        date_range: Some((Some(day), Some(day))),
        git_log_get_all: false,
    });
    assert!(passes_filter(&cfg, &author, day));
}

#[test]
fn dedup_keeps_first_occurrence_of_identifier() {
    let merged = vec![
        commit_with("abc123", "from first list"),
        commit_with("def456", "other"),
        commit_with("abc123", "from second list"),
    ];
    let deduped = dedupe_commits(merged);
    assert_eq!(deduped.len(), 2);
    assert_eq!(deduped[0].sha, "abc123");
    assert_eq!(deduped[0].title, "from first list");
    assert_eq!(deduped[1].sha, "def456");
}

#[test]
fn author_equality_goes_by_name_alone() {
    let ada_plain = Author { name: Some(String::from("Ada")), username: None, email: None };
    let ada_mail = Author {
        name: Some(String::from("Ada")),
        username: None,
        email: Some(String::from("a@x.com")),
    };
    let grace = Author { name: Some(String::from("Grace")), username: None, email: None };
    assert!(ada_plain == ada_mail);
    assert!(ada_plain != grace);
}

#[test]
fn parse_authors_reads_name_and_email() {
    let raw = "Ada Lovelace|||ada@x.com\nGrace Hopper|||\nmalformed line\n";
    let authors = parse_authors(raw);
    assert_eq!(authors.len(), 2);
    assert_eq!(authors[0].name.as_deref(), Some("Ada Lovelace"));
    assert_eq!(authors[0].email.as_deref(), Some("ada@x.com"));
    assert_eq!(authors[1].name.as_deref(), Some("Grace Hopper"));
    assert_eq!(authors[1].email, None);
}

#[test]
fn timestamp_civil_arithmetic_matches_epoch() {
    assert_eq!(Timestamp::from_ymd(1970, 1, 1).secs, 0);
    assert_eq!(Timestamp::from_ymd(2023, 1, 1).secs, 1672531200);
    assert_eq!(Timestamp::from_ymd_end(2023, 2, 1).secs, 1675209600 + 86399);
    // leap handling: 2024-02-29 exists, 2023-02-29 does not
    assert_eq!(
        Timestamp::from_ymd(2024, 3, 1).secs - Timestamp::from_ymd(2024, 2, 28).secs,
        2 * 86400
    );
}

#[test]
fn timestamp_display_renders_canonical_form() {
    let ts = Timestamp { secs: 1672628645 };
    assert_eq!(ts.display(), "2023-01-02 03:04:05 UTC");
    let epoch = Timestamp { secs: 0 };
    assert_eq!(epoch.display(), "1970-01-01 00:00:00 UTC");
}

#[test]
fn rfc2822_round_trip() {
    let ts = Timestamp::parse_rfc2822("Mon, 02 Jan 2023 03:04:05 +0000").unwrap();
    assert_eq!(ts.secs, 1672628645);
    let text = ts.to_rfc2822();
    let back = Timestamp::parse_rfc2822(&text).unwrap();
    assert_eq!(back.secs, ts.secs);
    // timezone conversion to the canonical zone
    let offset = Timestamp::parse_rfc2822("Mon, 02 Jan 2023 04:04:05 +0100").unwrap();
    assert_eq!(offset.secs, ts.secs);
}

#[test]
fn patch_parse_rejects_garbage_quietly() {
    assert!(PatchSet::parse("@@ -1,1 +1,1 @@\n-x\n+y\n").is_none());
}

#[test]
fn patch_parse_rejects_oversized_hunk_numbers() {
    // a hunk-header number beyond the parser's counting range must be
    // rejected up front, not crash the parse
    let text = "--- a\n+++ b\n@@ -99999999999999999999999 +1 @@\n";
    assert!(PatchSet::parse(text).is_none());
    let text2 = "--- a\n+++ b\n@@ -1 +1,99999999999999999999999 @@\n";
    assert!(PatchSet::parse(text2).is_none());
}

#[test]
fn patch_parse_rejects_new_file_line_without_old() {
    // a `+++` line with no `---` line before it leaves the parser with
    // no old-file name to read back
    assert!(PatchSet::parse("+++ b\n").is_none());
    assert!(PatchSet::parse("+++ b\n--- a\n").is_none());
    // a trailing carriage return with no final newline can stand as
    // the whole file name
    assert!(PatchSet::parse("+++ \r").is_none());
}

#[test]
fn parse_commits_drops_uncountable_patch_silently() {
    let blob = "Ada|||a@x|||Mon, 02 Jan 2023 00:00:00 +0000|||T|||B|||sha\ndiff --git a/f b/f\n--- a/f\n+++ b/f\n@@ -99999999999999999999999 +1 @@\n+y\n";
    let commits = parse_commits(blob, &None).unwrap();
    assert_eq!(commits.len(), 0);
}

#[test]
fn dedupe_authors_keeps_first_bearer_of_name() {
    let authors = vec![
        Author {
            name: Some(String::from("Ada")),
            username: None,
            email: Some(String::from("ada@x.com")),
        },
        Author { name: Some(String::from("Grace")), username: None, email: None },
        Author {
            name: Some(String::from("Ada")),
            username: None,
            email: Some(String::from("other@x.com")),
        },
    ];
    let distinct = dedupe_authors(authors);
    assert_eq!(distinct.len(), 2);
    assert_eq!(distinct[0].name.as_deref(), Some("Ada"));
    assert_eq!(distinct[0].email.as_deref(), Some("ada@x.com"));
    assert_eq!(distinct[1].name.as_deref(), Some("Grace"));
}

#[test]
fn commit_renders_by_display_mode() {
    let blob = BLOB;
    let commits = parse_commits(blob, &None).unwrap();
    let c = &commits[0];
    let title_body = c.with_display_mode(CommitDisplayMode::TitleAndBody);
    assert_eq!(title_body.render(), "Add parser\n\nSome body");
    let added = c.with_display_mode(CommitDisplayMode::PatchSetAdd);
    assert_eq!(added.render(), "line2\nnew");
    let removed = c.with_display_mode(CommitDisplayMode::PatchSetRemove);
    assert_eq!(removed.render(), "old");
    let title = c.with_display_mode(CommitDisplayMode::Title);
    assert_eq!(title.render(), "Add parser");
}

#[test]
fn mock_git_log_fmt_shape() {
    let mut c = commit_with("abc123", "Title line");
    c.author.email = Some(String::from("ada@x.com"));
    let text = c.mock_git_log_fmt();
    assert_eq!(
        text,
        "\u{1b}[33mcommit abc123\u{1b}[0m\nAuthor: Ada <ada@x.com>\nDate: Sun, 1 Jan 2023 00:00:00 +0000\n\n    Title line\n"
    );
}

#[test]
fn patch_set_all_renders_raw_text() {
    let commits = parse_commits(BLOB, &None).unwrap();
    let all = commits[0].with_display_mode(CommitDisplayMode::PatchSetAll);
    let text = all.render();
    assert!(text.contains("diff --git a/f.txt b/f.txt"));
    assert!(text.contains("+line2"));
    assert!(text.contains("-old"));
}

#[test]
fn mock_git_log_fmt_without_email_or_body() {
    let c = commit_with("ffff", "Only title");
    assert_eq!(
        c.mock_git_log_fmt(),
        "\u{1b}[33mcommit ffff\u{1b}[0m\nAuthor: Ada\nDate: Sun, 1 Jan 2023 00:00:00 +0000\n\n    Only title\n"
    );
}
