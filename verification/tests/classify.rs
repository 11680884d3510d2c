//! Classifier plumbing: tool-argument decoding, the two verified
//! decisions, issue decoding, filter building, and text helpers.

use gitm::classifier::{parse_tool_arguments, BinaryClassificationResult, BinaryClassifier, LLMBinaryClassifierContext, ToolArgs};
use gitm::dates::Timestamp;
use gitm::fmt::{colorize_string, indent_string, Color};
use gitm::git::Author;
use gitm::github::issues_from_json;
use gitm::rankers::Render;
use gitm::llm::{ChatModel, ChatModelKey, ChatResponse, Choice, ResponseMessage, Role, Usage,
    FunctionCall, ToolCall, first_tool_call};
use gitm::mention_classifiers::{AuthorMentionBinaryClassifier, DateTimeMentionClassifier};
use gitm::search_agent::{build_filter_config, SearchAgent, SearchConfigBuilder};

fn model() -> ChatModel {
    ChatModel::new(String::from("SECRET-REDACTED"), ChatModelKey::Gpt4)
}

#[test]
fn tool_arguments_decode_fields() {
    let args =
        parse_tool_arguments("{\"classification\": true, \"author_name\": \"Ada\"}").unwrap();
    assert!(args.classification);
    assert_eq!(args.author_name.as_deref(), Some("Ada"));
    assert_eq!(args.since, None);
    assert_eq!(args.until, None);
}

#[test]
fn tool_arguments_need_the_boolean() {
    assert!(parse_tool_arguments("{\"author_name\": \"Ada\"}").is_none());
    assert!(parse_tool_arguments("not json").is_none());
    let neg = parse_tool_arguments("{\"classification\": false}").unwrap();
    assert!(!neg.classification);
}

#[test]
fn tool_arguments_null_fields_read_as_absent() {
    let args = parse_tool_arguments(
        "{\"classification\": true, \"author_name\": null, \"since\": \"2023-02-01\"}",
    )
    .unwrap();
    assert_eq!(args.author_name, None);
    assert_eq!(args.since.as_deref(), Some("2023-02-01"));
}

#[test]
fn author_decision_accepts_known_author_only() {
    let authors = vec![
        Author { name: Some(String::from("Ada")), username: None, email: None },
        Author { name: Some(String::from("Grace")), username: None, email: None },
    ];
    let clf = AuthorMentionBinaryClassifier::new(model(), authors);
    let yes = clf.classify_args(&ToolArgs {
        classification: true,
        author_name: Some(String::from("Ada")),
        since: None,
        until: None,
    });
    assert!(yes.classification);
    assert_eq!(yes.content.unwrap().name.as_deref(), Some("Ada"));
    let unknown = clf.classify_args(&ToolArgs {
        classification: true,
        author_name: Some(String::from("Nobody")),
        since: None,
        until: None,
    });
    assert!(!unknown.classification);
    assert!(unknown.content.is_none());
    let negative = clf.classify_args(&ToolArgs {
        classification: false,
        author_name: Some(String::from("Ada")),
        since: None,
        until: None,
    });
    assert!(!negative.classification);
}

#[test]
fn author_classifier_prompt_lists_authors() {
    let authors = vec![
        Author { name: Some(String::from("Ada")), username: None, email: None },
        Author { name: None, username: None, email: None },
        Author { name: Some(String::from("Grace")), username: None, email: None },
    ];
    let clf = AuthorMentionBinaryClassifier::new(model(), authors);
    let prompt = &clf.raw_classifier.system_prompt;
    assert!(prompt.contains("## Complete Author List"));
    assert!(prompt.contains("- Ada\n- Grace"));
    assert!(prompt.contains("exact match"));
}

#[test]
fn search_agent_prompt_names_each_author_once() {
    // the history listing yields one author per record; the prompt
    // must name each known author once, first bearer of a name kept
    let authors = vec![
        Author {
            name: Some(String::from("Ada")),
            username: None,
            email: Some(String::from("a@x.com")),
        },
        Author {
            name: Some(String::from("Ada")),
            username: None,
            email: Some(String::from("b@x.com")),
        },
        Author { name: Some(String::from("Grace")), username: None, email: None },
    ];
    let agent = SearchAgent::new(model(), authors, "2023-06-01");
    let prompt = &agent.author_mention_classifier.raw_classifier.system_prompt;
    assert!(prompt.contains("- Ada\n- Grace"));
    assert!(!prompt.contains("- Ada\n- Ada"));
    let kept = &agent.author_mention_classifier.existing_authors;
    assert_eq!(kept.len(), 2);
    assert_eq!(kept[0].email.as_deref(), Some("a@x.com"));
}

#[test]
fn date_decision_builds_inclusive_range() {
    let clf = DateTimeMentionClassifier::new(model(), "2023-06-01");
    let both = clf.classify_args(&ToolArgs {
        classification: true,
        author_name: None,
        since: Some(String::from("2023-02-01")),
        until: Some(String::from("2023-02-03")),
    });
    assert!(both.classification);
    let (since, until) = both.content.unwrap();
    assert_eq!(since.unwrap().secs, 1675209600);
    assert_eq!(until.unwrap().secs, 1675382400 + 86399);
    let negative = clf.classify_args(&ToolArgs {
        classification: false,
        author_name: None,
        since: Some(String::from("2023-02-01")),
        until: None,
    });
    assert!(!negative.classification);
    let unreadable = clf.classify_args(&ToolArgs {
        classification: true,
        author_name: None,
        since: Some(String::from("02/01/2023")),
        until: None,
    });
    assert!(!unreadable.classification);
    let half = clf.classify_args(&ToolArgs {
        classification: true,
        author_name: None,
        since: None,
        until: Some(String::from("2023-02-29")),
    });
    // 2023-02-29 is not a real date
    assert!(!half.classification);
}

#[test]
fn build_request_carries_schema_and_query() {
    let ctx = LLMBinaryClassifierContext::builder(
        model(),
        String::from("Decide the thing."),
    )
    .build();
    let (messages, tool) = ctx.build_request("find me stuff");
    assert_eq!(messages.len(), 2);
    assert!(matches!(messages[0].role, Role::System));
    assert!(matches!(messages[1].role, Role::User));
    assert!(messages[1].content.contains("find me stuff"));
    assert!(messages[1].content.contains("Decide the thing."));
    assert_eq!(tool.kind, "function");
    assert_eq!(tool.function.name, "binary_classification");
    assert_eq!(tool.function.parameters.required, vec![String::from("classification")]);
    assert_eq!(tool.function.parameters.properties[0].0, "classification");
}

#[test]
fn first_tool_call_reads_the_first_choice() {
    let call = ToolCall {
        id: String::from("1"),
        kind: String::from("function"),
        function: FunctionCall {
            name: String::from("binary_classification"),
            arguments: String::from("{\"classification\": true}"),
        },
    };
    let resp = ChatResponse {
        choices: vec![Choice {
            message: ResponseMessage {
                role: Role::Assistant,
                content: None,
                tool_calls: Some(vec![call]),
            },
        }],
        usage: Usage { prompt_tokens: 1, completion_tokens: 1, total_tokens: 2 },
    };
    let tc = first_tool_call(&resp).unwrap();
    assert_eq!(tc.function.arguments, "{\"classification\": true}");
    let empty = ChatResponse {
        choices: Vec::new(),
        usage: Usage { prompt_tokens: 0, completion_tokens: 0, total_tokens: 0 },
    };
    assert!(first_tool_call(&empty).is_none());
}

#[test]
fn issues_decode_from_json() {
    let json = "[{\"author\": {\"login\": \"ada\"}, \"number\": 7, \"createdAt\": \"2023-01-02T03:04:05Z\", \"title\": \"Bug\", \"body\": \"It breaks\"}]";
    let issues = issues_from_json(json).unwrap();
    assert_eq!(issues.len(), 1);
    let i = &issues[0];
    assert_eq!(i.author.name.as_deref(), Some("ada"));
    assert_eq!(i.number, 7);
    assert_eq!(i.created_at.secs, 1672628645);
    assert_eq!(i.title, "Bug");
    assert_eq!(i.body, "It breaks");
}

#[test]
fn issues_reject_malformed_json() {
    assert!(issues_from_json("{").is_none());
    assert!(issues_from_json("[{\"number\": 7}]").is_none());
    assert!(
        issues_from_json(
            "[{\"author\": {\"login\": \"a\"}, \"number\": 1, \"createdAt\": \"yesterday\", \"title\": \"t\", \"body\": \"b\"}]"
        )
        .is_none()
    );
}

#[test]
fn issue_renders_all_fields() {
    let json = "[{\"author\": {\"login\": \"ada\"}, \"number\": 7, \"createdAt\": \"2023-01-02T03:04:05Z\", \"title\": \"Bug\", \"body\": \"It breaks\"}]";
    let issues = issues_from_json(json).unwrap();
    assert_eq!(
        issues[0].render(),
        "Bug\nIt breaks\nada\n2023-01-02 03:04:05 UTC\n7\n"
    );
}

#[test]
fn filter_config_built_from_verdicts() {
    let author_yes = BinaryClassificationResult {
        classification: true,
        content: Some(Author { name: Some(String::from("Ada")), username: None, email: None }),
    };
    let date_no: BinaryClassificationResult<(Option<Timestamp>, Option<Timestamp>)> =
        BinaryClassificationResult { classification: false, content: None };
    let cfg = build_filter_config(&author_yes, &date_no, true);
    assert!(cfg.git_log_get_all);
    assert_eq!(cfg.author.unwrap().name.as_deref(), Some("Ada"));
    assert!(cfg.date_range.is_none());
}

#[test]
fn search_config_builder_defaults_and_setters() {
    let cfg = SearchConfigBuilder::new(String::from("q")).build();
    assert_eq!(cfg.query, "q");
    assert_eq!(cfg.max_num_results, 10);
    assert!(cfg.include_commits);
    assert!(!cfg.include_issues);
    assert!(!cfg.include_code_patches);
    assert!(!cfg.disable_classifications);
    assert!(!cfg.search_all);
    let cfg2 = SearchConfigBuilder::new(String::from("q"))
        .max_num_results(3)
        .include_commits(false)
        .include_issues(true)
        .include_code_patches(true)
        .disable_classifications(true)
        .search_all(true)
        .build();
    assert_eq!(cfg2.max_num_results, 3);
    assert!(!cfg2.include_commits);
    assert!(cfg2.include_issues);
    assert!(cfg2.include_code_patches);
    assert!(cfg2.disable_classifications);
    assert!(cfg2.search_all);
}

#[test]
fn colorize_wraps_in_escape_codes() {
    assert_eq!(colorize_string("hi", Color::Yellow), "\u{1b}[33mhi\u{1b}[0m");
    assert_eq!(colorize_string("x", Color::Red), "\u{1b}[31mx\u{1b}[0m");
}

#[test]
fn indent_prefixes_every_line() {
    assert_eq!(indent_string("a\nb", 4), "    a\n    b\n");
    assert_eq!(indent_string("", 2), "");
}

#[test]
fn model_and_role_wire_names() {
    assert_eq!(ChatModelKey::Gpt35Turbo.key_text(), "gpt-3.5-turbo");
    assert_eq!(ChatModelKey::Gpt4.key_text(), "gpt-4-0613");
    assert_eq!(Role::System.role_text(), "system");
    assert_eq!(Role::Tool.role_text(), "tool");
}
