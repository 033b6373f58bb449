use code_auditor::issue::RawModelIssue;
use code_auditor::session::{Event, ModelReply};
use code_auditor::transcript::{ArgValue, ToolArgument, ToolCallRequest};
use code_auditor::wire::{decode_issue_list, decode_reply, reply_content, Json, Member};

fn text(s: &str) -> Json {
    Json::Text(s.to_string())
}

fn object(members: Vec<(&str, Json)>) -> Json {
    Json::Object(
        members.into_iter().map(|(name, value)| Member { name: name.to_string(), value }).collect(),
    )
}

fn tool_call(name: Json, arguments: Option<Json>) -> Json {
    let mut function = vec![("name", name)];
    if let Some(a) = arguments {
        function.push(("arguments", a));
    }
    object(vec![("function", object(function))])
}

fn reply(content: Option<&str>, calls: Option<Vec<Json>>) -> Option<Json> {
    let mut message = vec![("role", text("assistant"))];
    if let Some(c) = content {
        message.push(("content", text(c)));
    }
    if let Some(c) = calls {
        message.push(("tool_calls", Json::List(c)));
    }
    Some(object(vec![("model", text("test")), ("message", object(message))]))
}

fn malformed() -> Event {
    Event::MalformedReply("raw text".to_string())
}

fn decoded(body: Option<Json>) -> Event {
    decode_reply(&body, "raw text".to_string())
}

#[test]
fn reply_with_content_only() {
    assert_eq!(
        decoded(reply(Some("All done."), None)),
        Event::Reply(ModelReply { content: "All done.".to_string(), tool_call: None })
    );
    assert_eq!(
        decoded(reply(None, Some(Vec::new()))),
        Event::Reply(ModelReply { content: String::new(), tool_call: None })
    );
    assert_eq!(
        decoded(Some(object(vec![("message", object(vec![("content", Json::Integer(3))]))]))),
        Event::Reply(ModelReply { content: String::new(), tool_call: None })
    );
}

#[test]
fn reply_with_a_tool_call() {
    let arguments = object(vec![
        ("path", text("src/main.rs")),
        ("start_line", Json::Integer(10)),
        ("numbered", Json::Bool(true)),
    ]);
    let e = decoded(reply(Some("Let me look."), Some(vec![tool_call(text("read_file"), Some(arguments))])));
    assert_eq!(
        e,
        Event::Reply(ModelReply {
            content: "Let me look.".to_string(),
            tool_call: Some(ToolCallRequest {
                name: "read_file".to_string(),
                arguments: vec![
                    ToolArgument { name: "path".to_string(), value: ArgValue::Text("src/main.rs".to_string()) },
                    ToolArgument { name: "start_line".to_string(), value: ArgValue::Number(10) },
                    ToolArgument { name: "numbered".to_string(), value: ArgValue::Flag(true) },
                ],
            }),
        })
    );
}

#[test]
fn tool_call_without_arguments() {
    for arguments in [None, Some(Json::Null), Some(object(vec![]))] {
        assert_eq!(
            decoded(reply(None, Some(vec![tool_call(text("finish"), arguments)]))),
            Event::Reply(ModelReply {
                content: String::new(),
                tool_call: Some(ToolCallRequest { name: "finish".to_string(), arguments: Vec::new() }),
            })
        );
    }
}

#[test]
fn only_the_first_tool_call_counts() {
    let calls = vec![tool_call(text("finish"), None), tool_call(Json::Null, None)];
    assert_eq!(
        decoded(reply(None, Some(calls))),
        Event::Reply(ModelReply {
            content: String::new(),
            tool_call: Some(ToolCallRequest { name: "finish".to_string(), arguments: Vec::new() }),
        })
    );
}

#[test]
fn replies_that_are_malformed() {
    assert_eq!(decoded(None), malformed());
    assert_eq!(decoded(Some(Json::Null)), malformed());
    assert_eq!(decoded(Some(Json::List(Vec::new()))), malformed());
    assert_eq!(decoded(Some(object(vec![("error", text("no such model"))]))), malformed());
    assert_eq!(decoded(reply(None, Some(vec![Json::Null]))), malformed());
    assert_eq!(decoded(reply(None, Some(vec![object(vec![("id", text("1"))])]))), malformed());
    assert_eq!(decoded(reply(None, Some(vec![tool_call(Json::Integer(1), None)]))), malformed());
    assert_eq!(
        decoded(reply(None, Some(vec![tool_call(text("read_file"), Some(text("{}")))]))),
        malformed()
    );
    for bad in [Json::Fraction, Json::Null, Json::List(Vec::new()), object(vec![])] {
        let arguments = object(vec![("path", text("a")), ("start_line", bad)]);
        assert_eq!(
            decoded(reply(None, Some(vec![tool_call(text("read_file"), Some(arguments))]))),
            malformed()
        );
    }
}

#[test]
fn first_member_of_a_name_counts() {
    let body = object(vec![("message", object(vec![("content", text("one")), ("content", text("two"))]))]);
    assert_eq!(reply_content(&body), Some("one".to_string()));
    assert!(matches!(body.get("message"), Some(Json::Object(_))));
    assert!(body.get("Message").is_none());
    assert!(Json::Null.get("message").is_none());
    assert_eq!(object(vec![("n", Json::Integer(-5))]).integer("n"), Some(-5));
    assert_eq!(object(vec![("n", text("5"))]).integer("n"), None);
    assert_eq!(object(vec![("n", text("5"))]).text("n"), Some("5".to_string()));
}

#[test]
fn content_of_a_reply() {
    assert_eq!(reply_content(&reply(Some("[]"), None).unwrap()), Some("[]".to_string()));
    assert_eq!(reply_content(&reply(None, None).unwrap()), None);
    assert_eq!(reply_content(&Json::Null), None);
    assert_eq!(reply_content(&object(vec![("message", text("x"))])), None);
}

#[test]
fn issue_list_is_decoded() {
    let list = Json::List(vec![
        object(vec![
            ("file_path", text("src/a.rs")),
            ("line_number", Json::Integer(7)),
            ("severity", text("HIGH")),
            ("category", text("Bug")),
            ("title", text("T")),
            ("description", text("D")),
            ("suggestion", text("S")),
        ]),
        object(vec![("line_number", Json::Fraction), ("severity", Json::Integer(1))]),
    ]);
    assert_eq!(
        decode_issue_list(&Some(list), "raw text".to_string()),
        Event::IssueList(vec![
            RawModelIssue {
                file_path: "src/a.rs".to_string(),
                line_number: Some(7),
                severity: "HIGH".to_string(),
                category: "Bug".to_string(),
                title: "T".to_string(),
                description: "D".to_string(),
                suggestion: Some("S".to_string()),
            },
            RawModelIssue {
                file_path: String::new(),
                line_number: None,
                severity: String::new(),
                category: String::new(),
                title: String::new(),
                description: String::new(),
                suggestion: None,
            },
        ])
    );
    assert_eq!(
        decode_issue_list(&Some(Json::List(Vec::new())), "raw text".to_string()),
        Event::IssueList(Vec::new())
    );
}

#[test]
fn issue_lists_that_are_malformed() {
    assert_eq!(decode_issue_list(&None, "raw text".to_string()), malformed());
    assert_eq!(decode_issue_list(&Some(Json::Null), "raw text".to_string()), malformed());
    assert_eq!(decode_issue_list(&Some(text("no issues")), "raw text".to_string()), malformed());
    assert_eq!(decode_issue_list(&Some(object(vec![])), "raw text".to_string()), malformed());
    let mixed = Json::List(vec![object(vec![("title", text("T"))]), text("and more")]);
    assert_eq!(decode_issue_list(&Some(mixed), "raw text".to_string()), malformed());
    let first_bad = Json::List(vec![Json::Integer(1), object(vec![])]);
    assert_eq!(decode_issue_list(&Some(first_bad), "raw text".to_string()), malformed());
}
