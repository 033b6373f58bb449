use code_auditor::paths::resolve;
use code_auditor::tools::{
    dispatch, line_window, raw_issue_of, tool_schema, Dispatch, ParameterKind, ToolExecutionError,
    ToolInvocation, ToolKind, MAX_READ_LINES,
};
use code_auditor::transcript::{ArgValue, ToolArgument, ToolCallRequest};

fn text_arg(name: &str, value: &str) -> ToolArgument {
    ToolArgument { name: name.to_string(), value: ArgValue::Text(value.to_string()) }
}

fn number_arg(name: &str, value: i64) -> ToolArgument {
    ToolArgument { name: name.to_string(), value: ArgValue::Number(value) }
}

fn flag_arg(name: &str, value: bool) -> ToolArgument {
    ToolArgument { name: name.to_string(), value: ArgValue::Flag(value) }
}

fn request(name: &str, arguments: Vec<ToolArgument>) -> ToolCallRequest {
    ToolCallRequest { name: name.to_string(), arguments }
}

fn some(s: &str) -> Option<String> {
    Some(s.to_string())
}

#[test]
fn tool_names_are_a_closed_set() {
    assert_eq!(ToolKind::from_name("list_files"), ToolKind::ListFiles);
    assert_eq!(ToolKind::from_name("read_file"), ToolKind::ReadFile);
    assert_eq!(ToolKind::from_name("report_issue"), ToolKind::ReportIssue);
    assert_eq!(ToolKind::from_name("finish"), ToolKind::Finish);
    assert_eq!(ToolKind::from_name("done"), ToolKind::Finish);
    for name in ["", "Read_File", "read_file ", "readfile", "exec", "finish!", "DONE"] {
        assert_eq!(ToolKind::from_name(name), ToolKind::Unknown, "name {:?}", name);
    }
}

#[test]
fn paths_inside_the_repository_are_resolved() {
    assert_eq!(resolve("src/main.rs"), some("src/main.rs"));
    assert_eq!(resolve("./src//main.rs"), some("src/main.rs"));
    assert_eq!(resolve("src/../Cargo.toml"), some("Cargo.toml"));
    assert_eq!(resolve("a/b/c/../../d/./e"), some("a/d/e"));
    assert_eq!(resolve(""), some(""));
    assert_eq!(resolve("."), some(""));
    assert_eq!(resolve("src/"), some("src"));
    assert_eq!(resolve("a/.."), some(""));
    assert_eq!(resolve("..."), some("..."));
    assert_eq!(resolve("a/..b/c"), some("a/..b/c"));
    assert_eq!(resolve("dir with space/файл.rs"), some("dir with space/файл.rs"));
    assert_eq!(resolve("src\\agent\\mod.rs"), some("src/agent/mod.rs"));
    assert_eq!(resolve("a\\..\\b/c"), some("b/c"));
}

#[test]
fn paths_that_leave_the_repository_are_refused() {
    assert_eq!(resolve(".."), None);
    assert_eq!(resolve("../secret"), None);
    assert_eq!(resolve("src/../../etc/passwd"), None);
    assert_eq!(resolve("a/b/../../../c"), None);
    assert_eq!(resolve("a/../../a"), None);
    assert_eq!(resolve("./.."), None);
    assert_eq!(resolve("a\\..\\..\\x"), None);
    assert_eq!(resolve("..\\x"), None);
    assert_eq!(resolve("a/..\\../x"), None);
}

#[test]
fn paths_with_a_colon_are_refused() {
    assert_eq!(resolve("C:/x"), None);
    assert_eq!(resolve("C:x"), None);
    assert_eq!(resolve("c:\\windows"), None);
    assert_eq!(resolve("src/a.rs:stream"), None);
    assert_eq!(resolve(":"), None);
}

#[test]
fn absolute_paths_are_refused() {
    assert_eq!(resolve("/etc/passwd"), None);
    assert_eq!(resolve("/"), None);
    assert_eq!(resolve("\\windows\\system32"), None);
}

#[test]
fn read_file_is_planned_with_defaults() {
    let d = dispatch(&request("read_file", vec![text_arg("path", "src/./lib.rs")]));
    assert_eq!(
        d,
        Dispatch::Run(ToolInvocation::ReadFile {
            path: "src/lib.rs".to_string(),
            start_line: 1,
            max_lines: MAX_READ_LINES,
        })
    );
    assert_eq!(MAX_READ_LINES, 200);
}

#[test]
fn read_file_bounds_are_checked_and_capped() {
    let d = dispatch(&request(
        "read_file",
        vec![text_arg("path", "a.rs"), number_arg("start_line", 40), number_arg("max_lines", 25)],
    ));
    assert_eq!(
        d,
        Dispatch::Run(ToolInvocation::ReadFile { path: "a.rs".to_string(), start_line: 40, max_lines: 25 })
    );
    let d = dispatch(&request(
        "read_file",
        vec![text_arg("path", "a.rs"), number_arg("max_lines", 100000)],
    ));
    assert_eq!(
        d,
        Dispatch::Run(ToolInvocation::ReadFile { path: "a.rs".to_string(), start_line: 1, max_lines: 200 })
    );
    let d = dispatch(&request(
        "read_file",
        vec![text_arg("path", "a.rs"), number_arg("start_line", 0)],
    ));
    assert_eq!(d, Dispatch::Refused(ToolExecutionError::InvalidStartLine));
    let d = dispatch(&request(
        "read_file",
        vec![text_arg("path", "a.rs"), text_arg("start_line", "3")],
    ));
    assert_eq!(d, Dispatch::Refused(ToolExecutionError::InvalidStartLine));
    let d = dispatch(&request(
        "read_file",
        vec![text_arg("path", "a.rs"), number_arg("max_lines", -1)],
    ));
    assert_eq!(d, Dispatch::Refused(ToolExecutionError::InvalidLineCount));
    let d = dispatch(&request(
        "read_file",
        vec![text_arg("path", "a.rs"), flag_arg("max_lines", true)],
    ));
    assert_eq!(d, Dispatch::Refused(ToolExecutionError::InvalidLineCount));
}

#[test]
fn path_errors_come_first() {
    let d = dispatch(&request("read_file", vec![number_arg("start_line", 0)]));
    assert_eq!(d, Dispatch::Refused(ToolExecutionError::MissingPath));
    let d = dispatch(&request("read_file", vec![number_arg("path", 3)]));
    assert_eq!(d, Dispatch::Refused(ToolExecutionError::PathNotText));
    let d = dispatch(&request(
        "read_file",
        vec![text_arg("path", "../x"), number_arg("start_line", 0)],
    ));
    assert_eq!(d, Dispatch::Refused(ToolExecutionError::PathEscapesRepository));
    let d = dispatch(&request("list_files", vec![text_arg("path", "/")]));
    assert_eq!(d, Dispatch::Refused(ToolExecutionError::PathEscapesRepository));
    let d = dispatch(&request("list_files", vec![flag_arg("path", false)]));
    assert_eq!(d, Dispatch::Refused(ToolExecutionError::PathNotText));
}

#[test]
fn list_files_without_a_path_lists_the_root() {
    assert_eq!(
        dispatch(&request("list_files", vec![])),
        Dispatch::Run(ToolInvocation::ListFiles { path: String::new() })
    );
    assert_eq!(
        dispatch(&request("list_files", vec![text_arg("path", "src/agent/")])),
        Dispatch::Run(ToolInvocation::ListFiles { path: "src/agent".to_string() })
    );
}

#[test]
fn first_argument_of_a_name_counts() {
    let r = request("read_file", vec![text_arg("path", "first.rs"), text_arg("path", "../second")]);
    assert_eq!(r.argument("path"), Some(&ArgValue::Text("first.rs".to_string())));
    assert_eq!(r.argument("Path"), None);
    assert_eq!(
        dispatch(&r),
        Dispatch::Run(ToolInvocation::ReadFile {
            path: "first.rs".to_string(),
            start_line: 1,
            max_lines: 200,
        })
    );
}

#[test]
fn finish_and_unknown_are_told_apart() {
    assert_eq!(dispatch(&request("finish", vec![])), Dispatch::Finish);
    assert_eq!(dispatch(&request("done", vec![text_arg("path", "../x")])), Dispatch::Finish);
    assert_eq!(dispatch(&request("rm", vec![text_arg("path", "a")])), Dispatch::Unknown);
    assert_eq!(dispatch(&request("", vec![])), Dispatch::Unknown);
}

#[test]
fn report_issue_reads_its_fields() {
    let r = request(
        "report_issue",
        vec![
            text_arg("file_path", "src/a.rs"),
            number_arg("line_number", 0),
            text_arg("severity", "HIGH"),
            text_arg("title", "T"),
            text_arg("description", "D"),
            text_arg("suggestion", "S"),
            flag_arg("category", true),
        ],
    );
    let raw = raw_issue_of(&r);
    assert_eq!(raw.file_path, "src/a.rs");
    assert_eq!(raw.line_number, Some(0));
    assert_eq!(raw.severity, "HIGH");
    assert_eq!(raw.category, "");
    assert_eq!(raw.title, "T");
    assert_eq!(raw.description, "D");
    assert_eq!(raw.suggestion, some("S"));
    assert_eq!(dispatch(&r), Dispatch::Report(raw));
    let empty = raw_issue_of(&request("report_issue", vec![text_arg("line_number", "7")]));
    assert_eq!(empty.file_path, "");
    assert_eq!(empty.line_number, None);
    assert_eq!(empty.suggestion, None);
}

#[test]
fn error_messages_are_fixed() {
    assert_eq!(ToolExecutionError::MissingPath.message(), "Error: the argument 'path' is missing");
    assert_eq!(ToolExecutionError::PathNotText.message(), "Error: the argument 'path' must be text");
    assert_eq!(
        ToolExecutionError::PathEscapesRepository.message(),
        "Error: the path leaves the repository"
    );
    assert_eq!(
        ToolExecutionError::InvalidStartLine.message(),
        "Error: 'start_line' must be a number from 1 on"
    );
    assert_eq!(
        ToolExecutionError::InvalidLineCount.message(),
        "Error: 'max_lines' must be a number from 1 on"
    );
}

#[test]
fn line_window_is_cut_to_the_file() {
    assert_eq!(line_window(1000, 1, 200), (0, 200));
    assert_eq!(line_window(1000, 901, 200), (900, 1000));
    assert_eq!(line_window(1000, 1000, 200), (999, 1000));
    assert_eq!(line_window(1000, 1001, 200), (1000, 1000));
    assert_eq!(line_window(1000, u64::MAX, u64::MAX), (1000, 1000));
    assert_eq!(line_window(10, 1, u64::MAX), (0, 10));
    assert_eq!(line_window(0, 1, 200), (0, 0));
    assert_eq!(line_window(10, 0, 3), (0, 3));
    assert_eq!(line_window(10, 4, 0), (3, 3));
}

#[test]
fn schema_names_the_tools_of_the_dispatcher() {
    let tools = tool_schema();
    let names: Vec<&str> = tools.iter().map(|t| t.name.as_str()).collect();
    assert_eq!(names, ["list_files", "read_file", "report_issue", "finish"]);
    for tool in &tools {
        assert_ne!(ToolKind::from_name(&tool.name), ToolKind::Unknown);
        assert!(!tool.description.is_empty());
    }
    let read: Vec<(&str, ParameterKind)> =
        tools[1].parameters.iter().map(|p| (p.name.as_str(), p.kind)).collect();
    assert_eq!(
        read,
        [
            ("path", ParameterKind::Text),
            ("start_line", ParameterKind::Number),
            ("max_lines", ParameterKind::Number)
        ]
    );
    let report: Vec<&str> = tools[2].parameters.iter().map(|p| p.name.as_str()).collect();
    assert_eq!(
        report,
        ["file_path", "line_number", "severity", "category", "title", "description", "suggestion"]
    );
    assert_eq!(tools[0].parameters.len(), 1);
    assert!(tools[3].parameters.is_empty());
}
