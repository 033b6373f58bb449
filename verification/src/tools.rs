use vstd::prelude::*;
use crate::issue::{RawModelIssue, RawModelIssueView};
use crate::paths::{resolve, resolved};
use crate::text::same_text;
use crate::transcript::{ArgValue, ArgValueView, ToolArgument, ToolArgumentView, ToolCallRequest};

verus! {

/// The most lines that one `read_file` call hands to the model.
pub const MAX_READ_LINES: u64 = 200;

/// The tools that the model may ask for. A name that is none of them is
/// `Unknown`, and is answered, never passed over.
#[derive(Clone, Copy, Debug, PartialEq, Eq, Structural)]
pub enum ToolKind {
    ListFiles,
    ReadFile,
    ReportIssue,
    Finish,
    Unknown,
}

/// The tool that a name stands for.
pub open spec fn tool_kind_of(name: Seq<char>) -> ToolKind {
    if name == "list_files"@ {
        ToolKind::ListFiles
    } else if name == "read_file"@ {
        ToolKind::ReadFile
    } else if name == "report_issue"@ {
        ToolKind::ReportIssue
    } else if name == "finish"@ || name == "done"@ {
        ToolKind::Finish
    } else {
        ToolKind::Unknown
    }
}

impl ToolKind {
    /// Reads the tool from the name that the model gave.
    pub fn from_name(name: &str) -> (k: ToolKind)
        ensures
            k == tool_kind_of(name@),
    {
        if same_text(name, "list_files") {
            ToolKind::ListFiles
        } else if same_text(name, "read_file") {
            ToolKind::ReadFile
        } else if same_text(name, "report_issue") {
            ToolKind::ReportIssue
        } else if same_text(name, "finish") || same_text(name, "done") {
            ToolKind::Finish
        } else {
            ToolKind::Unknown
        }
    }

    /// Whether the tool reads the repository, so that its work is done
    /// outside the session.
    pub open spec fn reads_repository(self) -> bool {
        self == ToolKind::ListFiles || self == ToolKind::ReadFile
    }
}

/// The value of the first argument with the name `key`.
pub open spec fn find_argument(args: Seq<ToolArgumentView>, key: Seq<char>) -> Option<
    ArgValueView,
>
    decreases args.len(),
{
    if args.len() == 0 {
        None
    } else if args[0].name == key {
        Some(args[0].value)
    } else {
        find_argument(args.drop_first(), key)
    }
}

/// The value of an optional argument.
pub open spec fn value_view(v: Option<&ArgValue>) -> Option<ArgValueView> {
    match v {
        Some(a) => Some(a@),
        None => None,
    }
}

impl ToolCallRequest {
    /// Looks up an argument by name. Of two with the same name the first counts.
    pub fn argument(&self, key: &str) -> (r: Option<&ArgValue>)
        ensures
            value_view(r) == find_argument(self@.arguments, key@),
    {
        let n: usize = self.arguments.len();
        let ghost all = self@.arguments;
        let mut i: usize = 0;
        assert(all.skip(0) =~= all);
        while i < n
            invariant
                n == self.arguments.len(),
                all == self@.arguments,
                i <= n,
                find_argument(all, key@) == find_argument(all.skip(i as int), key@),
            decreases n - i,
        {
            proof {
                assert(all.skip(i as int)[0] == self.arguments@[i as int]@);
                assert(all.skip(i as int).drop_first() =~= all.skip(i as int + 1));
            }
            if same_text(self.arguments[i].name.as_str(), key) {
                return Some(&self.arguments[i].value);
            }
            i += 1;
        }
        None
    }
}

/// The text of an argument, where it is given as text.
pub open spec fn text_argument(args: Seq<ToolArgumentView>, key: Seq<char>) -> Option<Seq<char>> {
    match find_argument(args, key) {
        Some(ArgValueView::Text(s)) => Some(s),
        _ => None,
    }
}

/// The number of an argument, where it is given as a number.
pub open spec fn number_argument(args: Seq<ToolArgumentView>, key: Seq<char>) -> Option<i64> {
    match find_argument(args, key) {
        Some(ArgValueView::Number(n)) => Some(n),
        _ => None,
    }
}

/// The text of an optional text, empty where there is none.
pub open spec fn text_or_empty(s: Option<Seq<char>>) -> Seq<char> {
    match s {
        Some(t) => t,
        None => Seq::<char>::empty(),
    }
}

/// The finding that the arguments of a `report_issue` call state. A field
/// that is missing, or given in another form than its own, is left empty.
pub open spec fn reported(args: Seq<ToolArgumentView>) -> RawModelIssueView {
    RawModelIssueView {
        file_path: text_or_empty(text_argument(args, "file_path"@)),
        line_number: number_argument(args, "line_number"@),
        severity: text_or_empty(text_argument(args, "severity"@)),
        category: text_or_empty(text_argument(args, "category"@)),
        title: text_or_empty(text_argument(args, "title"@)),
        description: text_or_empty(text_argument(args, "description"@)),
        suggestion: text_argument(args, "suggestion"@),
    }
}

fn text_of_argument(request: &ToolCallRequest, key: &str) -> (r: Option<String>)
    ensures
        crate::issue::text_of(r) == text_argument(request@.arguments, key@),
{
    match request.argument(key) {
        Some(ArgValue::Text(s)) => Some(s.clone()),
        _ => None,
    }
}

fn number_of_argument(request: &ToolCallRequest, key: &str) -> (r: Option<i64>)
    ensures
        r == number_argument(request@.arguments, key@),
{
    match request.argument(key) {
        Some(ArgValue::Number(n)) => Some(*n),
        _ => None,
    }
}

fn text_or_empty_of(s: Option<String>) -> (r: String)
    ensures
        r@ == text_or_empty(crate::issue::text_of(s)),
{
    match s {
        Some(t) => t,
        None => String::new(),
    }
}

/// Reads the finding that a `report_issue` call states.
pub fn raw_issue_of(request: &ToolCallRequest) -> (raw: RawModelIssue)
    ensures
        raw@ == reported(request@.arguments),
{
    RawModelIssue {
        file_path: text_or_empty_of(text_of_argument(request, "file_path")),
        line_number: number_of_argument(request, "line_number"),
        severity: text_or_empty_of(text_of_argument(request, "severity")),
        category: text_or_empty_of(text_of_argument(request, "category")),
        title: text_or_empty_of(text_of_argument(request, "title")),
        description: text_or_empty_of(text_of_argument(request, "description")),
        suggestion: text_of_argument(request, "suggestion"),
    }
}

/// Why a tool call could not be carried out. None of these ends the
/// session: each is told to the model as the answer to its call.
#[derive(Clone, Copy, Debug, PartialEq, Eq, Structural)]
pub enum ToolExecutionError {
    /// The call names no path.
    MissingPath,
    /// The path is not given as text.
    PathNotText,
    /// The path is absolute or leaves the repository.
    PathEscapesRepository,
    /// The first line is not a number from 1 on.
    InvalidStartLine,
    /// The number of lines is not a number from 1 on.
    InvalidLineCount,
}

impl ToolExecutionError {
    /// What the model is told of the error.
    pub open spec fn text(self) -> Seq<char> {
        match self {
            ToolExecutionError::MissingPath => "Error: the argument 'path' is missing"@,
            ToolExecutionError::PathNotText => "Error: the argument 'path' must be text"@,
            ToolExecutionError::PathEscapesRepository => "Error: the path leaves the repository"@,
            ToolExecutionError::InvalidStartLine => "Error: 'start_line' must be a number from 1 on"@,
            ToolExecutionError::InvalidLineCount => "Error: 'max_lines' must be a number from 1 on"@,
        }
    }

    /// What the model is told of the error, as text.
    pub fn message(self) -> (r: String)
        ensures
            r@ == self.text(),
    {
        match self {
            ToolExecutionError::MissingPath => "Error: the argument 'path' is missing".to_owned(),
            ToolExecutionError::PathNotText => "Error: the argument 'path' must be text".to_owned(),
            ToolExecutionError::PathEscapesRepository => "Error: the path leaves the repository".to_owned(),
            ToolExecutionError::InvalidStartLine => "Error: 'start_line' must be a number from 1 on".to_owned(),
            ToolExecutionError::InvalidLineCount => "Error: 'max_lines' must be a number from 1 on".to_owned(),
        }
    }
}

/// Work on the repository that a tool call asks for, with its path
/// resolved inside the repository and its bounds checked.
#[derive(Clone, Debug, PartialEq, Eq)]
pub enum ToolInvocation {
    /// List the entries under `path`; the empty path is the repository root.
    ListFiles { path: String },
    /// Read `max_lines` lines of the file at `path`, from line `start_line` on.
    ReadFile { path: String, start_line: u64, max_lines: u64 },
}

/// The mathematical value of a [`ToolInvocation`].
pub enum ToolInvocationView {
    ListFiles { path: Seq<char> },
    ReadFile { path: Seq<char>, start_line: u64, max_lines: u64 },
}

impl View for ToolInvocation {
    type V = ToolInvocationView;

    open spec fn view(&self) -> ToolInvocationView {
        match self {
            ToolInvocation::ListFiles { path } => ToolInvocationView::ListFiles { path: path@ },
            ToolInvocation::ReadFile { path, start_line, max_lines } => ToolInvocationView::ReadFile {
                path: path@,
                start_line: *start_line,
                max_lines: *max_lines,
            },
        }
    }
}

/// The path that a call names, resolved inside the repository. A call
/// that names none may stand for the root where `root_if_missing` holds.
pub open spec fn path_of(args: Seq<ToolArgumentView>, root_if_missing: bool) -> Result<
    Seq<char>,
    ToolExecutionError,
> {
    match find_argument(args, "path"@) {
        None => if root_if_missing {
            Ok(Seq::<char>::empty())
        } else {
            Err(ToolExecutionError::MissingPath)
        },
        Some(ArgValueView::Text(p)) => match resolved(p) {
            Some(r) => Ok(r),
            None => Err(ToolExecutionError::PathEscapesRepository),
        },
        Some(_) => Err(ToolExecutionError::PathNotText),
    }
}

/// A bound given as an argument: the default where it is missing, the
/// number, at most `limit`, where it is a number from 1 on, else none.
pub open spec fn bound_of(args: Seq<ToolArgumentView>, key: Seq<char>, default: u64, limit: u64) -> Option<
    u64,
> {
    match find_argument(args, key) {
        None => Some(default),
        Some(ArgValueView::Number(n)) => if n < 1 {
            None
        } else if n > limit {
            Some(limit)
        } else {
            Some(n as u64)
        },
        Some(_) => None,
    }
}

/// The work on the repository that a call of the given tool asks for, or
/// the error that answers the call. Only the tools that read the
/// repository have such work.
pub open spec fn planned(kind: ToolKind, args: Seq<ToolArgumentView>) -> Result<
    ToolInvocationView,
    ToolExecutionError,
>
    recommends
        kind.reads_repository(),
{
    if kind == ToolKind::ListFiles {
        match path_of(args, true) {
            Ok(path) => Ok(ToolInvocationView::ListFiles { path }),
            Err(e) => Err(e),
        }
    } else {
        match path_of(args, false) {
            Err(e) => Err(e),
            Ok(path) => match bound_of(args, "start_line"@, 1, u64::MAX) {
                None => Err(ToolExecutionError::InvalidStartLine),
                Some(start_line) => match bound_of(args, "max_lines"@, MAX_READ_LINES, MAX_READ_LINES) {
                    None => Err(ToolExecutionError::InvalidLineCount),
                    Some(max_lines) => Ok(
                        ToolInvocationView::ReadFile { path, start_line, max_lines },
                    ),
                },
            },
        }
    }
}

/// The value of a plan.
pub open spec fn plan_view(r: Result<ToolInvocation, ToolExecutionError>) -> Result<
    ToolInvocationView,
    ToolExecutionError,
> {
    match r {
        Ok(i) => Ok(i@),
        Err(e) => Err(e),
    }
}

fn path_argument(request: &ToolCallRequest, root_if_missing: bool) -> (r: Result<
    String,
    ToolExecutionError,
>)
    ensures
        match r {
            Ok(p) => path_of(request@.arguments, root_if_missing) == Ok::<Seq<char>, ToolExecutionError>(p@),
            Err(e) => path_of(request@.arguments, root_if_missing) == Err::<Seq<char>, ToolExecutionError>(e),
        },
{
    match request.argument("path") {
        None => if root_if_missing {
            Ok(String::new())
        } else {
            Err(ToolExecutionError::MissingPath)
        },
        Some(ArgValue::Text(p)) => match resolve(p.as_str()) {
            Some(r) => Ok(r),
            None => Err(ToolExecutionError::PathEscapesRepository),
        },
        Some(_) => Err(ToolExecutionError::PathNotText),
    }
}

fn bound_argument(request: &ToolCallRequest, key: &str, default: u64, limit: u64) -> (r: Option<u64>)
    ensures
        r == bound_of(request@.arguments, key@, default, limit),
{
    match request.argument(key) {
        None => Some(default),
        Some(ArgValue::Number(n)) => {
            let n: i64 = *n;
            if n < 1 {
                None
            } else if n as u64 > limit {
                Some(limit)
            } else {
                Some(n as u64)
            }
        },
        Some(_) => None,
    }
}

/// Checks a call of a tool that reads the repository, and resolves its
/// path. The result is the work to be done, or the error that answers the
/// call: a missing or malformed argument, or a path that leaves the
/// repository.
pub(crate) fn plan(kind: ToolKind, request: &ToolCallRequest) -> (r: Result<ToolInvocation, ToolExecutionError>)
    requires
        kind.reads_repository(),
    ensures
        plan_view(r) == planned(kind, request@.arguments),
{
    match kind {
        ToolKind::ListFiles => match path_argument(request, true) {
            Ok(path) => Ok(ToolInvocation::ListFiles { path }),
            Err(e) => Err(e),
        },
        _ => match path_argument(request, false) {
            Err(e) => Err(e),
            Ok(path) => match bound_argument(request, "start_line", 1, u64::MAX) {
                None => Err(ToolExecutionError::InvalidStartLine),
                Some(start_line) => match bound_argument(
                    request,
                    "max_lines",
                    MAX_READ_LINES,
                    MAX_READ_LINES,
                ) {
                    None => Err(ToolExecutionError::InvalidLineCount),
                    Some(max_lines) => Ok(ToolInvocation::ReadFile { path, start_line, max_lines }),
                },
            },
        },
    }
}

/// What a tool call comes to, before anything is done outside.
#[derive(Clone, Debug, PartialEq, Eq)]
pub enum Dispatch {
    /// The model says that it is done.
    Finish,
    /// The call names no tool that exists.
    Unknown,
    /// The call reports this finding.
    Report(RawModelIssue),
    /// The call asks for this work on the repository.
    Run(ToolInvocation),
    /// The call cannot be carried out, and is answered with this error.
    Refused(ToolExecutionError),
}

/// The mathematical value of a [`Dispatch`].
pub enum DispatchView {
    Finish,
    Unknown,
    Report(RawModelIssueView),
    Run(ToolInvocationView),
    Refused(ToolExecutionError),
}

impl View for Dispatch {
    type V = DispatchView;

    open spec fn view(&self) -> DispatchView {
        match self {
            Dispatch::Finish => DispatchView::Finish,
            Dispatch::Unknown => DispatchView::Unknown,
            Dispatch::Report(raw) => DispatchView::Report(raw@),
            Dispatch::Run(invocation) => DispatchView::Run(invocation@),
            Dispatch::Refused(e) => DispatchView::Refused(*e),
        }
    }
}

/// What a call of the tool `name` with the arguments `args` comes to.
pub open spec fn dispatched(name: Seq<char>, args: Seq<ToolArgumentView>) -> DispatchView {
    let kind = tool_kind_of(name);
    if kind == ToolKind::Finish {
        DispatchView::Finish
    } else if kind == ToolKind::Unknown {
        DispatchView::Unknown
    } else if kind == ToolKind::ReportIssue {
        DispatchView::Report(reported(args))
    } else {
        match planned(kind, args) {
            Ok(invocation) => DispatchView::Run(invocation),
            Err(e) => DispatchView::Refused(e),
        }
    }
}

/// Says what a tool call comes to: the end of the session, a finding,
/// work on the repository with its path resolved inside the repository,
/// or the error that answers the call. A name that is no tool's is told
/// apart, never passed over.
pub fn dispatch(request: &ToolCallRequest) -> (d: Dispatch)
    ensures
        d@ == dispatched(request@.name, request@.arguments),
{
    let kind = ToolKind::from_name(request.name.as_str());
    match kind {
        ToolKind::Finish => Dispatch::Finish,
        ToolKind::Unknown => Dispatch::Unknown,
        ToolKind::ReportIssue => Dispatch::Report(raw_issue_of(request)),
        _ => match plan(kind, request) {
            Ok(invocation) => Dispatch::Run(invocation),
            Err(e) => Dispatch::Refused(e),
        },
    }
}

/// The lines that a `read_file` call shows of a file of `total` lines: the
/// places, counted from 0, of the first line shown and of the first line
/// after the last one shown.
pub open spec fn shown_lines(total: nat, start_line: u64, max_lines: u64) -> (int, int) {
    let first = if start_line >= 1 {
        start_line as int - 1
    } else {
        0
    };
    let from = if first < total {
        first
    } else {
        total as int
    };
    let to = if from + max_lines < total {
        from + max_lines
    } else {
        total as int
    };
    (from, to)
}

/// Says which lines of a file of `total` lines a `read_file` call shows. A
/// first line of 0 counts as 1.
pub fn line_window(total: usize, start_line: u64, max_lines: u64) -> (w: (usize, usize))
    ensures
        (w.0 as int, w.1 as int) == shown_lines(total as nat, start_line, max_lines),
        w.0 <= w.1 <= total,
        w.1 - w.0 <= max_lines,
{
    let first: u64 = if start_line >= 1 {
        start_line - 1
    } else {
        0
    };
    let from: usize = if first < total as u64 {
        first as usize
    } else {
        total
    };
    let room: usize = total - from;
    let to: usize = if max_lines < room as u64 {
        from + max_lines as usize
    } else {
        total
    };
    (from, to)
}

/// The form in which an argument of a tool is given.
#[derive(Clone, Copy, Debug, PartialEq, Eq, Structural)]
pub enum ParameterKind {
    Text,
    Number,
}

/// One argument that a tool takes.
#[derive(Clone, Debug, PartialEq, Eq)]
pub struct ToolParameter {
    pub name: String,
    pub kind: ParameterKind,
}

/// The mathematical value of a [`ToolParameter`].
pub struct ToolParameterView {
    pub name: Seq<char>,
    pub kind: ParameterKind,
}

impl View for ToolParameter {
    type V = ToolParameterView;

    open spec fn view(&self) -> ToolParameterView {
        ToolParameterView { name: self.name@, kind: self.kind }
    }
}

/// What the model is told of one tool.
#[derive(Clone, Debug, PartialEq, Eq)]
pub struct ToolSpec {
    pub name: String,
    pub description: String,
    pub parameters: Vec<ToolParameter>,
}

/// The mathematical value of a [`ToolSpec`].
pub struct ToolSpecView {
    pub name: Seq<char>,
    pub description: Seq<char>,
    pub parameters: Seq<ToolParameterView>,
}

impl View for ToolSpec {
    type V = ToolSpecView;

    open spec fn view(&self) -> ToolSpecView {
        ToolSpecView {
            name: self.name@,
            description: self.description@,
            parameters: self.parameters@.map_values(|p: ToolParameter| p@),
        }
    }
}

/// An argument that is given as text.
pub open spec fn text_parameter(name: Seq<char>) -> ToolParameterView {
    ToolParameterView { name, kind: ParameterKind::Text }
}

/// An argument that is given as a number.
pub open spec fn number_parameter(name: Seq<char>) -> ToolParameterView {
    ToolParameterView { name, kind: ParameterKind::Number }
}

/// The tools as the model is told of them: each tool of the dispatcher,
/// with the arguments that the dispatcher reads.
pub open spec fn schema() -> Seq<ToolSpecView> {
    seq![
        ToolSpecView {
            name: "list_files"@,
            description: "List the entries under a path of the repository; without a path, those of its root."@,
            parameters: seq![text_parameter("path"@)],
        },
        ToolSpecView {
            name: "read_file"@,
            description: "Read lines of a file of the repository: at most max_lines lines, from start_line on."@,
            parameters: seq![
                text_parameter("path"@),
                number_parameter("start_line"@),
                number_parameter("max_lines"@),
            ],
        },
        ToolSpecView {
            name: "report_issue"@,
            description: "Report one finding. The severity is critical, high, medium or low."@,
            parameters: seq![
                text_parameter("file_path"@),
                number_parameter("line_number"@),
                text_parameter("severity"@),
                text_parameter("category"@),
                text_parameter("title"@),
                text_parameter("description"@),
                text_parameter("suggestion"@),
            ],
        },
        ToolSpecView {
            name: "finish"@,
            description: "Say that the analysis is done."@,
            parameters: Seq::<ToolParameterView>::empty(),
        },
    ]
}

/// The values of a list of tools.
pub open spec fn spec_views(tools: Seq<ToolSpec>) -> Seq<ToolSpecView> {
    tools.map_values(|t: ToolSpec| t@)
}

/// Every tool that the model is told of is a tool of the dispatcher, and
/// each of the dispatcher's tools is among them.
pub proof fn lemma_schema_is_known()
    ensures
        schema().len() == 4,
        tool_kind_of(schema()[0].name) == ToolKind::ListFiles,
        tool_kind_of(schema()[1].name) == ToolKind::ReadFile,
        tool_kind_of(schema()[2].name) == ToolKind::ReportIssue,
        tool_kind_of(schema()[3].name) == ToolKind::Finish,
        forall|i: int| 0 <= i < schema().len() ==> tool_kind_of(#[trigger] schema()[i].name) != ToolKind::Unknown,
{
    reveal_strlit("list_files");
    reveal_strlit("read_file");
    reveal_strlit("report_issue");
    reveal_strlit("finish");
    reveal_strlit("done");
    assert("read_file"@.len() != "list_files"@.len());
    assert("report_issue"@.len() != "list_files"@.len());
    assert("report_issue"@.len() != "read_file"@.len());
    assert("finish"@.len() != "list_files"@.len());
    assert("finish"@.len() != "read_file"@.len());
    assert("finish"@.len() != "report_issue"@.len());
}

fn parameter(name: &str, kind: ParameterKind) -> (p: ToolParameter)
    ensures
        p@ == (ToolParameterView { name: name@, kind }),
{
    ToolParameter { name: name.to_owned(), kind }
}

/// The tools as the model is told of them.
pub fn tool_schema() -> (tools: Vec<ToolSpec>)
    ensures
        spec_views(tools@) == schema(),
{
    let mut list_parameters: Vec<ToolParameter> = Vec::new();
    list_parameters.push(parameter("path", ParameterKind::Text));
    let list = ToolSpec {
        name: "list_files".to_owned(),
        description: "List the entries under a path of the repository; without a path, those of its root.".to_owned(),
        parameters: list_parameters,
    };
    assert(list@.parameters =~= seq![text_parameter("path"@)]);

    let mut read_parameters: Vec<ToolParameter> = Vec::new();
    read_parameters.push(parameter("path", ParameterKind::Text));
    read_parameters.push(parameter("start_line", ParameterKind::Number));
    read_parameters.push(parameter("max_lines", ParameterKind::Number));
    let read = ToolSpec {
        name: "read_file".to_owned(),
        description: "Read lines of a file of the repository: at most max_lines lines, from start_line on.".to_owned(),
        parameters: read_parameters,
    };
    assert(read@.parameters =~= seq![
        text_parameter("path"@),
        number_parameter("start_line"@),
        number_parameter("max_lines"@),
    ]);

    let mut report_parameters: Vec<ToolParameter> = Vec::new();
    report_parameters.push(parameter("file_path", ParameterKind::Text));
    report_parameters.push(parameter("line_number", ParameterKind::Number));
    report_parameters.push(parameter("severity", ParameterKind::Text));
    report_parameters.push(parameter("category", ParameterKind::Text));
    report_parameters.push(parameter("title", ParameterKind::Text));
    report_parameters.push(parameter("description", ParameterKind::Text));
    report_parameters.push(parameter("suggestion", ParameterKind::Text));
    let report = ToolSpec {
        name: "report_issue".to_owned(),
        description: "Report one finding. The severity is critical, high, medium or low.".to_owned(),
        parameters: report_parameters,
    };
    assert(report@.parameters =~= seq![
        text_parameter("file_path"@),
        number_parameter("line_number"@),
        text_parameter("severity"@),
        text_parameter("category"@),
        text_parameter("title"@),
        text_parameter("description"@),
        text_parameter("suggestion"@),
    ]);

    let finish = ToolSpec {
        name: "finish".to_owned(),
        description: "Say that the analysis is done.".to_owned(),
        parameters: Vec::new(),
    };
    assert(finish@.parameters =~= Seq::<ToolParameterView>::empty());

    let mut tools: Vec<ToolSpec> = Vec::new();
    tools.push(list);
    tools.push(read);
    tools.push(report);
    tools.push(finish);
    assert(spec_views(tools@) =~= schema());
    tools
}

} // verus!
