use vstd::prelude::*;
use crate::batch::{file_views, render, rendered, SourceFile, SourceFileView};
use crate::issue::{
    issue_views, normalize, normalize_all, normalized, raw_views, RawModelIssue, RawModelIssueView,
    ReportedIssue, ReportedIssueView,
};
use crate::temperature::Temperature;
use crate::tools::{dispatch, dispatched, Dispatch, DispatchView, ToolInvocation, ToolInvocationView};
use crate::transcript::{
    admissible, paired, request_view, trimmed, unpinned_count, EntryView, Role, ToolCallRequest,
    ToolCallRequestView, TranscriptEntry,
};
use crate::window::{lemma_append_answer, lemma_append_plain, Transcript};

verus! {

/// The settings of one session. They do not change while it runs.
#[derive(Clone, Debug, PartialEq, Eq)]
pub struct AgentConfig {
    pub ollama_url: String,
    pub model_name: String,
    pub temperature: Temperature,
    /// The most replies of the model that the session acts on.
    pub max_iterations: u64,
    /// The wall-clock budget of the session, in seconds.
    pub timeout_seconds: u64,
    /// One request with all files in it, in place of the conversation.
    pub single_call_mode: bool,
    /// The most unpinned entries that the transcript holds.
    pub max_context_messages: usize,
}

/// The iterations that a run gets.
pub const RUN_MAX_ITERATIONS: u64 = 50;

/// The unpinned entries that the transcript of a run holds.
pub const RUN_MAX_CONTEXT_MESSAGES: usize = 10;

impl AgentConfig {
    /// The settings of a run of the program: what the configuration says
    /// of the model, with 50 iterations and a window of 10 entries.
    pub fn for_run(
        ollama_url: String,
        model_name: String,
        temperature: Temperature,
        timeout_seconds: u64,
        single_call_mode: bool,
    ) -> (c: AgentConfig)
        ensures
            c.ollama_url@ == ollama_url@,
            c.model_name@ == model_name@,
            c.temperature == temperature,
            c.max_iterations == RUN_MAX_ITERATIONS,
            c.timeout_seconds == timeout_seconds,
            c.single_call_mode == single_call_mode,
            c.max_context_messages == RUN_MAX_CONTEXT_MESSAGES,
    {
        AgentConfig {
            ollama_url,
            model_name,
            temperature,
            max_iterations: RUN_MAX_ITERATIONS,
            timeout_seconds,
            single_call_mode,
            max_context_messages: RUN_MAX_CONTEXT_MESSAGES,
        }
    }
}

/// How a session ended.
#[derive(Clone, Copy, Debug, PartialEq, Eq, Structural)]
pub enum Outcome {
    /// The model said that it was done.
    Completed,
    /// The one reply of a single-call session could not be read as a list
    /// of issues; the session ended with none.
    CompletedWithWarning,
    AbortedOnIterationLimit,
    AbortedOnTimeout,
    AbortedOnTransportError,
}

impl Outcome {
    /// Whether the session was cut short.
    pub open spec fn is_abort(self) -> bool {
        self == Outcome::AbortedOnIterationLimit || self == Outcome::AbortedOnTimeout || self
            == Outcome::AbortedOnTransportError
    }

    /// Whether the outcome makes the run a failed run. Only a failure of
    /// transport does: every other outcome leaves a report to be written,
    /// if a partial one.
    pub open spec fn is_failure(self) -> bool {
        self == Outcome::AbortedOnTransportError
    }

    /// Tells whether the outcome makes the run a failed run.
    pub fn fails_run(self) -> (r: bool)
        ensures
            r == self.is_failure(),
            r == (self == Outcome::AbortedOnTransportError),
    {
        match self {
            Outcome::AbortedOnTransportError => true,
            _ => false,
        }
    }

    /// Tells whether the session was cut short.
    pub fn aborted(self) -> (r: bool)
        ensures
            r == self.is_abort(),
    {
        match self {
            Outcome::Completed => false,
            Outcome::CompletedWithWarning => false,
            _ => true,
        }
    }
}

/// Where a session stands. `Done` stands for both ends of a session: the
/// outcome tells a normal end from an abort.
#[derive(Clone, Copy, Debug, PartialEq, Eq, Structural)]
pub enum Phase {
    Init,
    AwaitingModel,
    ExecutingTool,
    Done(Outcome),
}

/// What the model answered, once decoded.
#[derive(Clone, Debug, PartialEq, Eq)]
pub struct ModelReply {
    pub content: String,
    pub tool_call: Option<ToolCallRequest>,
}

/// The mathematical value of a [`ModelReply`].
pub struct ModelReplyView {
    pub content: Seq<char>,
    pub tool_call: Option<ToolCallRequestView>,
}

impl View for ModelReply {
    type V = ModelReplyView;

    open spec fn view(&self) -> ModelReplyView {
        ModelReplyView { content: self.content@, tool_call: request_view(self.tool_call) }
    }
}

/// What happened outside the session since its last action.
#[derive(Clone, Debug, PartialEq, Eq)]
pub enum Event {
    /// The model answered.
    Reply(ModelReply),
    /// The model answered, and the answer could not be decoded.
    MalformedReply(String),
    /// The model answered a single-call request with a list of issues.
    IssueList(Vec<RawModelIssue>),
    /// The model could not be reached, after all retries.
    TransportFailed,
    /// The work on the repository is done: its output.
    ToolOutput(String),
    /// The work on the repository failed: the reason.
    ToolFailed(String),
}

/// The mathematical value of an [`Event`].
pub enum EventView {
    Reply(ModelReplyView),
    MalformedReply(Seq<char>),
    IssueList(Seq<RawModelIssueView>),
    TransportFailed,
    ToolOutput(Seq<char>),
    ToolFailed(Seq<char>),
}

impl View for Event {
    type V = EventView;

    open spec fn view(&self) -> EventView {
        match self {
            Event::Reply(r) => EventView::Reply(r@),
            Event::MalformedReply(s) => EventView::MalformedReply(s@),
            Event::IssueList(l) => EventView::IssueList(raw_views(l@)),
            Event::TransportFailed => EventView::TransportFailed,
            Event::ToolOutput(s) => EventView::ToolOutput(s@),
            Event::ToolFailed(s) => EventView::ToolFailed(s@),
        }
    }
}

/// What is to be done outside the session next.
#[derive(Clone, Debug, PartialEq, Eq)]
pub enum Action {
    /// Send the transcript to the model, with or without the tool schema.
    CallModel { with_tools: bool },
    /// Do this work on the repository.
    RunTool(ToolInvocation),
    /// Nothing more: the session has ended.
    Stop(Outcome),
}

/// The mathematical value of an [`Action`].
pub enum ActionView {
    CallModel { with_tools: bool },
    RunTool(ToolInvocationView),
    Stop(Outcome),
}

impl View for Action {
    type V = ActionView;

    open spec fn view(&self) -> ActionView {
        match self {
            Action::CallModel { with_tools } => ActionView::CallModel { with_tools: *with_tools },
            Action::RunTool(i) => ActionView::RunTool(i@),
            Action::Stop(o) => ActionView::Stop(*o),
        }
    }
}

/// The instruction that opens a conversation with tools.
pub open spec fn agent_instruction() -> Seq<char> {
    "You are a code auditor. Explore the repository with the tools list_files and read_file, report every bug, security issue, performance problem and code quality concern with report_issue, and call finish when you are done."@
}

/// The instruction that opens a single request.
pub open spec fn batch_instruction() -> Seq<char> {
    "You are a code auditor. Examine the files that follow and answer with the list of issues that you find: for each its file path, line number, severity, category, title, description and suggestion."@
}

/// What the model is told when it asks for a tool that does not exist.
pub open spec fn unknown_tool_text() -> Seq<char> {
    "Error: unknown tool. The tools are list_files, read_file, report_issue and finish."@
}

/// What the model is told when its reply could not be decoded.
pub open spec fn correction_text() -> Seq<char> {
    "Your last reply could not be read. Answer with one tool call: list_files, read_file, report_issue or finish."@
}

/// What answers a `report_issue` call.
pub open spec fn issue_recorded_text() -> Seq<char> {
    "Issue recorded."@
}

/// The text that answers a tool call whose work on the repository failed.
pub open spec fn failure_text(reason: Seq<char>) -> Seq<char> {
    "Error: "@ + reason
}

/// An entry without a request.
pub open spec fn plain_entry(role: Role, content: Seq<char>) -> EntryView {
    EntryView { role, content, tool_call: None, tool_call_id: None }
}

/// The entry of a reply that asks for an action.
pub open spec fn call_entry(content: Seq<char>, request: ToolCallRequestView, id: u64) -> EntryView {
    EntryView { role: Role::Assistant, content, tool_call: Some(request), tool_call_id: Some(id) }
}

/// The entry that answers the request with the number `id`.
pub open spec fn result_entry(content: Seq<char>, id: u64) -> EntryView {
    EntryView { role: Role::Tool, content, tool_call: None, tool_call_id: Some(id) }
}

/// The mathematical value of a session.
pub struct SessionView {
    pub max_iterations: u64,
    pub timeout_seconds: u64,
    pub single_call_mode: bool,
    /// The bound of the transcript.
    pub bound: nat,
    pub transcript: Seq<EntryView>,
    /// The replies of the model that the session has acted on in full.
    pub iteration: u64,
    pub issues: Seq<ReportedIssueView>,
    /// When the session was made, in seconds.
    pub started_at: u64,
    pub phase: Phase,
    /// The requests that the session has asked to have sent to the model.
    pub model_calls: u64,
}

impl SessionView {
    /// Whether the newest entry is a request that waits for its answer.
    pub open spec fn awaits_answer(self) -> bool {
        self.transcript.len() > 0 && self.transcript.last().is_call()
    }

    /// What holds of every session.
    pub open spec fn wf(self) -> bool {
        &&& self.bound >= 1
        &&& unpinned_count(self.transcript) <= self.bound
        &&& paired(self.transcript)
        &&& self.iteration <= self.max_iterations
        &&& forall|i: int| 0 <= i < self.issues.len() ==> (#[trigger] self.issues[i]).canonical()
        &&& if self.single_call_mode {
            self.iteration == 0 && self.model_calls <= 1
        } else {
            self.iteration <= self.model_calls <= self.iteration + 1 && self.model_calls
                <= self.max_iterations
        }
        &&& match self.phase {
            Phase::Init => self.transcript.len() == 0 && self.issues.len() == 0 && self.model_calls
                == 0 && self.iteration == 0,
            Phase::AwaitingModel => !self.awaits_answer() && self.model_calls == self.iteration + 1,
            Phase::ExecutingTool => !self.single_call_mode && self.awaits_answer()
                && self.transcript.last().tool_call_id == Some(self.iteration) && self.model_calls
                == self.iteration + 1,
            Phase::Done(_) => true,
        }
    }

    /// The seconds that have passed since the session was made.
    pub open spec fn elapsed(self, now: u64) -> int {
        if now >= self.started_at {
            now - self.started_at
        } else {
            0
        }
    }

    /// The session with one more entry, after the trimming.
    pub open spec fn with_entry(self, e: EntryView) -> SessionView {
        SessionView { transcript: trimmed(self.transcript.push(e), self.bound), ..self }
    }

    /// The session at its end.
    pub open spec fn ended(self, outcome: Outcome) -> (SessionView, ActionView) {
        (SessionView { phase: Phase::Done(outcome), ..self }, ActionView::Stop(outcome))
    }

    /// The end of an iteration: the counter goes up by one, and the budgets
    /// decide. The session is aborted where the counter has reached
    /// `max_iterations`, or else where `timeout_seconds` have passed; else
    /// the model is called again.
    pub open spec fn after_iteration(self, now: u64) -> (SessionView, ActionView) {
        let s = SessionView { iteration: (self.iteration + 1) as u64, ..self };
        if s.iteration >= s.max_iterations {
            s.ended(Outcome::AbortedOnIterationLimit)
        } else if s.elapsed(now) >= s.timeout_seconds {
            s.ended(Outcome::AbortedOnTimeout)
        } else {
            (
                SessionView {
                    phase: Phase::AwaitingModel,
                    model_calls: (s.model_calls + 1) as u64,
                    ..s
                },
                ActionView::CallModel { with_tools: true },
            )
        }
    }

    /// A request that the session answers itself: request and answer are
    /// recorded, and the iteration ends.
    pub open spec fn answered(
        self,
        content: Seq<char>,
        request: ToolCallRequestView,
        answer: Seq<char>,
        now: u64,
    ) -> (SessionView, ActionView) {
        self.with_entry(call_entry(content, request, self.iteration)).with_entry(
            result_entry(answer, self.iteration),
        ).after_iteration(now)
    }

    /// What a reply of the model leads to in a conversation with tools.
    /// A reply without a request, and one that asks for `finish`, end the
    /// session. A request for an unknown tool is answered with an error, and
    /// so is one with a bad argument or a path that leaves the repository.
    /// `report_issue` adds the issue, in canonical form. The tools that read
    /// the repository are handed out to be run.
    pub open spec fn on_reply(self, reply: ModelReplyView, now: u64) -> (SessionView, ActionView) {
        match reply.tool_call {
            None => self.with_entry(plain_entry(Role::Assistant, reply.content)).ended(
                Outcome::Completed,
            ),
            Some(request) => match dispatched(request.name, request.arguments) {
                DispatchView::Finish => self.with_entry(
                    call_entry(reply.content, request, self.iteration),
                ).ended(Outcome::Completed),
                DispatchView::Unknown => self.answered(
                    reply.content,
                    request,
                    unknown_tool_text(),
                    now,
                ),
                DispatchView::Report(raw) => (SessionView {
                    issues: self.issues.push(normalized(raw)),
                    ..self
                }).answered(reply.content, request, issue_recorded_text(), now),
                DispatchView::Refused(e) => self.answered(reply.content, request, e.text(), now),
                DispatchView::Run(invocation) => (
                    SessionView {
                        phase: Phase::ExecutingTool,
                        ..self.with_entry(call_entry(reply.content, request, self.iteration))
                    },
                    ActionView::RunTool(invocation),
                ),
            },
        }
    }

    /// What a reply that could not be decoded leads to. A single-call
    /// session ends with a warning. A conversation records the reply and a
    /// correction, and the iteration ends.
    pub open spec fn on_malformed(self, raw: Seq<char>, now: u64) -> (SessionView, ActionView) {
        if self.single_call_mode {
            self.ended(Outcome::CompletedWithWarning)
        } else {
            self.with_entry(plain_entry(Role::Assistant, raw)).with_entry(
                plain_entry(Role::User, correction_text()),
            ).after_iteration(now)
        }
    }

    /// What the list of issues that answers a single request leads to:
    /// every issue is added in canonical form, and the session ends.
    pub open spec fn on_issue_list(self, list: Seq<RawModelIssueView>) -> (SessionView, ActionView) {
        (SessionView {
            issues: self.issues + list.map_values(|w: RawModelIssueView| normalized(w)),
            ..self
        }).ended(Outcome::Completed)
    }

    /// What the output of work on the repository leads to: it answers the
    /// request that waits, and the iteration ends.
    pub open spec fn on_tool_output(self, answer: Seq<char>, now: u64) -> (SessionView, ActionView) {
        self.with_entry(result_entry(answer, self.iteration)).after_iteration(now)
    }

    /// The session and the action that an event at the time `now` leads
    /// to; `None` for an event that the phase does not expect.
    pub open spec fn transition(self, event: EventView, now: u64) -> Option<(SessionView, ActionView)> {
        match self.phase {
            Phase::AwaitingModel => match event {
                EventView::TransportFailed => Some(self.ended(Outcome::AbortedOnTransportError)),
                EventView::MalformedReply(raw) => Some(self.on_malformed(raw, now)),
                EventView::Reply(reply) => if self.single_call_mode {
                    None
                } else {
                    Some(self.on_reply(reply, now))
                },
                EventView::IssueList(list) => if self.single_call_mode {
                    Some(self.on_issue_list(list))
                } else {
                    None
                },
                _ => None,
            },
            Phase::ExecutingTool => match event {
                EventView::ToolOutput(text) => Some(self.on_tool_output(text, now)),
                EventView::ToolFailed(reason) => Some(
                    self.on_tool_output(failure_text(reason), now),
                ),
                _ => None,
            },
            _ => None,
        }
    }

    /// The session and the action that its beginning leads to; `None`
    /// for a session that has begun. A single-call session shows the model
    /// all files in one entry. A conversation begins with the instruction
    /// alone, and is aborted at once where `max_iterations` is 0.
    pub open spec fn begun(self, files: Seq<SourceFileView>, max_chunk_lines: nat) -> Option<
        (SessionView, ActionView),
    > {
        if self.phase != Phase::Init {
            None
        } else if self.single_call_mode {
            Some(
                (
                    SessionView {
                        phase: Phase::AwaitingModel,
                        model_calls: 1,
                        ..self.with_entry(plain_entry(Role::System, batch_instruction())).with_entry(
                            plain_entry(Role::User, rendered(files, max_chunk_lines)),
                        )
                    },
                    ActionView::CallModel { with_tools: false },
                ),
            )
        } else if self.max_iterations == 0 {
            Some(self.ended(Outcome::AbortedOnIterationLimit))
        } else {
            Some(
                (
                    SessionView {
                        phase: Phase::AwaitingModel,
                        model_calls: 1,
                        ..self.with_entry(plain_entry(Role::System, agent_instruction()))
                    },
                    ActionView::CallModel { with_tools: true },
                ),
            )
        }
    }

    /// How many events a session can still take: none at its end, and
    /// fewer after every event that it takes.
    pub open spec fn steps_left(self) -> nat {
        match self.phase {
            Phase::Init => 0,
            Phase::AwaitingModel => if self.single_call_mode {
                1
            } else {
                (2 * (self.max_iterations - self.iteration)) as nat
            },
            Phase::ExecutingTool => (2 * (self.max_iterations - self.iteration) - 1) as nat,
            Phase::Done(_) => 0,
        }
    }
}

impl SessionView {
    /// What holds between two replies of a conversation: the session is
    /// under its budget, and one request to the model is under way.
    pub open spec fn running(self) -> bool {
        &&& self.bound >= 1
        &&& unpinned_count(self.transcript) <= self.bound
        &&& paired(self.transcript)
        &&& forall|i: int| 0 <= i < self.issues.len() ==> (#[trigger] self.issues[i]).canonical()
        &&& !self.single_call_mode
        &&& self.iteration < self.max_iterations
        &&& self.model_calls == self.iteration + 1
    }
}

/// How a step from `s` to `t` with the action `a` stands to the budgets:
/// the session has ended exactly where the action says so, and the action
/// asks for one more request to the model only under both budgets, and
/// for none else.
pub open spec fn progress(s: SessionView, t: SessionView, a: ActionView, now: u64) -> bool {
    &&& a is Stop <==> t.phase is Done
    &&& a is CallModel ==> t.model_calls == s.model_calls + 1 && t.iteration < s.max_iterations
        && s.elapsed(now) < s.timeout_seconds
    &&& !(a is CallModel) ==> t.model_calls == s.model_calls
}

/// A session that has recorded an entry that is no answer keeps its
/// transcript in order, with that entry as the newest.
pub proof fn lemma_with_plain(s: SessionView, e: EntryView)
    requires
        s.bound >= 1,
        unpinned_count(s.transcript) <= s.bound,
        paired(s.transcript),
        !s.awaits_answer(),
        e.well_shaped(),
        !e.is_result(),
    ensures
        paired(s.with_entry(e).transcript),
        unpinned_count(s.with_entry(e).transcript) <= s.bound,
        s.with_entry(e).transcript.len() > 0,
        s.with_entry(e).transcript.last() == e,
{
    lemma_append_plain(s.transcript, e, s.bound);
}

/// A session that has recorded the answer to the request that waits
/// keeps its transcript in order, and no request waits.
pub proof fn lemma_with_answer(s: SessionView, e: EntryView)
    requires
        s.bound >= 1,
        unpinned_count(s.transcript) <= s.bound,
        paired(s.transcript),
        s.awaits_answer(),
        s.transcript.last().answered_by(e),
        e.well_shaped(),
    ensures
        paired(s.with_entry(e).transcript),
        unpinned_count(s.with_entry(e).transcript) <= s.bound,
        !s.with_entry(e).awaits_answer(),
{
    lemma_append_answer(s.transcript, e, s.bound);
}

/// The end of an iteration leaves a session in order, with the counter
/// one higher; the session goes on only under both budgets.
pub proof fn lemma_after_iteration(s: SessionView, now: u64)
    requires
        s.running(),
        !s.awaits_answer(),
    ensures
        ({
            let (t, a) = s.after_iteration(now);
            &&& t.wf()
            &&& t.iteration == s.iteration + 1
            &&& t.steps_left() <= 2 * (s.max_iterations - s.iteration) - 2
            &&& t.issues == s.issues
            &&& t.phase == Phase::AwaitingModel <==> s.iteration + 1 < s.max_iterations
                && s.elapsed(now) < s.timeout_seconds
            &&& progress(s, t, a, now)
        }),
{
}

/// A request that the session answers itself leaves the session in order.
pub proof fn lemma_answered(
    s: SessionView,
    content: Seq<char>,
    request: ToolCallRequestView,
    answer: Seq<char>,
    now: u64,
)
    requires
        s.running(),
        !s.awaits_answer(),
    ensures
        ({
            let (t, a) = s.answered(content, request, answer, now);
            &&& t.wf()
            &&& t.iteration == s.iteration + 1
            &&& t.steps_left() <= 2 * (s.max_iterations - s.iteration) - 2
            &&& t.issues == s.issues
            &&& progress(s, t, a, now)
        }),
{
    let call = call_entry(content, request, s.iteration);
    let s1 = s.with_entry(call);
    lemma_with_plain(s, call);
    let result = result_entry(answer, s.iteration);
    lemma_with_answer(s1, result);
    lemma_after_iteration(s1.with_entry(result), now);
}

/// Every event that a session takes leaves it in order, with the counter
/// where it was or one higher and never above `max_iterations`, and with
/// fewer events left to take: a session ends after at most twice
/// `max_iterations` events. The model is called again only under both
/// budgets.
pub proof fn lemma_transition(s: SessionView, event: EventView, now: u64)
    requires
        s.wf(),
        s.transition(event, now) is Some,
    ensures
        ({
            let (t, a) = s.transition(event, now).unwrap();
            &&& t.wf()
            &&& s.iteration <= t.iteration <= s.iteration + 1
            &&& t.iteration <= s.max_iterations
            &&& t.steps_left() < s.steps_left()
            &&& progress(s, t, a, now)
        }),
{
    match s.phase {
        Phase::AwaitingModel => match event {
            EventView::MalformedReply(raw) => {
                if !s.single_call_mode {
                    let a = plain_entry(Role::Assistant, raw);
                    let c = plain_entry(Role::User, correction_text());
                    lemma_with_plain(s, a);
                    lemma_with_plain(s.with_entry(a), c);
                    lemma_after_iteration(s.with_entry(a).with_entry(c), now);
                }
            },
            EventView::Reply(reply) => {
                match reply.tool_call {
                    None => {
                        lemma_with_plain(s, plain_entry(Role::Assistant, reply.content));
                    },
                    Some(request) => {
                        let call = call_entry(reply.content, request, s.iteration);
                        match dispatched(request.name, request.arguments) {
                            DispatchView::Finish => {
                                lemma_with_plain(s, call);
                            },
                            DispatchView::Unknown => {
                                lemma_answered(s, reply.content, request, unknown_tool_text(), now);
                            },
                            DispatchView::Report(raw) => {
                                crate::issue::lemma_normalized_is_canonical(raw);
                                let s1 = SessionView { issues: s.issues.push(normalized(raw)), ..s };
                                lemma_answered(s1, reply.content, request, issue_recorded_text(), now);
                            },
                            DispatchView::Refused(e) => {
                                lemma_answered(s, reply.content, request, e.text(), now);
                            },
                            DispatchView::Run(invocation) => {
                                lemma_with_plain(s, call);
                            },
                        }
                    },
                }
            },
            EventView::IssueList(list) => {
                let more = list.map_values(|w: RawModelIssueView| normalized(w));
                assert forall|i: int| 0 <= i < more.len() implies (#[trigger] more[i]).canonical() by {
                    crate::issue::lemma_normalized_is_canonical(list[i]);
                }
                let all = s.issues + more;
                assert forall|i: int| 0 <= i < all.len() implies (#[trigger] all[i]).canonical() by {
                    if i < s.issues.len() {
                        assert(all[i] == s.issues[i]);
                    } else {
                        assert(all[i] == more[i - s.issues.len()]);
                    }
                }
            },
            _ => {},
        },
        Phase::ExecutingTool => match event {
            EventView::ToolOutput(text) => {
                let r = result_entry(text, s.iteration);
                lemma_with_answer(s, r);
                lemma_after_iteration(s.with_entry(r), now);
            },
            EventView::ToolFailed(reason) => {
                let r = result_entry(failure_text(reason), s.iteration);
                lemma_with_answer(s, r);
                lemma_after_iteration(s.with_entry(r), now);
            },
            _ => {},
        },
        _ => {},
    }
}

/// At every moment of a session the counter is at most `max_iterations`.
/// A conversation has asked for at most `max_iterations` requests to the
/// model, and a single-call session for at most one, whatever the number
/// of files.
pub proof fn lemma_budgets(s: SessionView)
    requires
        s.wf(),
    ensures
        0 <= s.iteration <= s.max_iterations,
        !s.single_call_mode ==> s.model_calls <= s.max_iterations,
        s.single_call_mode ==> s.model_calls <= 1,
{
}

/// The beginning leaves a session in order. A single-call session asks
/// for one request to the model, without tools, whatever the files are.
pub proof fn lemma_begun(s: SessionView, files: Seq<SourceFileView>, max_chunk_lines: nat)
    requires
        s.wf(),
        s.begun(files, max_chunk_lines) is Some,
    ensures
        ({
            let (t, a) = s.begun(files, max_chunk_lines).unwrap();
            &&& t.wf()
            &&& s.single_call_mode ==> t.model_calls == 1 && a == (ActionView::CallModel {
                with_tools: false,
            })
        }),
{
    if s.single_call_mode {
        let a = plain_entry(Role::System, batch_instruction());
        let b = plain_entry(Role::User, rendered(files, max_chunk_lines));
        lemma_with_plain(s, a);
        lemma_with_plain(s.with_entry(a), b);
    } else if s.max_iterations > 0 {
        lemma_with_plain(s, plain_entry(Role::System, agent_instruction()));
    }
}

/// A single-call session never asks for a second request to the model:
/// once its one request is under way, no event leads to another.
pub proof fn lemma_single_call(s: SessionView, event: EventView, now: u64)
    requires
        s.wf(),
        s.single_call_mode,
        s.transition(event, now) is Some,
    ensures
        ({
            let (t, a) = s.transition(event, now).unwrap();
            &&& a is Stop
            &&& t.phase is Done
            &&& t.model_calls == s.model_calls
            &&& t.transcript == s.transcript
        }),
{
}

impl SessionView {
    /// The session after an event at the time `now`; the session itself
    /// where the phase does not expect the event.
    pub open spec fn next(self, event: EventView, now: u64) -> SessionView {
        match self.transition(event, now) {
            Some((t, _)) => t,
            None => self,
        }
    }

    /// The action that an event at the time `now` leads to, if any.
    pub open spec fn next_action(self, event: EventView, now: u64) -> Option<ActionView> {
        match self.transition(event, now) {
            Some((_, a)) => Some(a),
            None => None,
        }
    }
}

/// What a reply asks for, where it carries a request.
pub open spec fn asked(reply: ModelReplyView) -> Option<DispatchView> {
    match reply.tool_call {
        Some(request) => Some(dispatched(request.name, request.arguments)),
        None => None,
    }
}

/// A conversation in which the model reads twice, reports one issue and
/// finishes, with three iterations left before the last and each
/// iteration ended before the timeout, completes: the outcome is
/// `Completed`, the one issue has been added in canonical form, three
/// more requests have gone to the model, and none follows the reply that
/// finishes.
pub proof fn lemma_two_reads_report_finish(
    s: SessionView,
    first: ModelReplyView,
    first_output: Seq<char>,
    second: ModelReplyView,
    second_output: Seq<char>,
    report: ModelReplyView,
    raw: RawModelIssueView,
    finish: ModelReplyView,
    times: Seq<u64>,
)
    requires
        s.wf(),
        s.phase == Phase::AwaitingModel,
        !s.single_call_mode,
        s.iteration + 3 < s.max_iterations,
        times.len() == 6,
        forall|i: int| 0 <= i < 6 ==> s.elapsed(#[trigger] times[i]) < s.timeout_seconds,
        asked(first) is Some && asked(first)->0 is Run,
        asked(second) is Some && asked(second)->0 is Run,
        asked(report) == Some(DispatchView::Report(raw)),
        asked(finish) == Some(DispatchView::Finish),
    ensures
        ({
            let s1 = s.next(EventView::Reply(first), times[0]);
            let s2 = s1.next(EventView::ToolOutput(first_output), times[1]);
            let s3 = s2.next(EventView::Reply(second), times[2]);
            let s4 = s3.next(EventView::ToolOutput(second_output), times[3]);
            let s5 = s4.next(EventView::Reply(report), times[4]);
            let end = s5.next(EventView::Reply(finish), times[5]);
            &&& s.next_action(EventView::Reply(first), times[0]) is Some
            &&& s.next_action(EventView::Reply(first), times[0])->0 is RunTool
            &&& s1.next_action(EventView::ToolOutput(first_output), times[1]) == Some(
                ActionView::CallModel { with_tools: true },
            )
            &&& s2.next_action(EventView::Reply(second), times[2]) is Some
            &&& s2.next_action(EventView::Reply(second), times[2])->0 is RunTool
            &&& s3.next_action(EventView::ToolOutput(second_output), times[3]) == Some(
                ActionView::CallModel { with_tools: true },
            )
            &&& s4.next_action(EventView::Reply(report), times[4]) == Some(
                ActionView::CallModel { with_tools: true },
            )
            &&& s5.next_action(EventView::Reply(finish), times[5]) == Some(
                ActionView::Stop(Outcome::Completed),
            )
            &&& end.wf()
            &&& end.phase == Phase::Done(Outcome::Completed)
            &&& end.issues == s.issues.push(normalized(raw))
            &&& end.issues.last().severity == crate::severity::severity_of(raw.severity)
            &&& end.iteration == s.iteration + 3
            &&& end.model_calls == s.model_calls + 3
        }),
{
    let e1 = EventView::Reply(first);
    let e2 = EventView::ToolOutput(first_output);
    let e3 = EventView::Reply(second);
    let e4 = EventView::ToolOutput(second_output);
    let e5 = EventView::Reply(report);
    let e6 = EventView::Reply(finish);
    let s1 = s.next(e1, times[0]);
    lemma_transition(s, e1, times[0]);
    assert(s1.phase == Phase::ExecutingTool);
    assert(s1.iteration == s.iteration && s1.issues == s.issues && s1.started_at == s.started_at);
    let s2 = s1.next(e2, times[1]);
    lemma_transition(s1, e2, times[1]);
    assert(s2.phase == Phase::AwaitingModel);
    assert(s2.iteration == s.iteration + 1 && s2.issues == s.issues && s2.started_at
        == s.started_at);
    let s3 = s2.next(e3, times[2]);
    lemma_transition(s2, e3, times[2]);
    assert(s3.phase == Phase::ExecutingTool);
    assert(s3.iteration == s.iteration + 1 && s3.issues == s.issues && s3.started_at
        == s.started_at);
    let s4 = s3.next(e4, times[3]);
    lemma_transition(s3, e4, times[3]);
    assert(s4.phase == Phase::AwaitingModel);
    assert(s4.iteration == s.iteration + 2 && s4.issues == s.issues && s4.started_at
        == s.started_at);
    let s5 = s4.next(e5, times[4]);
    lemma_transition(s4, e5, times[4]);
    assert(s5.phase == Phase::AwaitingModel);
    assert(s5.iteration == s.iteration + 3 && s5.issues == s.issues.push(normalized(raw))
        && s5.started_at == s.started_at);
    let end = s5.next(e6, times[5]);
    lemma_transition(s5, e6, times[5]);
}

/// With `max_iterations` at 1, a reply that asks for anything but the
/// end of the session leads to the abort on the iteration limit after
/// exactly one iteration: at once where the session answers the request
/// itself, and after the output of the tool else. The issues are those
/// from before, and the issue of the reply where it reports one. No
/// further request goes to the model.
pub proof fn lemma_limit_of_one(s: SessionView, reply: ModelReplyView, output: EventView, now: u64, later: u64)
    requires
        s.wf(),
        s.phase == Phase::AwaitingModel,
        !s.single_call_mode,
        s.max_iterations == 1,
        asked(reply) is Some,
        !(asked(reply)->0 is Finish),
        output is ToolOutput || output is ToolFailed,
    ensures
        ({
            let s1 = s.next(EventView::Reply(reply), now);
            let end = if asked(reply)->0 is Run {
                s1.next(output, later)
            } else {
                s1
            };
            &&& asked(reply)->0 is Run ==> s.next_action(EventView::Reply(reply), now)->0 is RunTool
                && s1.next_action(output, later) == Some(
                ActionView::Stop(Outcome::AbortedOnIterationLimit),
            )
            &&& !(asked(reply)->0 is Run) ==> s.next_action(EventView::Reply(reply), now) == Some(
                ActionView::Stop(Outcome::AbortedOnIterationLimit),
            )
            &&& end.phase == Phase::Done(Outcome::AbortedOnIterationLimit)
            &&& end.iteration == 1
            &&& end.model_calls == s.model_calls
            &&& end.model_calls == 1
            &&& end.issues == match asked(reply)->0 {
                DispatchView::Report(raw) => s.issues.push(normalized(raw)),
                _ => s.issues,
            }
        }),
{
    let e1 = EventView::Reply(reply);
    lemma_transition(s, e1, now);
    let s1 = s.next(e1, now);
    if asked(reply)->0 is Run {
        assert(s1.phase == Phase::ExecutingTool);
        lemma_transition(s1, output, later);
    }
}

/// A session before it has begun.
pub open spec fn fresh(config: AgentConfig, started_at: u64) -> SessionView {
    SessionView {
        max_iterations: config.max_iterations,
        timeout_seconds: config.timeout_seconds,
        single_call_mode: config.single_call_mode,
        bound: if config.max_context_messages == 0 {
            1
        } else {
            config.max_context_messages as nat
        },
        transcript: Seq::<EntryView>::empty(),
        iteration: 0,
        issues: Seq::<ReportedIssueView>::empty(),
        started_at,
        phase: Phase::Init,
        model_calls: 0,
    }
}

/// One analysis run: the transcript, the counter of iterations, the
/// issues found so far, and where the run stands. It decides; the requests
/// to the model and the work on the repository are done outside, between
/// its steps.
#[derive(Debug)]
pub struct SessionState {
    config: AgentConfig,
    transcript: Transcript,
    iteration: u64,
    issues: Vec<ReportedIssue>,
    started_at: u64,
    phase: Phase,
    model_calls: u64,
}

impl View for SessionState {
    type V = SessionView;

    closed spec fn view(&self) -> SessionView {
        SessionView {
            max_iterations: self.config.max_iterations,
            timeout_seconds: self.config.timeout_seconds,
            single_call_mode: self.config.single_call_mode,
            bound: self.transcript.bound(),
            transcript: self.transcript@,
            iteration: self.iteration,
            issues: issue_views(self.issues@),
            started_at: self.started_at,
            phase: self.phase,
            model_calls: self.model_calls,
        }
    }
}

impl SessionState {
    /// What holds of every session.
    pub open spec fn wf(&self) -> bool {
        self@.wf()
    }

    /// The settings that the session was made with.
    pub closed spec fn settings(&self) -> AgentConfig {
        self.config
    }

    /// A session with the given settings, made at the time `started_at`,
    /// in seconds. A `max_context_messages` of 0 counts as 1.
    pub fn new(config: AgentConfig, started_at: u64) -> (s: SessionState)
        ensures
            s.wf(),
            s@ == fresh(config, started_at),
            s.settings() == config,
    {
        let transcript = Transcript::new(config.max_context_messages);
        let s = SessionState {
            config,
            transcript,
            iteration: 0,
            issues: Vec::new(),
            started_at,
            phase: Phase::Init,
            model_calls: 0,
        };
        assert(issue_views(s.issues@) =~= Seq::<ReportedIssueView>::empty());
        s
    }

    /// Where the session stands.
    pub fn phase(&self) -> (p: Phase)
        ensures
            p == self@.phase,
    {
        self.phase
    }

    /// How the session ended, once it has.
    pub fn outcome(&self) -> (o: Option<Outcome>)
        ensures
            o == match self@.phase {
                Phase::Done(x) => Some(x),
                _ => None,
            },
    {
        match self.phase {
            Phase::Done(x) => Some(x),
            _ => None,
        }
    }

    /// The replies of the model that the session has acted on in full.
    pub fn iteration(&self) -> (n: u64)
        ensures
            n == self@.iteration,
    {
        self.iteration
    }

    /// The requests that the session has asked to have sent to the model.
    pub fn model_calls(&self) -> (n: u64)
        ensures
            n == self@.model_calls,
    {
        self.model_calls
    }

    /// The settings of the session.
    pub fn config(&self) -> (c: &AgentConfig)
        ensures
            *c == self.settings(),
            c.max_iterations == self@.max_iterations,
            c.timeout_seconds == self@.timeout_seconds,
            c.single_call_mode == self@.single_call_mode,
    {
        &self.config
    }

    /// The conversation so far.
    pub fn transcript(&self) -> (t: &Transcript)
        ensures
            t@ == self@.transcript,
            t.bound() == self@.bound,
    {
        &self.transcript
    }

    /// The issues found so far, in the order in which they were reported.
    pub fn issues(&self) -> (v: &Vec<ReportedIssue>)
        ensures
            issue_views(v@) == self@.issues,
    {
        &self.issues
    }

    /// Ends the run: the issues found, and the outcome where the session
    /// has ended.
    pub fn into_result(self) -> (r: (Vec<ReportedIssue>, Option<Outcome>))
        ensures
            issue_views(r.0@) == self@.issues,
            r.1 == match self@.phase {
                Phase::Done(x) => Some(x),
                _ => None,
            },
    {
        let outcome = self.outcome();
        (self.issues, outcome)
    }

    fn end(&mut self, outcome: Outcome) -> (a: Action)
        ensures
            (final(self)@, a@) == old(self)@.ended(outcome),
            final(self).settings() == old(self).settings(),
    {
        self.phase = Phase::Done(outcome);
        Action::Stop(outcome)
    }

    fn record_plain(&mut self, entry: TranscriptEntry)
        requires
            old(self)@.bound >= 1,
            unpinned_count(old(self)@.transcript) <= old(self)@.bound,
            paired(old(self)@.transcript),
            !old(self)@.awaits_answer(),
            entry@.well_shaped(),
            !entry@.is_result(),
        ensures
            final(self)@ == old(self)@.with_entry(entry@),
            final(self).settings() == old(self).settings(),
            final(self)@.bound >= 1,
            unpinned_count(final(self)@.transcript) <= final(self)@.bound,
            paired(final(self)@.transcript),
            final(self)@.transcript.len() > 0,
            final(self)@.transcript.last() == entry@,
    {
        proof {
            lemma_with_plain(self@, entry@);
        }
        let accepted = self.transcript.append(entry);
        assert(accepted);
    }

    fn record_answer(&mut self, text: String)
        requires
            old(self)@.bound >= 1,
            unpinned_count(old(self)@.transcript) <= old(self)@.bound,
            paired(old(self)@.transcript),
            old(self)@.awaits_answer(),
            old(self)@.transcript.last().tool_call_id == Some(old(self)@.iteration),
        ensures
            final(self)@ == old(self)@.with_entry(result_entry(text@, old(self)@.iteration)),
            final(self).settings() == old(self).settings(),
            final(self)@.bound >= 1,
            unpinned_count(final(self)@.transcript) <= final(self)@.bound,
            paired(final(self)@.transcript),
            !final(self)@.awaits_answer(),
    {
        let entry = TranscriptEntry::tool_result(text, self.iteration);
        proof {
            lemma_with_answer(self@, entry@);
            lemma_append_answer(self@.transcript, entry@, self@.bound);
        }
        let accepted = self.transcript.append(entry);
        assert(accepted);
    }

    fn end_iteration(&mut self, now: u64) -> (a: Action)
        requires
            old(self)@.running(),
        ensures
            (final(self)@, a@) == old(self)@.after_iteration(now),
            final(self).settings() == old(self).settings(),
    {
        self.iteration = self.iteration + 1;
        let elapsed: u64 = if now >= self.started_at {
            now - self.started_at
        } else {
            0
        };
        if self.iteration >= self.config.max_iterations {
            self.end(Outcome::AbortedOnIterationLimit)
        } else if elapsed >= self.config.timeout_seconds {
            self.end(Outcome::AbortedOnTimeout)
        } else {
            self.phase = Phase::AwaitingModel;
            self.model_calls = self.model_calls + 1;
            Action::CallModel { with_tools: true }
        }
    }

    fn answer(&mut self, content: String, request: ToolCallRequest, text: String, now: u64) -> (a:
        Action)
        requires
            old(self)@.running(),
            !old(self)@.awaits_answer(),
        ensures
            (final(self)@, a@) == old(self)@.answered(content@, request@, text@, now),
            final(self).settings() == old(self).settings(),
    {
        let id: u64 = self.iteration;
        self.record_plain(TranscriptEntry::call(content, request, id));
        self.record_answer(text);
        self.end_iteration(now)
    }

    fn handle_reply(&mut self, reply: ModelReply, now: u64) -> (a: Action)
        requires
            old(self)@.running(),
            !old(self)@.awaits_answer(),
        ensures
            (final(self)@, a@) == old(self)@.on_reply(reply@, now),
            final(self).settings() == old(self).settings(),
    {
        let ModelReply { content, tool_call } = reply;
        match tool_call {
            None => {
                self.record_plain(TranscriptEntry::assistant(content));
                self.end(Outcome::Completed)
            },
            Some(request) => {
                let id: u64 = self.iteration;
                match dispatch(&request) {
                    Dispatch::Finish => {
                        self.record_plain(TranscriptEntry::call(content, request, id));
                        self.end(Outcome::Completed)
                    },
                    Dispatch::Unknown => {
                        let text = "Error: unknown tool. The tools are list_files, read_file, report_issue and finish.".to_owned();
                        self.answer(content, request, text, now)
                    },
                    Dispatch::Report(raw) => {
                        let issue = normalize(&raw);
                        let ghost before = issue_views(self.issues@);
                        self.issues.push(issue);
                        proof {
                            let after = issue_views(self.issues@);
                            assert(after =~= before.push(normalized(raw@)));
                            assert forall|i: int| 0 <= i < after.len() implies (
                            #[trigger] after[i]).canonical() by {
                                if i < before.len() {
                                    assert(after[i] == old(self)@.issues[i]);
                                } else {
                                    crate::issue::lemma_normalized_is_canonical(raw@);
                                    assert(after[i] == normalized(raw@));
                                }
                            }
                        }
                        let text = "Issue recorded.".to_owned();
                        self.answer(content, request, text, now)
                    },
                    Dispatch::Refused(e) => {
                        let text = e.message();
                        self.answer(content, request, text, now)
                    },
                    Dispatch::Run(invocation) => {
                        self.record_plain(TranscriptEntry::call(content, request, id));
                        self.phase = Phase::ExecutingTool;
                        Action::RunTool(invocation)
                    },
                }
            },
        }
    }

    /// Begins the session: seeds the transcript and says what is to be
    /// done first. A single-call session shows the model all files in one
    /// entry, cut into chunks of at most `max_chunk_lines` lines, and asks
    /// for one request without tools. A conversation begins with the
    /// instruction alone. A session that has begun stays as it is.
    pub fn begin(&mut self, files: &Vec<SourceFile>, max_chunk_lines: usize) -> (a: Option<Action>)
        requires
            old(self).wf(),
        ensures
            final(self).wf(),
            final(self).settings() == old(self).settings(),
            match a {
                Some(x) => old(self)@.begun(file_views(files@), max_chunk_lines as nat) == Some(
                    (final(self)@, x@),
                ),
                None => old(self)@.begun(file_views(files@), max_chunk_lines as nat) is None
                    && final(self)@ == old(self)@,
            },
    {
        match self.phase {
            Phase::Init => {},
            _ => {
                return None;
            },
        }
        proof {
            lemma_begun(self@, file_views(files@), max_chunk_lines as nat);
        }
        if self.config.single_call_mode {
            let instruction = "You are a code auditor. Examine the files that follow and answer with the list of issues that you find: for each its file path, line number, severity, category, title, description and suggestion.".to_owned();
            self.record_plain(TranscriptEntry::system(instruction));
            self.record_plain(TranscriptEntry::user(render(files, max_chunk_lines)));
            self.phase = Phase::AwaitingModel;
            self.model_calls = 1;
            Some(Action::CallModel { with_tools: false })
        } else if self.config.max_iterations == 0 {
            Some(self.end(Outcome::AbortedOnIterationLimit))
        } else {
            let instruction = "You are a code auditor. Explore the repository with the tools list_files and read_file, report every bug, security issue, performance problem and code quality concern with report_issue, and call finish when you are done.".to_owned();
            self.record_plain(TranscriptEntry::system(instruction));
            self.phase = Phase::AwaitingModel;
            self.model_calls = 1;
            Some(Action::CallModel { with_tools: true })
        }
    }

    /// Takes what happened outside at the time `now`, in seconds, and says
    /// what is to be done next. An event that the phase does not expect
    /// changes nothing and gives `None`.
    pub fn step(&mut self, event: Event, now: u64) -> (a: Option<Action>)
        requires
            old(self).wf(),
        ensures
            final(self).wf(),
            final(self).settings() == old(self).settings(),
            match a {
                Some(x) => old(self)@.transition(event@, now) == Some((final(self)@, x@)),
                None => old(self)@.transition(event@, now) is None && final(self)@ == old(self)@,
            },
    {
        proof {
            if self@.transition(event@, now) is Some {
                lemma_transition(self@, event@, now);
            }
        }
        match self.phase {
            Phase::AwaitingModel => match event {
                Event::TransportFailed => Some(self.end(Outcome::AbortedOnTransportError)),
                Event::MalformedReply(raw) => {
                    if self.config.single_call_mode {
                        Some(self.end(Outcome::CompletedWithWarning))
                    } else {
                        self.record_plain(TranscriptEntry::assistant(raw));
                        let correction = "Your last reply could not be read. Answer with one tool call: list_files, read_file, report_issue or finish.".to_owned();
                        self.record_plain(TranscriptEntry::user(correction));
                        Some(self.end_iteration(now))
                    }
                },
                Event::Reply(reply) => {
                    if self.config.single_call_mode {
                        None
                    } else {
                        Some(self.handle_reply(reply, now))
                    }
                },
                Event::IssueList(list) => {
                    if self.config.single_call_mode {
                        let mut more = normalize_all(&list);
                        let ghost before = issue_views(self.issues@);
                        let ghost added = issue_views(more@);
                        self.issues.append(&mut more);
                        assert(issue_views(self.issues@) =~= before + added);
                        Some(self.end(Outcome::Completed))
                    } else {
                        None
                    }
                },
                _ => None,
            },
            Phase::ExecutingTool => match event {
                Event::ToolOutput(text) => {
                    self.record_answer(text);
                    Some(self.end_iteration(now))
                },
                Event::ToolFailed(reason) => {
                    let text = "Error: ".to_owned().concat(reason.as_str());
                    self.record_answer(text);
                    Some(self.end_iteration(now))
                },
                _ => None,
            },
            _ => None,
        }
    }
}

} // verus!
