use vstd::prelude::*;

verus! {

/// Who speaks in a transcript entry.
#[derive(Clone, Copy, Debug, PartialEq, Eq, Structural)]
pub enum Role {
    System,
    User,
    Assistant,
    Tool,
}

/// The value of one argument of a tool call.
#[derive(Clone, Debug, PartialEq, Eq)]
pub enum ArgValue {
    Text(String),
    Number(i64),
    Flag(bool),
}

/// The mathematical value of an [`ArgValue`].
pub enum ArgValueView {
    Text(Seq<char>),
    Number(i64),
    Flag(bool),
}

impl View for ArgValue {
    type V = ArgValueView;

    open spec fn view(&self) -> ArgValueView {
        match self {
            ArgValue::Text(s) => ArgValueView::Text(s@),
            ArgValue::Number(n) => ArgValueView::Number(*n),
            ArgValue::Flag(b) => ArgValueView::Flag(*b),
        }
    }
}

/// One named argument of a tool call.
#[derive(Clone, Debug, PartialEq, Eq)]
pub struct ToolArgument {
    pub name: String,
    pub value: ArgValue,
}

/// The mathematical value of a [`ToolArgument`].
pub struct ToolArgumentView {
    pub name: Seq<char>,
    pub value: ArgValueView,
}

impl View for ToolArgument {
    type V = ToolArgumentView;

    open spec fn view(&self) -> ToolArgumentView {
        ToolArgumentView { name: self.name@, value: self.value@ }
    }
}

/// What the model asks to have done: a tool, by name, and its arguments in
/// the order in which the model gave them.
#[derive(Clone, Debug, PartialEq, Eq)]
pub struct ToolCallRequest {
    pub name: String,
    pub arguments: Vec<ToolArgument>,
}

/// The mathematical value of a [`ToolCallRequest`].
pub struct ToolCallRequestView {
    pub name: Seq<char>,
    pub arguments: Seq<ToolArgumentView>,
}

impl View for ToolCallRequest {
    type V = ToolCallRequestView;

    open spec fn view(&self) -> ToolCallRequestView {
        ToolCallRequestView {
            name: self.name@,
            arguments: self.arguments@.map_values(|a: ToolArgument| a@),
        }
    }
}

/// One entry of the conversation.
#[derive(Clone, Debug, PartialEq, Eq)]
pub struct TranscriptEntry {
    pub role: Role,
    pub content: String,
    /// The action that an assistant entry asks for.
    pub tool_call: Option<ToolCallRequest>,
    /// On an assistant entry that asks for an action, the number of that
    /// request; on a tool entry, the number of the request that it answers.
    pub tool_call_id: Option<u64>,
}

/// The mathematical value of a [`TranscriptEntry`].
pub struct EntryView {
    pub role: Role,
    pub content: Seq<char>,
    pub tool_call: Option<ToolCallRequestView>,
    pub tool_call_id: Option<u64>,
}

/// The value of an optional request.
pub open spec fn request_view(r: Option<ToolCallRequest>) -> Option<ToolCallRequestView> {
    match r {
        Some(c) => Some(c@),
        None => None,
    }
}

impl View for TranscriptEntry {
    type V = EntryView;

    open spec fn view(&self) -> EntryView {
        EntryView {
            role: self.role,
            content: self.content@,
            tool_call: request_view(self.tool_call),
            tool_call_id: self.tool_call_id,
        }
    }
}

impl EntryView {
    /// A pinned entry is never evicted: the system entries are pinned.
    pub open spec fn pinned(self) -> bool {
        self.role == Role::System
    }

    /// An assistant entry that asks for an action.
    pub open spec fn is_call(self) -> bool {
        self.role == Role::Assistant && self.tool_call is Some
    }

    /// A tool entry, which answers a request.
    pub open spec fn is_result(self) -> bool {
        self.role == Role::Tool
    }

    /// Whether `other` is the tool entry that answers this request.
    pub open spec fn answered_by(self, other: EntryView) -> bool {
        self.is_call() && other.is_result() && other.tool_call_id == self.tool_call_id
    }

    /// The fields of an entry fit its role: only an assistant entry carries
    /// a request, a request has a number, and a tool entry names the request
    /// that it answers.
    pub open spec fn well_shaped(self) -> bool {
        match self.role {
            Role::Tool => self.tool_call is None && self.tool_call_id is Some,
            Role::Assistant => self.tool_call is Some <==> self.tool_call_id is Some,
            _ => self.tool_call is None && self.tool_call_id is None,
        }
    }
}

impl TranscriptEntry {
    /// A pinned instruction entry.
    pub fn system(content: String) -> (e: TranscriptEntry)
        ensures
            e@ == (EntryView { role: Role::System, content: content@, tool_call: None, tool_call_id: None }),
            e@.well_shaped(),
    {
        TranscriptEntry { role: Role::System, content, tool_call: None, tool_call_id: None }
    }

    /// An entry that speaks for the user.
    pub fn user(content: String) -> (e: TranscriptEntry)
        ensures
            e@ == (EntryView { role: Role::User, content: content@, tool_call: None, tool_call_id: None }),
            e@.well_shaped(),
    {
        TranscriptEntry { role: Role::User, content, tool_call: None, tool_call_id: None }
    }

    /// A reply of the model that asks for no action.
    pub fn assistant(content: String) -> (e: TranscriptEntry)
        ensures
            e@ == (EntryView { role: Role::Assistant, content: content@, tool_call: None, tool_call_id: None }),
            e@.well_shaped(),
            !e@.is_call(),
    {
        TranscriptEntry { role: Role::Assistant, content, tool_call: None, tool_call_id: None }
    }

    /// A reply of the model that asks for an action, under the number `id`.
    pub fn call(content: String, request: ToolCallRequest, id: u64) -> (e: TranscriptEntry)
        ensures
            e@ == (EntryView {
                role: Role::Assistant,
                content: content@,
                tool_call: Some(request@),
                tool_call_id: Some(id),
            }),
            e@.well_shaped(),
            e@.is_call(),
    {
        TranscriptEntry {
            role: Role::Assistant,
            content,
            tool_call: Some(request),
            tool_call_id: Some(id),
        }
    }

    /// The answer to the request with the number `id`.
    pub fn tool_result(content: String, id: u64) -> (e: TranscriptEntry)
        ensures
            e@ == (EntryView { role: Role::Tool, content: content@, tool_call: None, tool_call_id: Some(id) }),
            e@.well_shaped(),
            e@.is_result(),
    {
        TranscriptEntry { role: Role::Tool, content, tool_call: None, tool_call_id: Some(id) }
    }

    /// Tells whether the entry is pinned.
    pub fn is_pinned(&self) -> (r: bool)
        ensures
            r == self@.pinned(),
    {
        match self.role {
            Role::System => true,
            _ => false,
        }
    }

    /// Tells whether the entry asks for an action.
    pub fn is_call(&self) -> (r: bool)
        ensures
            r == self@.is_call(),
    {
        match self.role {
            Role::Assistant => self.tool_call.is_some(),
            _ => false,
        }
    }

    /// Tells whether the entry answers a request.
    pub fn is_result(&self) -> (r: bool)
        ensures
            r == self@.is_result(),
    {
        match self.role {
            Role::Tool => true,
            _ => false,
        }
    }

    /// Tells whether `other` is the tool entry that answers this request.
    pub fn answered_by(&self, other: &TranscriptEntry) -> (r: bool)
        ensures
            r == self@.answered_by(other@),
    {
        self.is_call() && other.is_result() && same_id(self.tool_call_id, other.tool_call_id)
    }

    /// Tells whether the fields of the entry fit its role.
    pub fn is_well_shaped(&self) -> (r: bool)
        ensures
            r == self@.well_shaped(),
    {
        match self.role {
            Role::Tool => self.tool_call.is_none() && self.tool_call_id.is_some(),
            Role::Assistant => self.tool_call.is_some() == self.tool_call_id.is_some(),
            _ => self.tool_call.is_none() && self.tool_call_id.is_none(),
        }
    }
}

fn same_id(a: Option<u64>, b: Option<u64>) -> (r: bool)
    ensures
        r == (a == b),
{
    match (a, b) {
        (Some(x), Some(y)) => x == y,
        (None, None) => true,
        _ => false,
    }
}

/// The values of the entries of a transcript, oldest first.
pub open spec fn entry_views(entries: Seq<TranscriptEntry>) -> Seq<EntryView> {
    entries.map_values(|e: TranscriptEntry| e@)
}

/// How many entries of `s` are not pinned.
pub open spec fn unpinned_count(s: Seq<EntryView>) -> nat
    decreases s.len(),
{
    if s.len() == 0 {
        0
    } else if s.last().pinned() {
        unpinned_count(s.drop_last())
    } else {
        unpinned_count(s.drop_last()) + 1
    }
}

/// `k` is the place of the oldest entry of `s` that is not pinned.
pub open spec fn is_oldest_unpinned(s: Seq<EntryView>, k: int) -> bool {
    &&& 0 <= k < s.len()
    &&& !s[k].pinned()
    &&& forall|i: int| 0 <= i < k ==> (#[trigger] s[i]).pinned()
}

/// The place of the oldest entry of `s` that is not pinned, where there is one.
pub open spec fn oldest_unpinned(s: Seq<EntryView>) -> int {
    choose|k: int| is_oldest_unpinned(s, k)
}

/// The pairing rule: every entry is well shaped, every tool entry stands
/// directly behind the request that it answers, and every request but one
/// that ends the transcript is directly followed by its answer.
pub open spec fn paired(s: Seq<EntryView>) -> bool {
    &&& forall|j: int| 0 <= j < s.len() ==> (#[trigger] s[j]).well_shaped()
    &&& forall|j: int|
        0 <= j < s.len() && (#[trigger] s[j]).is_result() ==> j >= 1 && s[j - 1].answered_by(s[j])
    &&& forall|i: int|
        0 <= i < s.len() - 1 && (#[trigger] s[i]).is_call() ==> s[i].answered_by(s[i + 1])
}

/// `s` without its oldest entry that is not pinned, and without the answer
/// to that entry where it is an answered request.
pub open spec fn evicted(s: Seq<EntryView>) -> Seq<EntryView> {
    let k = oldest_unpinned(s);
    if k + 1 < s.len() && s[k].answered_by(s[k + 1]) {
        s.remove(k).remove(k)
    } else {
        s.remove(k)
    }
}

/// What trimming makes of `s` under the bound `cap`: `s` itself while no
/// more than `cap` of its entries are unpinned, else `s` after one eviction.
pub open spec fn trimmed(s: Seq<EntryView>, cap: nat) -> Seq<EntryView> {
    if unpinned_count(s) > cap {
        evicted(s)
    } else {
        s
    }
}

/// Whether `e` may follow `s`: it is well shaped; behind a request that
/// waits for its answer only that answer may stand, and an answer may
/// stand nowhere else.
pub open spec fn admissible(s: Seq<EntryView>, e: EntryView) -> bool {
    &&& e.well_shaped()
    &&& if s.len() > 0 && s.last().is_call() {
        s.last().answered_by(e)
    } else {
        !e.is_result()
    }
}

} // verus!
