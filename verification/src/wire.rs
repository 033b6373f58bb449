use vstd::prelude::*;
use crate::issue::{raw_views, text_of, RawModelIssue, RawModelIssueView};
use crate::session::{Event, EventView, ModelReply, ModelReplyView};
use crate::text::same_text;
use crate::tools::text_or_empty;
use crate::transcript::{
    ArgValue, ArgValueView, ToolArgument, ToolArgumentView, ToolCallRequest, ToolCallRequestView,
};

verus! {

/// What the model endpoint sent, read into a tree. The library decides on
/// the tree what the reply says; its caller reads the text into the tree.
#[derive(Debug)]
pub enum Json {
    Null,
    Bool(bool),
    /// A whole number.
    Integer(i64),
    /// A number that is no whole number, or too large to be held as one.
    Fraction,
    Text(String),
    List(Vec<Json>),
    /// The members of an object, in the order in which they were written.
    Object(Vec<Member>),
}

/// One member of an object.
#[derive(Debug)]
pub struct Member {
    pub name: String,
    pub value: Json,
}

/// The value of the first member with the name `key`.
pub open spec fn member_named(members: Seq<Member>, key: Seq<char>) -> Option<Json>
    decreases members.len(),
{
    if members.len() == 0 {
        None
    } else if members[0].name@ == key {
        Some(members[0].value)
    } else {
        member_named(members.drop_first(), key)
    }
}

/// The member `key` of an object; none of a value that is no object.
pub open spec fn field(value: Json, key: Seq<char>) -> Option<Json> {
    match value {
        Json::Object(members) => member_named(members@, key),
        _ => None,
    }
}

/// The member `key` of an object, where it is text.
pub open spec fn text_field(value: Json, key: Seq<char>) -> Option<Seq<char>> {
    match field(value, key) {
        Some(Json::Text(s)) => Some(s@),
        _ => None,
    }
}

/// The member `key` of an object, where it is a whole number.
pub open spec fn integer_field(value: Json, key: Seq<char>) -> Option<i64> {
    match field(value, key) {
        Some(Json::Integer(n)) => Some(n),
        _ => None,
    }
}

/// The argument of a tool call that a value stands for: a text, a whole
/// number or a truth value. No other value is an argument.
pub open spec fn argument_of(value: Json) -> Option<ArgValueView> {
    match value {
        Json::Text(s) => Some(ArgValueView::Text(s@)),
        Json::Integer(n) => Some(ArgValueView::Number(n)),
        Json::Bool(b) => Some(ArgValueView::Flag(b)),
        _ => None,
    }
}

/// The arguments that the members of an object stand for, in their
/// order; none where one of the members is no argument.
pub open spec fn arguments_from(members: Seq<Member>) -> Option<Seq<ToolArgumentView>>
    decreases members.len(),
{
    if members.len() == 0 {
        Some(Seq::<ToolArgumentView>::empty())
    } else {
        match (arguments_from(members.drop_last()), argument_of(members.last().value)) {
            (Some(before), Some(value)) => Some(
                before.push(ToolArgumentView { name: members.last().name@, value }),
            ),
            _ => None,
        }
    }
}

/// The arguments of a function call: those of its member `arguments`
/// where that is an object, no arguments where it is missing or null,
/// and none where it is anything else.
pub open spec fn arguments_of(function: Json) -> Option<Seq<ToolArgumentView>> {
    match field(function, "arguments"@) {
        Some(Json::Object(members)) => arguments_from(members@),
        Some(Json::Null) => Some(Seq::<ToolArgumentView>::empty()),
        None => Some(Seq::<ToolArgumentView>::empty()),
        Some(_) => None,
    }
}

/// The request that a tool call states: the name and the arguments of
/// its member `function`.
pub open spec fn request_of(call: Json) -> Option<ToolCallRequestView> {
    match field(call, "function"@) {
        None => None,
        Some(function) => match (text_field(function, "name"@), arguments_of(function)) {
            (Some(name), Some(arguments)) => Some(ToolCallRequestView { name, arguments }),
            _ => None,
        },
    }
}

/// The first tool call of a message, if it has one. A session acts on
/// one call at a time, so further calls of the same message do not count.
pub open spec fn first_call(message: Json) -> Option<Json> {
    match field(message, "tool_calls"@) {
        Some(Json::List(calls)) => if calls@.len() > 0 {
            Some(calls@[0])
        } else {
            None
        },
        _ => None,
    }
}

/// What a reply of the model in a conversation says. A reply that is no
/// tree, one without a member `message`, and one whose first tool call
/// has no name or an argument of no known form, are malformed, and are
/// handed on as their text. Else the reply is the content of the message
/// and the request of its first tool call, if it has one.
pub open spec fn decoded_reply(body: Option<Json>, raw: Seq<char>) -> EventView {
    match body {
        None => EventView::MalformedReply(raw),
        Some(tree) => match field(tree, "message"@) {
            None => EventView::MalformedReply(raw),
            Some(message) => {
                let content = text_or_empty(text_field(message, "content"@));
                match first_call(message) {
                    None => EventView::Reply(ModelReplyView { content, tool_call: None }),
                    Some(call) => match request_of(call) {
                        None => EventView::MalformedReply(raw),
                        Some(request) => EventView::Reply(
                            ModelReplyView { content, tool_call: Some(request) },
                        ),
                    },
                }
            },
        },
    }
}

/// The content of the message of a reply, where it has one.
pub open spec fn content_of(body: Json) -> Option<Seq<char>> {
    match field(body, "message"@) {
        Some(message) => text_field(message, "content"@),
        None => None,
    }
}

/// The finding that an object states. A member that is missing, or given
/// in another form than its own, is left empty. A value that is no object
/// states none.
pub open spec fn raw_issue_from(item: Json) -> Option<RawModelIssueView> {
    match item {
        Json::Object(_) => Some(
            RawModelIssueView {
                file_path: text_or_empty(text_field(item, "file_path"@)),
                line_number: integer_field(item, "line_number"@),
                severity: text_or_empty(text_field(item, "severity"@)),
                category: text_or_empty(text_field(item, "category"@)),
                title: text_or_empty(text_field(item, "title"@)),
                description: text_or_empty(text_field(item, "description"@)),
                suggestion: text_field(item, "suggestion"@),
            },
        ),
        _ => None,
    }
}

/// The findings that the items of a list state, in their order; none
/// where one of the items is no object.
pub open spec fn raw_issues_from(items: Seq<Json>) -> Option<Seq<RawModelIssueView>>
    decreases items.len(),
{
    if items.len() == 0 {
        Some(Seq::<RawModelIssueView>::empty())
    } else {
        match (raw_issues_from(items.drop_last()), raw_issue_from(items.last())) {
            (Some(before), Some(issue)) => Some(before.push(issue)),
            _ => None,
        }
    }
}

/// What the content of the reply to a single request says, once it is
/// read into a tree: the list of issues where it is a list of objects,
/// else a malformed reply, handed on as its text.
pub open spec fn decoded_issue_list(list: Option<Json>, raw: Seq<char>) -> EventView {
    match list {
        Some(Json::List(items)) => match raw_issues_from(items@) {
            Some(issues) => EventView::IssueList(issues),
            None => EventView::MalformedReply(raw),
        },
        _ => EventView::MalformedReply(raw),
    }
}

/// Once the first members hold one that is no argument, the members
/// stand for no arguments.
pub proof fn lemma_arguments_stay_refused(members: Seq<Member>, upto: int)
    requires
        0 <= upto <= members.len(),
        arguments_from(members.take(upto)) is None,
    ensures
        arguments_from(members) is None,
    decreases members.len() - upto,
{
    if upto == members.len() {
        assert(members.take(upto) =~= members);
    } else {
        assert(members.take(upto + 1).drop_last() =~= members.take(upto));
        lemma_arguments_stay_refused(members, upto + 1);
    }
}

/// Once the first items hold one that is no object, the items state no
/// findings.
pub proof fn lemma_issues_stay_refused(items: Seq<Json>, upto: int)
    requires
        0 <= upto <= items.len(),
        raw_issues_from(items.take(upto)) is None,
    ensures
        raw_issues_from(items) is None,
    decreases items.len() - upto,
{
    if upto == items.len() {
        assert(items.take(upto) =~= items);
    } else {
        assert(items.take(upto + 1).drop_last() =~= items.take(upto));
        lemma_issues_stay_refused(items, upto + 1);
    }
}

/// The value of an optional tree.
pub open spec fn found(r: Option<&Json>) -> Option<Json> {
    match r {
        Some(v) => Some(*v),
        None => None,
    }
}

impl Json {
    /// Looks up a member of an object by name. Of two with the same name
    /// the first counts.
    pub fn get(&self, key: &str) -> (r: Option<&Json>)
        ensures
            found(r) == field(*self, key@),
    {
        match self {
            Json::Object(members) => {
                let n: usize = members.len();
                let ghost all = members@;
                let mut i: usize = 0;
                assert(all.skip(0) =~= all);
                while i < n
                    invariant
                        *self == Json::Object(*members),
                        n == members.len(),
                        all == members@,
                        i <= n,
                        member_named(all, key@) == member_named(all.skip(i as int), key@),
                    decreases n - i,
                {
                    proof {
                        assert(all.skip(i as int)[0] == members@[i as int]);
                        assert(all.skip(i as int).drop_first() =~= all.skip(i as int + 1));
                    }
                    if same_text(members[i].name.as_str(), key) {
                        return Some(&members[i].value);
                    }
                    i += 1;
                }
                None
            },
            _ => None,
        }
    }

    /// The member `key` of an object, where it is text.
    pub fn text(&self, key: &str) -> (r: Option<String>)
        ensures
            text_of(r) == text_field(*self, key@),
    {
        match self.get(key) {
            Some(Json::Text(s)) => Some(s.clone()),
            _ => None,
        }
    }

    /// The member `key` of an object, where it is a whole number.
    pub fn integer(&self, key: &str) -> (r: Option<i64>)
        ensures
            r == integer_field(*self, key@),
    {
        match self.get(key) {
            Some(Json::Integer(n)) => Some(*n),
            _ => None,
        }
    }
}

fn text_or_empty_of(s: Option<String>) -> (r: String)
    ensures
        r@ == text_or_empty(text_of(s)),
{
    match s {
        Some(t) => t,
        None => String::new(),
    }
}

/// The value of an optional list of arguments.
pub open spec fn argument_views(r: Option<Vec<ToolArgument>>) -> Option<Seq<ToolArgumentView>> {
    match r {
        Some(v) => Some(v@.map_values(|a: ToolArgument| a@)),
        None => None,
    }
}

/// The value of an optional argument.
pub open spec fn optional_value(r: Option<ArgValue>) -> Option<ArgValueView> {
    match r {
        Some(v) => Some(v@),
        None => None,
    }
}

fn argument_value(value: &Json) -> (r: Option<ArgValue>)
    ensures
        optional_value(r) == argument_of(*value),
{
    match value {
        Json::Text(s) => Some(ArgValue::Text(s.clone())),
        Json::Integer(n) => Some(ArgValue::Number(*n)),
        Json::Bool(b) => Some(ArgValue::Flag(*b)),
        _ => None,
    }
}

fn arguments_of_members(members: &Vec<Member>) -> (r: Option<Vec<ToolArgument>>)
    ensures
        argument_views(r) == arguments_from(members@),
{
    let n: usize = members.len();
    let ghost all = members@;
    let mut out: Vec<ToolArgument> = Vec::new();
    let mut i: usize = 0;
    assert(all.take(0) =~= Seq::<Member>::empty());
    assert(out@.map_values(|a: ToolArgument| a@) =~= Seq::<ToolArgumentView>::empty());
    while i < n
        invariant
            n == members.len(),
            all == members@,
            i <= n,
            arguments_from(all.take(i as int)) == Some(out@.map_values(|a: ToolArgument| a@)),
        decreases n - i,
    {
        let ghost before = out@.map_values(|a: ToolArgument| a@);
        proof {
            assert(all.take(i as int + 1).drop_last() =~= all.take(i as int));
            assert(all.take(i as int + 1).last() == members@[i as int]);
        }
        match argument_value(&members[i].value) {
            None => {
                proof {
                    lemma_arguments_stay_refused(all, i as int + 1);
                }
                return None;
            },
            Some(value) => {
                let argument = ToolArgument { name: members[i].name.clone(), value };
                out.push(argument);
                assert(out@.map_values(|a: ToolArgument| a@) =~= before.push(argument@));
            },
        }
        i += 1;
    }
    assert(all.take(n as int) =~= all);
    Some(out)
}

/// The value of an optional request.
pub open spec fn optional_request(r: Option<ToolCallRequest>) -> Option<ToolCallRequestView> {
    match r {
        Some(c) => Some(c@),
        None => None,
    }
}

fn request_from(call: &Json) -> (r: Option<ToolCallRequest>)
    ensures
        optional_request(r) == request_of(*call),
{
    let function = match call.get("function") {
        None => {
            return None;
        },
        Some(f) => f,
    };
    let name = match function.text("name") {
        None => {
            return None;
        },
        Some(s) => s,
    };
    let arguments = match function.get("arguments") {
        Some(Json::Object(members)) => match arguments_of_members(members) {
            None => {
                return None;
            },
            Some(a) => a,
        },
        Some(Json::Null) => Vec::new(),
        None => Vec::new(),
        Some(_) => {
            return None;
        },
    };
    let request = ToolCallRequest { name, arguments };
    assert(request@.arguments =~= arguments_of(*function)->0);
    Some(request)
}

/// Says what a reply of the model in a conversation is, from the tree
/// that its text was read into, or from `None` where the text is no
/// tree. `raw` is the text of the reply.
pub fn decode_reply(body: &Option<Json>, raw: String) -> (e: Event)
    ensures
        e@ == decoded_reply(*body, raw@),
{
    let tree = match body {
        None => {
            return Event::MalformedReply(raw);
        },
        Some(t) => t,
    };
    let message = match tree.get("message") {
        None => {
            return Event::MalformedReply(raw);
        },
        Some(m) => m,
    };
    let content = text_or_empty_of(message.text("content"));
    let call = match message.get("tool_calls") {
        Some(Json::List(calls)) => if calls.len() > 0 {
            Some(&calls[0])
        } else {
            None
        },
        _ => None,
    };
    assert(found(call) == first_call(*message));
    match call {
        None => Event::Reply(ModelReply { content, tool_call: None }),
        Some(c) => match request_from(c) {
            None => Event::MalformedReply(raw),
            Some(request) => Event::Reply(ModelReply { content, tool_call: Some(request) }),
        },
    }
}

/// The content of the message of a reply, where it has one.
pub fn reply_content(body: &Json) -> (r: Option<String>)
    ensures
        text_of(r) == content_of(*body),
{
    match body.get("message") {
        Some(message) => message.text("content"),
        None => None,
    }
}

/// The value of an optional finding.
pub open spec fn optional_issue(r: Option<RawModelIssue>) -> Option<RawModelIssueView> {
    match r {
        Some(i) => Some(i@),
        None => None,
    }
}

fn raw_issue_of_item(item: &Json) -> (r: Option<RawModelIssue>)
    ensures
        optional_issue(r) == raw_issue_from(*item),
{
    match item {
        Json::Object(_) => Some(
            RawModelIssue {
                file_path: text_or_empty_of(item.text("file_path")),
                line_number: item.integer("line_number"),
                severity: text_or_empty_of(item.text("severity")),
                category: text_or_empty_of(item.text("category")),
                title: text_or_empty_of(item.text("title")),
                description: text_or_empty_of(item.text("description")),
                suggestion: item.text("suggestion"),
            },
        ),
        _ => None,
    }
}

/// Says what the reply to a single request is, from the tree that the
/// content of its message was read into, or from `None` where there is no
/// content or it is no tree. `raw` is the text of the reply.
pub fn decode_issue_list(list: &Option<Json>, raw: String) -> (e: Event)
    ensures
        e@ == decoded_issue_list(*list, raw@),
{
    let items = match list {
        Some(Json::List(items)) => items,
        _ => {
            return Event::MalformedReply(raw);
        },
    };
    let n: usize = items.len();
    let ghost all = items@;
    let mut out: Vec<RawModelIssue> = Vec::new();
    let mut i: usize = 0;
    assert(all.take(0) =~= Seq::<Json>::empty());
    assert(raw_views(out@) =~= Seq::<RawModelIssueView>::empty());
    while i < n
        invariant
            *list == Some(Json::List(*items)),
            n == items.len(),
            all == items@,
            i <= n,
            raw_issues_from(all.take(i as int)) == Some(raw_views(out@)),
        decreases n - i,
    {
        let ghost before = raw_views(out@);
        proof {
            assert(all.take(i as int + 1).drop_last() =~= all.take(i as int));
            assert(all.take(i as int + 1).last() == items@[i as int]);
        }
        match raw_issue_of_item(&items[i]) {
            None => {
                proof {
                    lemma_issues_stay_refused(all, i as int + 1);
                }
                return Event::MalformedReply(raw);
            },
            Some(issue) => {
                let ghost added = issue@;
                out.push(issue);
                assert(raw_views(out@) =~= before.push(added));
            },
        }
        i += 1;
    }
    assert(all.take(n as int) =~= all);
    Event::IssueList(out)
}

} // verus!
