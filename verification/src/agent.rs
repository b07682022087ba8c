//! The tool-calling assistant: how a tool call is read and described, and
//! the decisions of the agent loop. The loop itself (requests to the model,
//! running tools) is the caller's; it hands each reply here and does what
//! comes back.

use vstd::prelude::*;
use crate::text;

verus! {

/// An argument of a tool call, as far as the assistant reads it: a string,
/// an integer that fits in `i64`, or anything else.
#[derive(Debug, Clone, PartialEq)]
pub enum ArgValue {
    Str(String),
    Int(i64),
    Other,
}

/// A tool call the model asked for. `arguments` holds the members of the
/// JSON object the call carries, in order; it is empty when the call carries
/// no object.
#[derive(Debug, Clone, PartialEq)]
pub struct ToolCall {
    pub id: String,
    pub name: String,
    pub arguments: Vec<(String, ArgValue)>,
}

/// The value of the first argument named `k`.
pub open spec fn find_arg(args: Seq<(String, ArgValue)>, k: Seq<char>) -> Option<ArgValue>
    decreases args.len(),
{
    if args.len() == 0 {
        None
    } else if args[0].0@ == k {
        Some(args[0].1)
    } else {
        find_arg(args.drop_first(), k)
    }
}

/// The string argument `k`, if there is one.
pub open spec fn arg_str(args: Seq<(String, ArgValue)>, k: Seq<char>) -> Option<Seq<char>> {
    match find_arg(args, k) {
        Some(ArgValue::Str(s)) => Some(s@),
        _ => None,
    }
}

/// The string argument `k`, or `d`.
pub open spec fn str_or(args: Seq<(String, ArgValue)>, k: Seq<char>, d: Seq<char>) -> Seq<char> {
    match arg_str(args, k) {
        Some(s) => s,
        None => d,
    }
}

/// The integer argument `k`, or -1.
pub open spec fn int_or(args: Seq<(String, ArgValue)>, k: Seq<char>) -> int {
    match find_arg(args, k) {
        Some(ArgValue::Int(n)) => n as int,
        _ => -1,
    }
}

/// `s` cut to its first `limit` characters and an ellipsis, when it is longer.
pub open spec fn preview(s: Seq<char>, limit: int) -> Seq<char> {
    if s.len() > limit {
        s.take(limit).push('…')
    } else {
        s
    }
}

/// A tool name with each `_` read as a space.
pub open spec fn spaced_name(name: Seq<char>) -> Seq<char> {
    name.map_values(|c: char| if c == '_' { ' ' } else { c })
}

/// `"프로젝트 #7 삭제"` and the like: a prefix, the id argument and a suffix.
pub open spec fn with_id(prefix: Seq<char>, args: Seq<(String, ArgValue)>, suffix: Seq<char>) -> Seq<char> {
    prefix + text::int_decimal(int_or(args, "id"@)) + suffix
}

/// When a schedule takes place: its date, and its time after a space when
/// the call gives a non-empty one.
pub open spec fn schedule_when(args: Seq<(String, ArgValue)>) -> Seq<char> {
    match arg_str(args, "time"@) {
        Some(t) => if t.len() > 0 {
            str_or(args, "date"@, "?"@) + " "@ + t
        } else {
            str_or(args, "date"@, "?"@)
        },
        None => str_or(args, "date"@, "?"@),
    }
}

/// The one-line summary of a pending mutation shown before it runs.
pub open spec fn describe_spec(name: Seq<char>, args: Seq<(String, ArgValue)>) -> Seq<char> {
    if name == "create_project"@ {
        "프로젝트 '"@ + str_or(args, "name"@, "?"@) + "' ("@ + str_or(args, "priority"@, "P2"@)
            + ") 생성"@
    } else if name == "update_project"@ {
        with_id("프로젝트 #"@, args, " 수정"@)
    } else if name == "delete_project"@ {
        with_id("프로젝트 #"@, args, " 삭제"@)
    } else if name == "create_memo"@ {
        "메모 추가: '"@ + preview(str_or(args, "content"@, "?"@), 40) + "'"@
    } else if name == "update_memo"@ {
        with_id("메모 #"@, args, " 수정"@)
    } else if name == "delete_memo"@ {
        with_id("메모 #"@, args, " 삭제"@)
    } else if name == "create_schedule"@ {
        let desc = str_or(args, "description"@, Seq::empty());
        if desc.len() == 0 {
            "일정 "@ + schedule_when(args) + " 등록"@
        } else {
            "일정 "@ + schedule_when(args) + " · "@ + desc + " 등록"@
        }
    } else if name == "update_schedule"@ {
        with_id("일정 #"@, args, " 수정"@)
    } else if name == "delete_schedule"@ {
        with_id("일정 #"@, args, " 삭제"@)
    } else {
        spaced_name(name)
    }
}

/// Where the first argument named `k` stands.
fn find_arg_index(args: &Vec<(String, ArgValue)>, k: &str) -> (r: Option<usize>)
    ensures
        match find_arg(args@, k@) {
            Some(v) => r matches Some(i) && i < args.len() && args@[i as int].1 == v,
            None => r is None,
        },
{
    let mut i: usize = 0;
    assert(args@.skip(0) =~= args@);
    while i < args.len()
        invariant
            i <= args.len(),
            find_arg(args@, k@) == find_arg(args@.skip(i as int), k@),
        decreases args.len() - i,
    {
        let ghost rest = args@.skip(i as int);
        assert(rest[0] == args@[i as int]);
        if text::str_eq(args[i].0.as_str(), k) {
            return Some(i);
        }
        assert(rest.drop_first() =~= args@.skip(i + 1));
        i += 1;
    }
    None
}

/// The string argument `k`, if there is one.
fn get_str(args: &Vec<(String, ArgValue)>, k: &str) -> (r: Option<String>)
    ensures
        text::opt_view(r) == arg_str(args@, k@),
{
    match find_arg_index(args, k) {
        Some(i) => match &args[i].1 {
            ArgValue::Str(s) => Some(s.clone()),
            _ => None,
        },
        None => None,
    }
}

/// The string argument `k`, or `d`.
fn get_str_or(args: &Vec<(String, ArgValue)>, k: &str, d: &str) -> (r: String)
    ensures
        r@ == str_or(args@, k@, d@),
{
    match get_str(args, k) {
        Some(s) => s,
        None => String::from_str(d),
    }
}

/// The integer argument `k`, or -1.
fn get_int_or(args: &Vec<(String, ArgValue)>, k: &str) -> (r: i64)
    ensures
        r == int_or(args@, k@),
{
    match find_arg_index(args, k) {
        Some(i) => match &args[i].1 {
            ArgValue::Int(n) => *n,
            _ => -1,
        },
        None => -1,
    }
}

fn id_label(prefix: &str, args: &Vec<(String, ArgValue)>, suffix: &str) -> (r: String)
    ensures
        r@ == with_id(prefix@, args@, suffix@),
{
    let mut r = String::from_str(prefix);
    let id = text::i64_to_string(get_int_or(args, "id"));
    r.append(id.as_str());
    r.append(suffix);
    r
}

/// The first `limit` characters of `s` and an ellipsis, when it is longer.
fn preview_of(s: &str, limit: usize) -> (r: String)
    ensures
        r@ == preview(s@, limit as int),
{
    let v = text::chars_of(s);
    if v.len() > limit {
        let mut head = text::string_of(text::slice_subrange(v.as_slice(), 0, limit));
        head.push('…');
        assert(v@.subrange(0, limit as int) =~= s@.take(limit as int));
        head
    } else {
        String::from_str(s)
    }
}

fn spaced(name: &str) -> (r: String)
    ensures
        r@ == spaced_name(name@),
{
    let v = text::chars_of(name);
    let mut r = String::new();
    let mut i: usize = 0;
    while i < v.len()
        invariant
            i <= v.len(),
            v@ == name@,
            r@ == spaced_name(name@.take(i as int)),
        decreases v.len() - i,
    {
        let c = v[i];
        r.push(if c == '_' { ' ' } else { c });
        i += 1;
        assert(spaced_name(name@.take(i as int)) =~= spaced_name(name@.take(i - 1)).push(
            if c == '_' { ' ' } else { c },
        ));
    }
    assert(name@.take(v.len() as int) =~= name@);
    r
}

/// The one-line summary of a pending mutation: which project, memo or
/// schedule it creates, changes or deletes; a project without a priority is
/// shown with `P2`, memo text is cut at 40 characters; a call of another
/// tool is shown by its name with spaces for underscores.
pub fn describe_call(call: &ToolCall) -> (r: String)
    ensures
        r@ == describe_spec(call.name@, call.arguments@),
{
    let a = &call.arguments;
    let name = call.name.as_str();
    proof {
        reveal_strlit("create_project");
        reveal_strlit("update_project");
        reveal_strlit("delete_project");
        reveal_strlit("create_memo");
        reveal_strlit("update_memo");
        reveal_strlit("delete_memo");
        reveal_strlit("create_schedule");
        reveal_strlit("update_schedule");
        reveal_strlit("delete_schedule");
        reveal_strlit("");
    }
    if text::str_eq(name, "create_project") {
        let mut r = String::from_str("프로젝트 '");
        r.append(get_str_or(a, "name", "?").as_str());
        r.append("' (");
        r.append(get_str_or(a, "priority", "P2").as_str());
        r.append(") 생성");
        r
    } else if text::str_eq(name, "update_project") {
        id_label("프로젝트 #", a, " 수정")
    } else if text::str_eq(name, "delete_project") {
        id_label("프로젝트 #", a, " 삭제")
    } else if text::str_eq(name, "create_memo") {
        let mut r = String::from_str("메모 추가: '");
        r.append(preview_of(get_str_or(a, "content", "?").as_str(), 40).as_str());
        r.append("'");
        r
    } else if text::str_eq(name, "update_memo") {
        id_label("메모 #", a, " 수정")
    } else if text::str_eq(name, "delete_memo") {
        id_label("메모 #", a, " 삭제")
    } else if text::str_eq(name, "create_schedule") {
        let mut when = get_str_or(a, "date", "?");
        match get_str(a, "time") {
            Some(t) => {
                if !t.as_str().is_empty() {
                    when.append(" ");
                    when.append(t.as_str());
                }
            },
            None => {},
        }
        let desc = get_str_or(a, "description", "");
        let mut r = String::from_str("일정 ");
        r.append(when.as_str());
        if !desc.as_str().is_empty() {
            r.append(" · ");
            r.append(desc.as_str());
        }
        r.append(" 등록");
        r
    } else if text::str_eq(name, "update_schedule") {
        id_label("일정 #", a, " 수정")
    } else if text::str_eq(name, "delete_schedule") {
        id_label("일정 #", a, " 삭제")
    } else {
        spaced(name)
    }
}

/// The port the local model server listens on.
pub const PORT: u16 = 18080;

/// The most model requests one run of the agent makes.
pub const MAX_STEPS: usize = 8;

/// The endpoint that lists the local server's models.
pub fn health_url() -> (r: String)
    ensures
        r@ == "http://127.0.0.1:"@ + text::int_decimal(PORT as int) + "/v1/models"@,
{
    let mut r = String::from_str("http://127.0.0.1:");
    r.append(text::i64_to_string(PORT as i64).as_str());
    r.append("/v1/models");
    r
}

/// The local server's chat endpoint.
pub fn chat_url() -> (r: String)
    ensures
        r@ == "http://127.0.0.1:"@ + text::int_decimal(PORT as int) + "/v1/chat/completions"@,
{
    let mut r = String::from_str("http://127.0.0.1:");
    r.append(text::i64_to_string(PORT as i64).as_str());
    r.append("/v1/chat/completions");
    r
}

/// A tool call from the fields of the model's reply: it needs an id and a
/// function name; missing or unreadable arguments count as none.
pub fn parse_tool_call(
    id: Option<String>,
    name: Option<String>,
    arguments: Option<Vec<(String, ArgValue)>>,
) -> (r: Option<ToolCall>)
    ensures
        r is Some <==> (id is Some && name is Some),
        r matches Some(c) ==> {
            &&& Some(c.id) == id
            &&& Some(c.name) == name
            &&& c.arguments@ == match arguments {
                Some(a) => a@,
                None => Seq::empty(),
            }
        },
{
    match (id, name) {
        (Some(id), Some(name)) => Some(
            ToolCall {
                id,
                name,
                arguments: match arguments {
                    Some(a) => a,
                    None => Vec::new(),
                },
            },
        ),
        _ => None,
    }
}

/// How the agent treats a tool: a read runs at once and its result goes
/// back to the model; a mutation waits for the user's approval; a client
/// intent is handed to the interface after the reply.
#[derive(Debug, Clone, Copy, PartialEq, Eq, Structural)]
pub enum ToolKind {
    Read,
    Mutation,
    ClientIntent,
}

/// One entry of the `tool_calls` of a model reply: the id it carries, the
/// call read from it (none when it has no id or no name), and the kind of
/// the tool it names (none when the tool is unknown).
#[derive(Debug)]
pub struct ReceivedCall {
    pub raw_id: Option<String>,
    pub call: Option<ToolCall>,
    pub kind: Option<ToolKind>,
}

/// What the loop does with one received call before the next request.
#[derive(Debug)]
pub enum CallStep {
    /// Answer with a "malformed tool_call" error under the raw id.
    Malformed { raw_id: Option<String> },
    /// Run the read tool and answer with its result.
    RunRead(ToolCall),
    /// Answer the call with this id that the client intent with this
    /// name was dispatched.
    Acknowledge { id: String, name: String },
    /// Answer with an "unknown tool" error.
    UnknownTool(ToolCall),
}

/// What the loop does after a model reply.
#[derive(Debug)]
pub enum TurnOutcome {
    /// The model asked for no tool: the run ends with its text and the
    /// client intents gathered so far.
    Final { reply: String, client_intents: Vec<ToolCall> },
    /// Take the steps, then ask the model again.
    Continue { steps: Vec<CallStep> },
    /// Take the steps, answer each id in `skipped_ids` with a "skipped"
    /// placeholder, and stop until the user approves `call`.
    Pending { steps: Vec<CallStep>, call: ToolCall, label: String, skipped_ids: Vec<String> },
}

/// The received call asks for a mutation.
pub open spec fn is_mutation(c: ReceivedCall) -> bool {
    c.call is Some && c.kind == Some(ToolKind::Mutation)
}

/// Where the first mutation stands, or the number of calls when none does.
pub open spec fn pause_index(calls: Seq<ReceivedCall>) -> int
    decreases calls.len(),
{
    if calls.len() == 0 {
        0
    } else if is_mutation(calls[0]) {
        0
    } else {
        1 + pause_index(calls.drop_first())
    }
}

/// The step taken for a call that is not a mutation.
pub open spec fn step_for(c: ReceivedCall) -> CallStep {
    match c.call {
        None => CallStep::Malformed { raw_id: c.raw_id },
        Some(t) => match c.kind {
            Some(ToolKind::Read) => CallStep::RunRead(t),
            Some(ToolKind::ClientIntent) => CallStep::Acknowledge { id: t.id, name: t.name },
            _ => CallStep::UnknownTool(t),
        },
    }
}

/// The client intents among the calls, in order.
pub open spec fn intents_of(calls: Seq<ReceivedCall>) -> Seq<ToolCall>
    decreases calls.len(),
{
    if calls.len() == 0 {
        Seq::empty()
    } else {
        let rest = intents_of(calls.drop_last());
        let c = calls.last();
        if c.call is Some && c.kind == Some(ToolKind::ClientIntent) {
            rest.push(c.call->0)
        } else {
            rest
        }
    }
}

/// The raw ids of the calls that carry one, in order.
pub open spec fn raw_ids(calls: Seq<ReceivedCall>) -> Seq<Seq<char>>
    decreases calls.len(),
{
    if calls.len() == 0 {
        Seq::empty()
    } else {
        let rest = raw_ids(calls.drop_last());
        match calls.last().raw_id {
            Some(id) => rest.push(id@),
            None => rest,
        }
    }
}

/// Every mutation waits for the user: the calls taken before the pause are
/// none of them mutations, and the run pauses exactly at the first one.
pub proof fn lemma_pause_index(calls: Seq<ReceivedCall>)
    ensures
        0 <= pause_index(calls) <= calls.len(),
        forall|i: int| 0 <= i < pause_index(calls) ==> !is_mutation(#[trigger] calls[i]),
        pause_index(calls) < calls.len() ==> is_mutation(calls[pause_index(calls)]),
    decreases calls.len(),
{
    if calls.len() > 0 && !is_mutation(calls[0]) {
        lemma_pause_index(calls.drop_first());
        assert forall|i: int| 0 <= i < pause_index(calls) implies !is_mutation(
            #[trigger] calls[i],
        ) by {
            if i > 0 {
                assert(calls[i] == calls.drop_first()[i - 1]);
            }
        }
    }
}

/// `s` ends with `suffix`.
pub open spec fn ends_with(s: Seq<char>, suffix: Seq<char>) -> bool {
    s.len() >= suffix.len() && s.skip(s.len() - suffix.len()) == suffix
}

/// The update label and the deletion label of an entity named `prefix`:
/// the prefix and id, then `수정` (update) or `삭제` (delete).
proof fn lemma_update_delete_pair(prefix: Seq<char>, args: Seq<(String, ArgValue)>)
    ensures
        ends_with(prefix + text::int_decimal(int_or(args, "id"@)) + " 수정"@, " 수정"@),
        ends_with(prefix + text::int_decimal(int_or(args, "id"@)) + " 삭제"@, " 삭제"@),
        prefix + text::int_decimal(int_or(args, "id"@)) + " 수정"@ != prefix + text::int_decimal(
            int_or(args, "id"@),
        ) + " 삭제"@,
{
    reveal_strlit(" 수정");
    reveal_strlit(" 삭제");
    let p = prefix + text::int_decimal(int_or(args, "id"@));
    assert((p + " 수정"@).skip(p.len() as int) =~= " 수정"@);
    assert((p + " 삭제"@).skip(p.len() as int) =~= " 삭제"@);
    assert((p + " 수정"@).last() != (p + " 삭제"@).last());
}

/// The label of a call that changes or deletes a project, memo or schedule
/// names that entity and its id first, and ends with the action: `수정`
/// (update) for an update and `삭제` (delete) for a deletion. So the update
/// and the deletion of the same entity are never shown alike.
pub proof fn lemma_labels_name_their_action(args: Seq<(String, ArgValue)>)
    ensures
        describe_spec("update_project"@, args) == "프로젝트 #"@ + text::int_decimal(int_or(args, "id"@)) + " 수정"@,
        describe_spec("delete_project"@, args) == "프로젝트 #"@ + text::int_decimal(int_or(args, "id"@)) + " 삭제"@,
        describe_spec("update_memo"@, args) == "메모 #"@ + text::int_decimal(int_or(args, "id"@)) + " 수정"@,
        describe_spec("delete_memo"@, args) == "메모 #"@ + text::int_decimal(int_or(args, "id"@)) + " 삭제"@,
        describe_spec("update_schedule"@, args) == "일정 #"@ + text::int_decimal(int_or(args, "id"@)) + " 수정"@,
        describe_spec("delete_schedule"@, args) == "일정 #"@ + text::int_decimal(int_or(args, "id"@)) + " 삭제"@,
        ends_with(describe_spec("update_project"@, args), " 수정"@),
        ends_with(describe_spec("update_memo"@, args), " 수정"@),
        ends_with(describe_spec("update_schedule"@, args), " 수정"@),
        ends_with(describe_spec("delete_project"@, args), " 삭제"@),
        ends_with(describe_spec("delete_memo"@, args), " 삭제"@),
        ends_with(describe_spec("delete_schedule"@, args), " 삭제"@),
        describe_spec("update_project"@, args) != describe_spec("delete_project"@, args),
        describe_spec("update_memo"@, args) != describe_spec("delete_memo"@, args),
        describe_spec("update_schedule"@, args) != describe_spec("delete_schedule"@, args),
{
    reveal_strlit("create_project");
    reveal_strlit("update_project");
    reveal_strlit("delete_project");
    reveal_strlit("create_memo");
    reveal_strlit("update_memo");
    reveal_strlit("delete_memo");
    reveal_strlit("create_schedule");
    reveal_strlit("update_schedule");
    reveal_strlit("delete_schedule");
    assert("update_project"@ != "create_project"@) by { assert("update_project"@[0] != "create_project"@[0]); }
    assert("delete_project"@ != "create_project"@) by { assert("delete_project"@[0] != "create_project"@[0]); }
    assert("delete_project"@ != "update_project"@) by { assert("delete_project"@[0] != "update_project"@[0]); }
    assert("update_memo"@ != "create_project"@) by { assert("update_memo"@.len() != "create_project"@.len()); }
    assert("update_memo"@ != "update_project"@) by { assert("update_memo"@.len() != "update_project"@.len()); }
    assert("update_memo"@ != "delete_project"@) by { assert("update_memo"@.len() != "delete_project"@.len()); }
    assert("update_memo"@ != "create_memo"@) by { assert("update_memo"@[0] != "create_memo"@[0]); }
    assert("delete_memo"@ != "create_project"@) by { assert("delete_memo"@.len() != "create_project"@.len()); }
    assert("delete_memo"@ != "update_project"@) by { assert("delete_memo"@.len() != "update_project"@.len()); }
    assert("delete_memo"@ != "delete_project"@) by { assert("delete_memo"@.len() != "delete_project"@.len()); }
    assert("delete_memo"@ != "create_memo"@) by { assert("delete_memo"@[0] != "create_memo"@[0]); }
    assert("delete_memo"@ != "update_memo"@) by { assert("delete_memo"@[0] != "update_memo"@[0]); }
    assert("update_schedule"@ != "create_project"@) by { assert("update_schedule"@.len() != "create_project"@.len()); }
    assert("update_schedule"@ != "update_project"@) by { assert("update_schedule"@.len() != "update_project"@.len()); }
    assert("update_schedule"@ != "delete_project"@) by { assert("update_schedule"@.len() != "delete_project"@.len()); }
    assert("update_schedule"@ != "create_memo"@) by { assert("update_schedule"@.len() != "create_memo"@.len()); }
    assert("update_schedule"@ != "update_memo"@) by { assert("update_schedule"@.len() != "update_memo"@.len()); }
    assert("update_schedule"@ != "delete_memo"@) by { assert("update_schedule"@.len() != "delete_memo"@.len()); }
    assert("update_schedule"@ != "create_schedule"@) by { assert("update_schedule"@[0] != "create_schedule"@[0]); }
    assert("delete_schedule"@ != "create_project"@) by { assert("delete_schedule"@.len() != "create_project"@.len()); }
    assert("delete_schedule"@ != "update_project"@) by { assert("delete_schedule"@.len() != "update_project"@.len()); }
    assert("delete_schedule"@ != "delete_project"@) by { assert("delete_schedule"@.len() != "delete_project"@.len()); }
    assert("delete_schedule"@ != "create_memo"@) by { assert("delete_schedule"@.len() != "create_memo"@.len()); }
    assert("delete_schedule"@ != "update_memo"@) by { assert("delete_schedule"@.len() != "update_memo"@.len()); }
    assert("delete_schedule"@ != "delete_memo"@) by { assert("delete_schedule"@.len() != "delete_memo"@.len()); }
    assert("delete_schedule"@ != "create_schedule"@) by { assert("delete_schedule"@[0] != "create_schedule"@[0]); }
    assert("delete_schedule"@ != "update_schedule"@) by { assert("delete_schedule"@[0] != "update_schedule"@[0]); }
    lemma_update_delete_pair("프로젝트 #"@, args);
    lemma_update_delete_pair("메모 #"@, args);
    lemma_update_delete_pair("일정 #"@, args);
}

/// The label of a new project names it in quotes with its priority (`P2`
/// when the call gives none) and ends with `생성` (create); the label of a
/// new memo quotes its text whole when it has at most 40 characters, and
/// otherwise its first 40 characters and an ellipsis.
pub proof fn lemma_create_labels(args: Seq<(String, ArgValue)>)
    ensures
        describe_spec("create_project"@, args) == "프로젝트 '"@ + str_or(args, "name"@, "?"@) + "' ("@
            + str_or(args, "priority"@, "P2"@) + ") 생성"@,
        ({
            let c = str_or(args, "content"@, "?"@);
            let l = describe_spec("create_memo"@, args);
            &&& c.len() <= 40 ==> l == "메모 추가: '"@ + c + "'"@
            &&& c.len() > 40 ==> l == "메모 추가: '"@ + c.take(40) + seq!['…'] + "'"@
        }),
{
    reveal_strlit("create_project");
    reveal_strlit("update_project");
    reveal_strlit("delete_project");
    reveal_strlit("create_memo");
    assert("create_memo"@ != "create_project"@) by { assert("create_memo"@.len() != "create_project"@.len()); }
    assert("create_memo"@ != "update_project"@) by { assert("create_memo"@.len() != "update_project"@.len()); }
    assert("create_memo"@ != "delete_project"@) by { assert("create_memo"@.len() != "delete_project"@.len()); }
    let c = str_or(args, "content"@, "?"@);
    if c.len() > 40 {
        assert(c.take(40).push('…') =~= c.take(40) + seq!['…']);
    }
}

/// The state of one run of the agent: the requests made so far and the
/// client intents gathered.
pub struct AgentRun {
    pub steps_done: usize,
    pub client_intents: Vec<ToolCall>,
}

impl AgentRun {
    /// A run that has made no request yet.
    pub fn begin() -> (r: AgentRun)
        ensures
            r.steps_done == 0,
            r.client_intents@ == Seq::<ToolCall>::empty(),
    {
        AgentRun { steps_done: 0, client_intents: Vec::new() }
    }

    /// Whether the run may ask the model again.
    pub fn may_request(&self) -> (r: bool)
        ensures
            r == (self.steps_done < MAX_STEPS),
    {
        self.steps_done < MAX_STEPS
    }

    /// What to do with a model reply: its text and its tool calls.
    /// Without tool calls the run ends with the text. Otherwise the calls
    /// are taken in order up to the first mutation; client intents are
    /// gathered; the run pauses at that mutation, or goes on when there is
    /// none.
    pub fn on_reply(&mut self, content: String, calls: Vec<ReceivedCall>) -> (r: TurnOutcome)
        requires
            old(self).steps_done < MAX_STEPS,
        ensures
            final(self).steps_done == old(self).steps_done + 1,
            calls.len() == 0 ==> (r matches TurnOutcome::Final { reply, client_intents } && reply
                == content && client_intents@ == old(self).client_intents@),
            calls.len() > 0 ==> {
                let p = pause_index(calls@);
                &&& final(self).client_intents@ == old(self).client_intents@ + intents_of(
                    calls@.take(p),
                )
                &&& p == calls.len() ==> (r matches TurnOutcome::Continue { steps } && steps@
                    == calls@.map_values(|c: ReceivedCall| step_for(c)))
                &&& p < calls.len() ==> (r matches TurnOutcome::Pending {
                    steps,
                    call,
                    label,
                    skipped_ids,
                } && steps@ == calls@.take(p).map_values(|c: ReceivedCall| step_for(c))
                    && Some(call) == calls@[p].call && label@ == describe_spec(
                    call.name@,
                    call.arguments@,
                ) && text::strs_view(skipped_ids@) == raw_ids(calls@.skip(p + 1)))
            },
    {
        self.steps_done = self.steps_done + 1;
        if calls.len() == 0 {
            let mut client_intents = Vec::new();
            std::mem::swap(&mut client_intents, &mut self.client_intents);
            return TurnOutcome::Final { reply: content, client_intents };
        }
        let ghost all = calls@;
        proof {
            lemma_pause_index(all);
        }
        let ghost p = pause_index(all);
        let n = calls.len();
        let mut rest = calls;
        let mut steps: Vec<CallStep> = Vec::new();
        let mut i: usize = 0;
        let ghost start = self.client_intents@;
        assert(all.take(0) =~= Seq::<ReceivedCall>::empty());
        assert(all.skip(0) =~= all);
        while i < n
            invariant_except_break
                i <= p,
            invariant
                n == all.len(),
                0 <= p <= n,
                p == pause_index(all),
                forall|k: int| 0 <= k < p ==> !is_mutation(#[trigger] all[k]),
                p < n ==> is_mutation(all[p]),
                i <= n,
                rest@ == all.skip(i as int),
                steps@ == all.take(i as int).map_values(|c: ReceivedCall| step_for(c)),
                self.client_intents@ == start + intents_of(all.take(i as int)),
                self.steps_done == old(self).steps_done + 1,
                start == old(self).client_intents@,
            ensures
                i <= n,
                rest@ == all.skip(i as int),
                steps@ == all.take(p).map_values(|c: ReceivedCall| step_for(c)),
                self.client_intents@ == start + intents_of(all.take(p)),
                i == p,
            decreases n - i,
        {
            assert(rest@[0] == all[i as int]);
            if rest[0].call.is_some() && rest[0].kind == Some(ToolKind::Mutation) {
                break;
            }
            let c = rest.remove(0);
            assert(all.take(i + 1).drop_last() =~= all.take(i as int));
            assert(all.take(i + 1).last() == c);
            match c.call {
                None => {
                    steps.push(CallStep::Malformed { raw_id: c.raw_id });
                },
                Some(t) => {
                    match c.kind {
                        Some(ToolKind::Read) => {
                            steps.push(CallStep::RunRead(t));
                        },
                        Some(ToolKind::ClientIntent) => {
                            steps.push(
                                CallStep::Acknowledge { id: t.id.clone(), name: t.name.clone() },
                            );
                            self.client_intents.push(t);
                        },
                        _ => {
                            steps.push(CallStep::UnknownTool(t));
                        },
                    }
                },
            }
            i += 1;
            assert(rest@ =~= all.skip(i as int));
        }
        if i == n {
            assert(all.take(n as int) =~= all);
            return TurnOutcome::Continue { steps };
        }
        let c = rest.remove(0);
        let call = c.call.unwrap();
        let label = describe_call(&call);
        let mut skipped_ids: Vec<String> = Vec::new();
        let ghost tail = rest@;
        assert(tail =~= all.skip(p + 1));
        let mut j: usize = 0;
        assert(tail.take(0) =~= Seq::<ReceivedCall>::empty());
        while j < rest.len()
            invariant
                j <= rest.len(),
                rest@ == tail,
                text::strs_view(skipped_ids@) == raw_ids(tail.take(j as int)),
            decreases rest.len() - j,
        {
            assert(tail.take(j + 1).drop_last() =~= tail.take(j as int));
            match &rest[j].raw_id {
                Some(id) => {
                    skipped_ids.push(id.clone());
                    assert(text::strs_view(skipped_ids@) =~= raw_ids(tail.take(j as int)).push(
                        id@,
                    ));
                },
                None => {},
            }
            j += 1;
        }
        assert(tail.take(tail.len() as int) =~= tail);
        TurnOutcome::Pending { steps, call, label, skipped_ids }
    }
}

/// Why a run ended without the model settling.
pub fn steps_exceeded_error() -> (r: String)
    ensures
        r@ == "AI agent exceeded "@ + text::int_decimal(MAX_STEPS as int) + " steps without settling"@,
{
    let mut r = String::from_str("AI agent exceeded ");
    r.append(text::i64_to_string(MAX_STEPS as i64).as_str());
    r.append(" steps without settling");
    r
}

/// The content of the assistant turn echoed into the history: none when
/// the model said nothing.
pub fn assistant_content(content: &String) -> (r: Option<String>)
    ensures
        content@.len() == 0 ==> r is None,
        content@.len() > 0 ==> r == Some(*content),
{
    if content.as_str().is_empty() {
        None
    } else {
        Some(content.clone())
    }
}

/// The error of a model request the server refused: its status, then the
/// error message of its JSON body when it has one, else the body itself.
pub fn request_refused_error(status: &str, message: Option<String>, body: &str) -> (r: String)
    ensures
        r@ == "AI request returned "@ + status@ + ": "@ + match message {
            Some(m) => m@,
            None => body@,
        },
{
    let mut r = String::from_str("AI request returned ");
    r.append(status);
    r.append(": ");
    match message {
        Some(m) => r.append(m.as_str()),
        None => r.append(body),
    }
    r
}

/// The error of an approved mutation whose tool failed.
pub fn execution_error(name: &str, error: &str) -> (r: String)
    ensures
        r@ == name@ + " 실행 실패: "@ + error@,
{
    let mut r = String::from_str(name);
    r.append(" 실행 실패: ");
    r.append(error);
    r
}

/// The state of the local model server as the palette sees it.
#[derive(Debug, Clone, PartialEq, Eq)]
pub enum AiServerState {
    Idle,
    Starting,
    Running { port: u16 },
    Failed { error: String },
}

/// The state of a local server that did not answer: idle if it was thought
/// running, else as it was.
pub open spec fn unanswered(current: AiServerState) -> AiServerState {
    match current {
        AiServerState::Running { .. } => AiServerState::Idle,
        _ => current,
    }
}

/// The state to report after a probe of the server. With the hosted
/// provider there is no server to run, and the port is 0; a local server
/// that answered runs on `PORT`; one that did not is idle if it was thought
/// running, and otherwise keeps its state.
pub fn status_after_probe(hosted: bool, alive: bool, current: AiServerState) -> (r: AiServerState)
    ensures
        hosted ==> r == (AiServerState::Running { port: 0 }),
        !hosted && alive ==> r == (AiServerState::Running { port: PORT }),
        !hosted && !alive ==> r == unanswered(current),
{
    if hosted {
        AiServerState::Running { port: 0 }
    } else if alive {
        AiServerState::Running { port: PORT }
    } else {
        match current {
            AiServerState::Running { .. } => AiServerState::Idle,
            _ => current,
        }
    }
}

/// The hosted chat endpoint.
pub const OPENAI_CHAT_URL: &'static str = "https://api.openai.com/v1/chat/completions";

/// The hosted model every request names.
pub const OPENAI_MODEL: &'static str = "gpt-5.4-mini";

/// Where a run sends its requests, with what credentials and model.
#[derive(Debug, PartialEq, Eq)]
pub struct Backend {
    pub url: String,
    pub bearer: Option<String>,
    pub model: String,
}

/// The backend for the saved provider. The hosted provider needs its API
/// key; the local server needs the id of the model it has loaded (`None`
/// when no server answered).
pub fn resolve_backend(provider: &str, api_key: Option<String>, local_model: Option<String>) -> (r:
    Result<Backend, String>)
    ensures
        provider@ == "openai"@ ==> match api_key {
            Some(k) => r matches Ok(b) && b.url@ == OPENAI_CHAT_URL@ && b.bearer == Some(k)
                && b.model@ == OPENAI_MODEL@,
            None => r matches Err(e) && e@
                == "OpenAI API 키가 설정되지 않았습니다. 설정에서 키를 입력해 주세요."@,
        },
        provider@ != "openai"@ ==> match local_model {
            Some(m) => r matches Ok(b) && b.url@ == "http://127.0.0.1:"@ + text::int_decimal(
                PORT as int,
            ) + "/v1/chat/completions"@ && b.bearer is None && b.model == m,
            None => r matches Err(e) && e@ == "AI 서버를 찾을 수 없습니다. 먼저 서버를 시작하세요."@,
        },
{
    if text::str_eq(provider, "openai") {
        match api_key {
            Some(k) => Ok(
                Backend {
                    url: String::from_str(OPENAI_CHAT_URL),
                    bearer: Some(k),
                    model: String::from_str(OPENAI_MODEL),
                },
            ),
            None => Err(
                String::from_str("OpenAI API 키가 설정되지 않았습니다. 설정에서 키를 입력해 주세요."),
            ),
        }
    } else {
        match local_model {
            Some(m) => Ok(Backend { url: chat_url(), bearer: None, model: m }),
            None => Err(String::from_str("AI 서버를 찾을 수 없습니다. 먼저 서버를 시작하세요.")),
        }
    }
}

/// The first line that is not blank, trimmed.
pub open spec fn first_nonblank(lines: Seq<Seq<char>>) -> Option<Seq<char>>
    decreases lines.len(),
{
    if lines.len() == 0 {
        None
    } else if text::trim_spec(lines[0]).len() > 0 {
        Some(text::trim_spec(lines[0]))
    } else {
        first_nonblank(lines.drop_first())
    }
}

/// `l` without the `p`s it starts with.
pub open spec fn strip_leading_p(l: Seq<char>) -> Seq<char>
    decreases l.len(),
{
    if l.len() > 0 && l[0] == 'p' {
        strip_leading_p(l.drop_first())
    } else {
        l
    }
}

/// The first line that starts with `p`, without its leading `p`s: the
/// process field of `lsof -F p` output.
pub open spec fn first_p_field(lines: Seq<Seq<char>>) -> Option<Seq<char>>
    decreases lines.len(),
{
    if lines.len() == 0 {
        None
    } else if lines[0].len() > 0 && lines[0][0] == 'p' {
        Some(strip_leading_p(lines[0]))
    } else {
        first_p_field(lines.drop_first())
    }
}

/// The word after the first `--model` word, if both are there.
pub open spec fn model_after(words: Seq<Seq<char>>) -> Option<Seq<char>>
    decreases words.len(),
{
    if words.len() == 0 {
        None
    } else if words[0] == "--model"@ {
        if words.len() > 1 {
            Some(words[1])
        } else {
            None
        }
    } else {
        model_after(words.drop_first())
    }
}

/// The pid `pgrep` printed: its first line that is not blank, trimmed.
pub fn pgrep_pid(stdout: &str) -> (r: Option<String>)
    ensures
        text::opt_view(r) == first_nonblank(text::lines_spec(stdout@)),
{
    let v = text::chars_of(stdout);
    let lines = text::lines_of(v.as_slice());
    let ghost lv = text::vecs_view(lines@);
    let mut i: usize = 0;
    assert(lv.skip(0) =~= lv);
    while i < lines.len()
        invariant
            i <= lines.len(),
            lv == text::vecs_view(lines@),
            lv == text::lines_spec(stdout@),
            first_nonblank(lv) == first_nonblank(lv.skip(i as int)),
        decreases lines.len() - i,
    {
        assert(lv.skip(i as int)[0] == lines@[i as int]@);
        let (a, b) = text::trim_bounds(lines[i].as_slice());
        if a < b {
            return Some(text::string_of(text::slice_subrange(lines[i].as_slice(), a, b)));
        }
        assert(lv.skip(i as int).drop_first() =~= lv.skip(i + 1));
        i += 1;
    }
    None
}

fn strip_p(l: &[char]) -> (r: String)
    ensures
        r@ == strip_leading_p(l@),
{
    let mut i: usize = 0;
    assert(l@.subrange(0, l.len() as int) =~= l@);
    while i < l.len() && l[i] == 'p'
        invariant
            i <= l.len(),
            strip_leading_p(l@) == strip_leading_p(l@.subrange(i as int, l.len() as int)),
        decreases l.len() - i,
    {
        assert(l@.subrange(i as int, l.len() as int).drop_first() =~= l@.subrange(
            i + 1,
            l.len() as int,
        ));
        i += 1;
    }
    text::string_of(text::slice_subrange(l, i, l.len()))
}

/// The pid `lsof -F p` printed: its first `p` line without the `p`.
pub fn lsof_pid(stdout: &str) -> (r: Option<String>)
    ensures
        text::opt_view(r) == first_p_field(text::lines_spec(stdout@)),
{
    let v = text::chars_of(stdout);
    let lines = text::lines_of(v.as_slice());
    let ghost lv = text::vecs_view(lines@);
    let mut i: usize = 0;
    assert(lv.skip(0) =~= lv);
    while i < lines.len()
        invariant
            i <= lines.len(),
            lv == text::vecs_view(lines@),
            lv == text::lines_spec(stdout@),
            first_p_field(lv) == first_p_field(lv.skip(i as int)),
        decreases lines.len() - i,
    {
        assert(lv.skip(i as int)[0] == lines@[i as int]@);
        if lines[i].len() > 0 && lines[i][0] == 'p' {
            return Some(strip_p(lines[i].as_slice()));
        }
        assert(lv.skip(i as int).drop_first() =~= lv.skip(i + 1));
        i += 1;
    }
    None
}

/// The pid a launcher wrote to its pid file: the file's text trimmed,
/// unless that is empty.
pub fn pid_file_pid(raw: &str) -> (r: Option<String>)
    ensures
        text::trim_spec(raw@).len() == 0 ==> r is None,
        text::trim_spec(raw@).len() > 0 ==> (r matches Some(p) && p@ == text::trim_spec(raw@)),
{
    let v = text::chars_of(raw);
    let (a, b) = text::trim_bounds(v.as_slice());
    if a < b {
        Some(text::string_of(text::slice_subrange(v.as_slice(), a, b)))
    } else {
        None
    }
}

/// Whether a process's command line is that of the model server.
pub fn is_model_server_command(command: &str) -> (r: bool)
    ensures
        r == text::contains_spec(command@, "mlx_lm.server"@),
{
    let v = text::chars_of(command);
    text::contains_str(v.as_slice(), "mlx_lm.server")
}

/// The model a server command line loads: the word after `--model`.
pub fn loaded_model(command: &str) -> (r: Option<String>)
    ensures
        text::opt_view(r) == model_after(text::words_spec(command@)),
{
    let v = text::chars_of(command);
    let words = text::words_of(v.as_slice());
    let ghost wv = text::vecs_view(words@);
    let mut i: usize = 0;
    assert(wv.skip(0) =~= wv);
    while i < words.len()
        invariant
            i <= words.len(),
            wv == text::vecs_view(words@),
            wv == text::words_spec(command@),
            model_after(wv) == model_after(wv.skip(i as int)),
        decreases words.len() - i,
    {
        assert(wv.skip(i as int)[0] == words@[i as int]@);
        if text::chars_eq_str(words[i].as_slice(), "--model") {
            if i + 1 < words.len() {
                assert(wv.skip(i as int)[1] == words@[i + 1]@);
                return Some(text::string_of(words[i + 1].as_slice()));
            }
            return None;
        }
        assert(wv.skip(i as int).drop_first() =~= wv.skip(i + 1));
        i += 1;
    }
    None
}

/// The `pgrep -f` pattern of a model server on `port`.
pub fn server_pattern(port: u16) -> (r: String)
    ensures
        r@ == "mlx_lm\\.server.*--port "@ + text::int_decimal(port as int),
{
    let mut r = String::from_str("mlx_lm\\.server.*--port ");
    r.append(text::i64_to_string(port as i64).as_str());
    r
}

/// The pid of the process listening on the server's port: the launcher's
/// pid file when it names a live model server, else what `pgrep` found,
/// else what `lsof` found.
pub fn find_port_listener_pid(
    pid_file: Option<String>,
    pid_file_is_live_server: bool,
    pgrep: Option<String>,
    lsof: Option<String>,
) -> (r: Option<String>)
    ensures
        r == (match pid_file {
            Some(p) if pid_file_is_live_server => Some(p),
            _ => match pgrep {
                Some(q) => Some(q),
                None => lsof,
            },
        }),
{
    match pid_file {
        Some(p) if pid_file_is_live_server => Some(p),
        _ => match pgrep {
            Some(q) => Some(q),
            None => lsof,
        },
    }
}

/// How many one-second probes a server start waits for the server.
pub const START_POLLS: u32 = 120;

/// The state of a server whose start could not spawn the launcher.
pub fn spawn_failed_state(error: &str) -> (r: AiServerState)
    ensures
        r matches AiServerState::Failed { error: e } && e@ == "spawn failed: "@ + error@,
{
    let mut e = String::from_str("spawn failed: ");
    e.append(error);
    AiServerState::Failed { error: e }
}

/// What a server start does after a probe.
#[derive(Debug, Clone, PartialEq, Eq)]
pub enum StartStep {
    /// The server answered: it runs on `PORT`.
    Running,
    /// Wait a second and probe again.
    Wait,
    /// Stop waiting; the server is marked failed with this error.
    GiveUp(String),
}

/// The step after the `polls`-th probe of a starting server (counting from
/// 1): running once it answers, giving up after `START_POLLS` unanswered
/// probes.
pub fn start_step(polls: u32, alive: bool) -> (r: StartStep)
    ensures
        alive ==> r == StartStep::Running,
        !alive && polls < START_POLLS ==> r == StartStep::Wait,
        !alive && polls >= START_POLLS ==> (r matches StartStep::GiveUp(e) && e@
            == "AI server failed to start within 120s"@),
{
    if alive {
        StartStep::Running
    } else if polls < START_POLLS {
        StartStep::Wait
    } else {
        StartStep::GiveUp(String::from_str("AI server failed to start within 120s"))
    }
}

} // verus!
