//! MCP request handling: splitting a JSON-RPC message into a request,
//! routing methods and tool calls, and the error codes of the replies.
//!
//! JSON values are opaque here (`V`); the caller extracts the members that
//! the rules read and builds the JSON replies.

use vstd::prelude::*;
use crate::text::{split_on, split_on_char, str_eq};

verus! {

/// JSON-RPC "invalid request".
pub const INVALID_REQUEST: i32 = -32600;

/// JSON-RPC "method not found".
pub const METHOD_NOT_FOUND: i32 = -32601;

/// A tool call that failed.
pub const TOOL_FAILED: i32 = -32000;

/// A member of a JSON object: missing, `null`, or some other value.
pub enum Member<V> {
    Absent,
    Null,
    Value(V),
}

/// The value of a member, `None` standing for JSON `null` (a missing member reads as `null`).
pub open spec fn member_value<V>(m: Member<V>) -> Option<V> {
    match m {
        Member::Value(v) => Some(v),
        _ => None,
    }
}

/// What request parsing reads of a message.
pub struct Message<V> {
    /// The `method` member when it is a string.
    pub method: Option<String>,
    /// The `id` member.
    pub id: Member<V>,
    /// The `params` member.
    pub params: Member<V>,
}

/// A parsed request; a notification has no `id` and gets no reply.
pub struct Request<V> {
    /// `None` for a notification (no id, or a `null` id).
    pub id: Option<V>,
    pub method: String,
    /// `None` stands for `null`.
    pub params: Option<V>,
}

/// An error reply: `id` (`None` is `null`), JSON-RPC code and message.
pub struct ErrorReply<V> {
    pub id: Option<V>,
    pub code: i32,
    pub message: String,
}

fn member_into<V>(m: Member<V>) -> (v: Option<V>)
    ensures
        v == member_value(m),
{
    match m {
        Member::Value(v) => Some(v),
        _ => None,
    }
}

/// Checks and splits a message: without a string `method` it is an invalid
/// request, answered with the message's id (or `null`); otherwise the
/// request, whose id is dropped when `null`.
pub fn parse_request<V>(msg: Message<V>) -> (parsed: Result<Request<V>, Option<ErrorReply<V>>>)
    ensures
        msg.method is None ==> (parsed matches Err(Some(e)) && e.id == member_value(msg.id)
            && e.code == INVALID_REQUEST && e.message@ == "请求缺少 method"@),
        msg.method is Some ==> (parsed matches Ok(r) && r.id == member_value(msg.id) && r.method
            == msg.method->0 && r.params == member_value(msg.params)),
{
    match msg.method {
        None => Err(
            Some(
                ErrorReply {
                    id: member_into(msg.id),
                    code: INVALID_REQUEST,
                    message: String::from_str("请求缺少 method"),
                },
            ),
        ),
        Some(method) => Ok(
            Request { id: member_into(msg.id), method, params: member_into(msg.params) },
        ),
    }
}

/// The methods the server answers.
#[derive(Clone, Copy, Debug, PartialEq, Eq, Structural)]
pub enum Method {
    Initialize,
    ToolsList,
    ToolsCall,
    Ping,
    Unknown,
}

pub open spec fn spec_route_method(method: Seq<char>) -> Method {
    if method == "initialize"@ {
        Method::Initialize
    } else if method == "tools/list"@ {
        Method::ToolsList
    } else if method == "tools/call"@ {
        Method::ToolsCall
    } else if method == "ping"@ {
        Method::Ping
    } else {
        Method::Unknown
    }
}

/// Which method a request calls.
pub fn route_method(method: &str) -> (m: Method)
    ensures
        m == spec_route_method(method@),
{
    if str_eq(method, "initialize") {
        Method::Initialize
    } else if str_eq(method, "tools/list") {
        Method::ToolsList
    } else if str_eq(method, "tools/call") {
        Method::ToolsCall
    } else if str_eq(method, "ping") {
        Method::Ping
    } else {
        Method::Unknown
    }
}

/// The error of an unknown method: code and message naming the method.
pub fn unknown_method(method: &str) -> (reply: (i32, String))
    ensures
        reply.0 == METHOD_NOT_FOUND,
        reply.1@ == "未知方法 "@ + method@,
{
    let mut message = String::from_str("未知方法 ");
    message.append(method);
    (METHOD_NOT_FOUND, message)
}

/// Only requests with an id are answered; notifications never are.
pub fn needs_reply<V>(request: &Request<V>) -> (reply: bool)
    ensures
        reply == request.id is Some,
{
    request.id.is_some()
}

/// The tools of `tools/call`.
#[derive(Clone, Copy, Debug, PartialEq, Eq, Structural)]
pub enum Tool {
    Lookup,
    Gloss,
}

/// Which tool a `tools/call` names; the error message when none or an unknown one.
pub fn route_tool(name: Option<&str>) -> (tool: Result<Tool, String>)
    ensures
        name is None ==> (tool matches Err(m) && m@ == "tools/call 缺少 name"@),
        name matches Some(n) ==> (n@ == "lookup"@ ==> tool == Ok::<Tool, String>(Tool::Lookup)),
        name matches Some(n) ==> (n@ == "gloss"@ ==> tool == Ok::<Tool, String>(Tool::Gloss)),
        name matches Some(n) ==> (n@ != "lookup"@ && n@ != "gloss"@ ==> (tool matches Err(m)
            && m@ == "不认识的工具 "@ + n@)),
{
    proof {
        reveal_strlit("lookup");
        reveal_strlit("gloss");
        assert("gloss"@.len() == 5);
        assert("lookup"@.len() == 6);
        assert("gloss"@ != "lookup"@);
    }
    match name {
        None => Err(String::from_str("tools/call 缺少 name")),
        Some(n) => if str_eq(n, "lookup") {
            Ok(Tool::Lookup)
        } else if str_eq(n, "gloss") {
            Ok(Tool::Gloss)
        } else {
            let mut message = String::from_str("不认识的工具 ");
            message.append(n);
            Err(message)
        },
    }
}

/// How many candidates `lookup` returns: the requested `limit` (10 when
/// missing), at most 50.
pub fn lookup_limit(limit: Option<u64>) -> (count: usize)
    ensures
        count == (match limit {
            Some(l) => if l < 50 {
                l
            } else {
                50
            },
            None => 10,
        }),
{
    let requested: u64 = match limit {
        Some(l) => l,
        None => 10,
    };
    if requested < 50 {
        requested as usize
    } else {
        50
    }
}

/// Kinds of candidates.
#[derive(Clone, Copy, Debug, PartialEq, Eq, Structural)]
pub enum CandidateKind {
    Chinese,
    Code,
    English,
    Cloud,
    Shortcut,
    Custom(u32),
    Emoji,
    Sentence,
}

/// The name of a candidate kind in `lookup` results.
pub fn kind_name(kind: CandidateKind) -> (name: &'static str)
    ensures
        name@ == (match kind {
            CandidateKind::Chinese => "chinese"@,
            CandidateKind::Code => "code"@,
            CandidateKind::English => "english"@,
            CandidateKind::Cloud => "cloud"@,
            CandidateKind::Shortcut => "shortcut"@,
            CandidateKind::Custom(_) => "custom"@,
            CandidateKind::Emoji => "emoji"@,
            CandidateKind::Sentence => "sentence"@,
        }),
{
    match kind {
        CandidateKind::Chinese => "chinese",
        CandidateKind::Code => "code",
        CandidateKind::English => "english",
        CandidateKind::Cloud => "cloud",
        CandidateKind::Shortcut => "shortcut",
        CandidateKind::Custom(_) => "custom",
        CandidateKind::Emoji => "emoji",
        CandidateKind::Sentence => "sentence",
    }
}

/// A name in the `fuzzy` argument of `lookup`.
pub enum FuzzyName {
    /// `all`: every fuzzy rule on.
    All,
    /// One rule, such as `z-zh`.
    Rule(String),
}

pub open spec fn spec_fuzzy_name(name: Seq<char>) -> Option<Seq<char>> {
    if name == "all"@ {
        None
    } else {
        Some(name)
    }
}

/// The comma-separated names of the `fuzzy` argument, in order; `all`
/// stands for every rule.
pub fn fuzzy_names(fuzzy: &str) -> (names: Vec<FuzzyName>)
    ensures
        names@.len() == split_on(fuzzy@, ',').len(),
        forall|i: int|
            0 <= i < names@.len() ==> match #[trigger] names@[i] {
                FuzzyName::All => spec_fuzzy_name(split_on(fuzzy@, ',')[i]) is None,
                FuzzyName::Rule(r) => spec_fuzzy_name(split_on(fuzzy@, ',')[i]) == Some(r@),
            },
{
    let pieces = split_on_char(fuzzy, ',');
    let mut names: Vec<FuzzyName> = Vec::new();
    let mut i: usize = 0;
    while i < pieces.len()
        invariant
            pieces@.len() == split_on(fuzzy@, ',').len(),
            forall|k: int| 0 <= k < pieces@.len() ==> (#[trigger] pieces@[k])@ == split_on(fuzzy@, ',')[k],
            i <= pieces@.len(),
            names@.len() == i,
            forall|k: int|
                0 <= k < i ==> match #[trigger] names@[k] {
                    FuzzyName::All => spec_fuzzy_name(split_on(fuzzy@, ',')[k]) is None,
                    FuzzyName::Rule(r) => spec_fuzzy_name(split_on(fuzzy@, ',')[k]) == Some(r@),
                },
        decreases pieces.len() - i,
    {
        let piece = pieces[i].clone();
        proof {
            assert(pieces@[i as int]@ == split_on(fuzzy@, ',')[i as int]);
        }
        if str_eq(piece.as_str(), "all") {
            names.push(FuzzyName::All);
        } else {
            names.push(FuzzyName::Rule(piece));
        }
        i = i + 1;
    }
    names
}

/// The error of a fuzzy rule the engine does not know.
pub fn unknown_fuzzy_rule(name: &str) -> (message: String)
    ensures
        message@ == "不认识的模糊音规则 "@ + name@,
{
    let mut message = String::from_str("不认识的模糊音规则 ");
    message.append(name);
    message
}

/// What `lookup` reads of its arguments.
pub struct LookupArgs {
    /// `input` when it is a string.
    pub input: Option<String>,
    /// `limit` when it is an unsigned integer.
    pub limit: Option<u64>,
    /// `fuzzy` when it is a string.
    pub fuzzy: Option<String>,
}

/// A checked `lookup` call.
pub struct LookupPlan {
    /// The pinyin to look up.
    pub input: String,
    /// How many candidates to return.
    pub limit: usize,
    /// The fuzzy rules to set first, when given.
    pub fuzzy: Option<Vec<FuzzyName>>,
}

/// Checks the arguments of `lookup`: `input` is required; the limit is
/// `lookup_limit` of the requested one; `fuzzy`, when given, is split into
/// its names.
pub fn lookup_plan(args: LookupArgs) -> (plan: Result<LookupPlan, String>)
    ensures
        args.input is None ==> (plan matches Err(m) && m@ == "lookup 需要 input（拼音串）"@),
        args.input matches Some(input) ==> (plan matches Ok(p) && p.input@ == input@ && p.limit
            == (match args.limit {
            Some(l) => if l < 50 {
                l
            } else {
                50
            },
            None => 10,
        }) && (args.fuzzy is None <==> p.fuzzy is None) && (args.fuzzy matches Some(f) ==> (
        p.fuzzy matches Some(names) && names@.len() == split_on(f@, ',').len() && forall|i: int|
            0 <= i < names@.len() ==> match #[trigger] names@[i] {
                FuzzyName::All => spec_fuzzy_name(split_on(f@, ',')[i]) is None,
                FuzzyName::Rule(r) => spec_fuzzy_name(split_on(f@, ',')[i]) == Some(r@),
            }))),
{
    match args.input {
        None => Err(String::from_str("lookup 需要 input（拼音串）")),
        Some(input) => {
            let limit = lookup_limit(args.limit);
            let fuzzy = match &args.fuzzy {
                Some(f) => Some(fuzzy_names(f.as_str())),
                None => None,
            };
            Ok(LookupPlan { input, limit, fuzzy })
        },
    }
}

/// The word of a `gloss` call: required.
pub fn gloss_word(word: Option<String>) -> (checked: Result<String, String>)
    ensures
        word is None ==> (checked matches Err(m) && m@ == "gloss 需要 word（要查的词）"@),
        word matches Some(w) ==> (checked matches Ok(c) && c@ == w@),
{
    match word {
        None => Err(String::from_str("gloss 需要 word（要查的词）")),
        Some(w) => Ok(w),
    }
}

/// What the server does with a message.
pub enum Step<V> {
    /// Answer request `id` with the result of `method` (`params` for tools/call).
    Answer { id: V, method: Method, params: Option<V> },
    /// Answer with an error.
    Fail(ErrorReply<V>),
    /// A notification: no reply.
    Silent,
}

/// The server's handling of one message: an invalid request is answered
/// with an error (even without an id, then with `null`); a notification is
/// not answered, whatever its method; an unknown method is answered with
/// "method not found"; every other request is answered with its method's
/// result.
pub fn request_step<V>(msg: Message<V>) -> (step: Step<V>)
    ensures
        msg.method is None ==> (step matches Step::Fail(e) && e.id == member_value(msg.id) && e.code
            == INVALID_REQUEST && e.message@ == "请求缺少 method"@),
        msg.method is Some && member_value(msg.id) is None ==> step is Silent,
        msg.method matches Some(m) ==> (member_value(msg.id) matches Some(id) ==> (
        spec_route_method(m@) == Method::Unknown ==> (step matches Step::Fail(e) && e.id == Some(id)
            && e.code == METHOD_NOT_FOUND && e.message@ == "未知方法 "@ + m@))),
        msg.method matches Some(m) ==> (member_value(msg.id) matches Some(id) ==> (
        spec_route_method(m@) != Method::Unknown ==> step == (Step::Answer {
            id,
            method: spec_route_method(m@),
            params: member_value(msg.params),
        }))),
{
    match parse_request(msg) {
        Err(Some(e)) => Step::Fail(e),
        Err(None) => Step::Silent,
        Ok(request) => match request.id {
            None => Step::Silent,
            Some(id) => {
                let method = route_method(request.method.as_str());
                match method {
                    Method::Unknown => {
                        let (code, message) = unknown_method(request.method.as_str());
                        Step::Fail(ErrorReply { id: Some(id), code, message })
                    },
                    _ => Step::Answer { id, method, params: request.params },
                }
            },
        },
    }
}

/// The error answer of a failed tool call.
pub fn tool_failure<V>(id: V, message: String) -> (reply: ErrorReply<V>)
    ensures
        reply.id == Some(id),
        reply.code == TOOL_FAILED,
        reply.message@ == message@,
{
    ErrorReply { id: Some(id), code: TOOL_FAILED, message }
}

} // verus!
