use qingjian_shell::mcp::{
    fuzzy_names, gloss_word, kind_name, lookup_limit, lookup_plan, needs_reply, parse_request,
    request_step, route_method, route_tool, tool_failure, unknown_fuzzy_rule, unknown_method,
    CandidateKind, FuzzyName, LookupArgs, Member, Message, Method, Step, Tool, INVALID_REQUEST,
    METHOD_NOT_FOUND, TOOL_FAILED,
};

#[derive(Debug, Clone, PartialEq)]
enum Json {
    Num(i64),
    Text(&'static str),
}

#[test]
fn parse_request_splits_id_and_params() {
    let msg = Message {
        method: Some("tools/call".to_string()),
        id: Member::Value(Json::Num(7)),
        params: Member::Value(Json::Text("lookup")),
    };
    let req = parse_request(msg).ok().unwrap();
    assert_eq!(req.id, Some(Json::Num(7)));
    assert_eq!(req.method, "tools/call");
    assert_eq!(req.params, Some(Json::Text("lookup")));
}

#[test]
fn notification_has_no_id() {
    let msg: Message<Json> = Message {
        method: Some("notifications/initialized".to_string()),
        id: Member::Absent,
        params: Member::Absent,
    };
    let req = parse_request(msg).ok().unwrap();
    assert!(req.id.is_none());
    assert!(!needs_reply(&req));
    // a null id is no id either
    let msg: Message<Json> = Message {
        method: Some("ping".to_string()),
        id: Member::Null,
        params: Member::Null,
    };
    let req = parse_request(msg).ok().unwrap();
    assert!(req.id.is_none());
    assert!(req.params.is_none());
}

#[test]
fn a_message_without_method_is_an_invalid_request() {
    let msg = Message {
        method: None,
        id: Member::Value(Json::Num(3)),
        params: Member::Absent,
    };
    let error = parse_request(msg).err().unwrap().unwrap();
    assert_eq!(error.id, Some(Json::Num(3)));
    assert_eq!(error.code, INVALID_REQUEST);
    assert_eq!(error.code, -32600);
    assert_eq!(error.message, "请求缺少 method");
    let msg: Message<Json> = Message {
        method: None,
        id: Member::Absent,
        params: Member::Absent,
    };
    let error = parse_request(msg).err().unwrap().unwrap();
    assert_eq!(error.id, None);
}

#[test]
fn methods_are_routed_by_name() {
    assert!(route_method("initialize") == Method::Initialize);
    assert!(route_method("tools/list") == Method::ToolsList);
    assert!(route_method("tools/call") == Method::ToolsCall);
    assert!(route_method("ping") == Method::Ping);
    assert!(route_method("not-a-method") == Method::Unknown);
    let (code, message) = unknown_method("not-a-method");
    assert_eq!(code, METHOD_NOT_FOUND);
    assert_eq!(code, -32601);
    assert_eq!(message, "未知方法 not-a-method");
}

#[test]
fn tool_calls_are_routed_by_name() {
    assert!(route_tool(Some("lookup")) == Ok(Tool::Lookup));
    assert!(route_tool(Some("gloss")) == Ok(Tool::Gloss));
    assert_eq!(route_tool(None).err().unwrap(), "tools/call 缺少 name");
    assert_eq!(route_tool(Some("spell")).err().unwrap(), "不认识的工具 spell");
}

#[test]
fn lookup_limit_defaults_to_ten_and_stops_at_fifty() {
    assert_eq!(lookup_limit(None), 10);
    assert_eq!(lookup_limit(Some(2)), 2);
    assert_eq!(lookup_limit(Some(50)), 50);
    assert_eq!(lookup_limit(Some(51)), 50);
    assert_eq!(lookup_limit(Some(u64::MAX)), 50);
    assert_eq!(lookup_limit(Some(0)), 0);
}

#[test]
fn candidate_kinds_have_stable_names() {
    assert_eq!(kind_name(CandidateKind::Chinese), "chinese");
    assert_eq!(kind_name(CandidateKind::Code), "code");
    assert_eq!(kind_name(CandidateKind::English), "english");
    assert_eq!(kind_name(CandidateKind::Cloud), "cloud");
    assert_eq!(kind_name(CandidateKind::Shortcut), "shortcut");
    assert_eq!(kind_name(CandidateKind::Custom(9)), "custom");
    assert_eq!(kind_name(CandidateKind::Emoji), "emoji");
    assert_eq!(kind_name(CandidateKind::Sentence), "sentence");
}

fn names(fuzzy: &str) -> Vec<Option<String>> {
    fuzzy_names(fuzzy)
        .into_iter()
        .map(|n| match n {
            FuzzyName::All => None,
            FuzzyName::Rule(r) => Some(r),
        })
        .collect()
}

#[test]
fn fuzzy_argument_is_split_at_commas() {
    assert_eq!(names("z-zh,c-ch"), vec![Some("z-zh".to_string()), Some("c-ch".to_string())]);
    assert_eq!(names("all"), vec![None]);
    assert_eq!(names("n-l,all,"), vec![Some("n-l".to_string()), None, Some(String::new())]);
    assert_eq!(unknown_fuzzy_rule("x-y"), "不认识的模糊音规则 x-y");
}

#[test]
fn lookup_needs_an_input() {
    let missing = lookup_plan(LookupArgs { input: None, limit: Some(3), fuzzy: None });
    assert_eq!(missing.err().unwrap(), "lookup 需要 input（拼音串）");
    let plan = lookup_plan(LookupArgs {
        input: Some("ni'hao".to_string()),
        limit: Some(80),
        fuzzy: Some("all".to_string()),
    })
    .ok()
    .unwrap();
    assert_eq!(plan.input, "ni'hao");
    assert_eq!(plan.limit, 50);
    assert!(matches!(plan.fuzzy.as_deref(), Some([FuzzyName::All])));
    let plain = lookup_plan(LookupArgs { input: Some("ni".to_string()), limit: None, fuzzy: None })
        .ok()
        .unwrap();
    assert_eq!(plain.limit, 10);
    assert!(plain.fuzzy.is_none());
}

#[test]
fn gloss_needs_a_word() {
    assert_eq!(gloss_word(None), Err("gloss 需要 word（要查的词）".to_string()));
    assert_eq!(gloss_word(Some("青简".to_string())), Ok("青简".to_string()));
}

fn message(method: Option<&str>, id: Member<Json>) -> Message<Json> {
    Message { method: method.map(str::to_string), id, params: Member::Absent }
}

#[test]
fn requests_are_answered_notifications_are_not() {
    match request_step(message(Some("ping"), Member::Value(Json::Num(1)))) {
        Step::Answer { id, method, params } => {
            assert_eq!(id, Json::Num(1));
            assert_eq!(method, Method::Ping);
            assert!(params.is_none());
        }
        _ => panic!("ping is answered"),
    }
    assert!(matches!(
        request_step(message(Some("notifications/initialized"), Member::Absent)),
        Step::Silent
    ));
    assert!(matches!(request_step(message(Some("ping"), Member::Null)), Step::Silent));
    match request_step(message(Some("nope"), Member::Value(Json::Text("a")))) {
        Step::Fail(e) => {
            assert_eq!(e.id, Some(Json::Text("a")));
            assert_eq!(e.code, METHOD_NOT_FOUND);
            assert_eq!(e.message, "未知方法 nope");
        }
        _ => panic!("unknown methods fail"),
    }
    match request_step(message(None, Member::Absent)) {
        Step::Fail(e) => {
            assert_eq!(e.id, None);
            assert_eq!(e.code, INVALID_REQUEST);
        }
        _ => panic!("a message without method fails"),
    }
}

#[test]
fn failed_tool_calls_use_their_own_code() {
    let reply = tool_failure(Json::Num(3), "查询失败: x".to_string());
    assert_eq!(reply.id, Some(Json::Num(3)));
    assert_eq!(reply.code, TOOL_FAILED);
    assert_eq!(reply.message, "查询失败: x");
}
