use hearth::agent::{spawn_failed_state, start_step, StartStep, START_POLLS};
use hearth::agent::{
    assistant_content, chat_url, describe_call, execution_error, find_port_listener_pid,
    health_url, is_model_server_command, loaded_model, lsof_pid, parse_tool_call, pgrep_pid,
    pid_file_pid, request_refused_error, resolve_backend, server_pattern, status_after_probe,
    steps_exceeded_error, AgentRun, AiServerState, ArgValue, CallStep, ReceivedCall, ToolCall,
    ToolKind, TurnOutcome, PORT,
};

fn args(pairs: &[(&str, ArgValue)]) -> Vec<(String, ArgValue)> {
    pairs.iter().map(|(k, v)| (k.to_string(), v.clone())).collect()
}

fn s(v: &str) -> ArgValue {
    ArgValue::Str(v.to_string())
}

#[test]
fn parses_openai_tool_call_shape() {
    let parsed = parse_tool_call(
        Some("call_abc".to_string()),
        Some("create_project".to_string()),
        Some(args(&[("name", s("pickat")), ("priority", s("P0"))])),
    )
    .expect("parse");
    assert_eq!(parsed.id, "call_abc");
    assert_eq!(parsed.name, "create_project");
    assert_eq!(parsed.arguments[0], ("name".to_string(), s("pickat")));
    assert_eq!(parsed.arguments[1], ("priority".to_string(), s("P0")));
}

#[test]
fn parse_tool_call_tolerates_missing_arguments() {
    let parsed = parse_tool_call(Some("x".to_string()), Some("list_projects".to_string()), None)
        .expect("parse");
    assert_eq!(parsed.name, "list_projects");
    assert!(parsed.arguments.is_empty());
}

#[test]
fn parse_tool_call_rejects_without_id_or_name() {
    assert!(parse_tool_call(None, Some("x".to_string()), None).is_none());
    assert!(parse_tool_call(Some("x".to_string()), None, None).is_none());
}

#[test]
fn describe_known_mutations() {
    let c = ToolCall {
        id: "i".into(),
        name: "create_project".into(),
        arguments: args(&[("name", s("pickat")), ("priority", s("P0"))]),
    };
    assert_eq!(describe_call(&c), "프로젝트 'pickat' (P0) 생성");

    let d = ToolCall {
        id: "i".into(),
        name: "delete_project".into(),
        arguments: args(&[("id", ArgValue::Int(7))]),
    };
    assert_eq!(describe_call(&d), "프로젝트 #7 삭제");
}

#[test]
fn describe_defaults_priority_to_p2_when_omitted() {
    let c = ToolCall {
        id: "i".into(),
        name: "create_project".into(),
        arguments: args(&[("name", s("pickat"))]),
    };
    assert_eq!(describe_call(&c), "프로젝트 'pickat' (P2) 생성");
}

#[test]
fn describe_falls_back_to_spaced_name() {
    let c = ToolCall {
        id: "i".into(),
        name: "focus_project".into(),
        arguments: vec![],
    };
    assert_eq!(describe_call(&c), "focus project");
}

#[test]
fn describe_memo_mutations() {
    let create = ToolCall {
        id: "i".into(),
        name: "create_memo".into(),
        arguments: args(&[("content", s("회의록 정리"))]),
    };
    assert_eq!(describe_call(&create), "메모 추가: '회의록 정리'");

    let del = ToolCall {
        id: "i".into(),
        name: "delete_memo".into(),
        arguments: args(&[("id", ArgValue::Int(12))]),
    };
    assert_eq!(describe_call(&del), "메모 #12 삭제");
}

#[test]
fn describe_memo_truncates_long_content() {
    let long = "가".repeat(60);
    let c = ToolCall {
        id: "i".into(),
        name: "create_memo".into(),
        arguments: args(&[("content", ArgValue::Str(long))]),
    };
    let label = describe_call(&c);
    assert!(label.ends_with("…'"), "got: {}", label);
    assert_eq!(label, format!("메모 추가: '{}…'", "가".repeat(40)));
}

#[test]
fn describe_schedule_mutations() {
    let with_time = ToolCall {
        id: "i".into(),
        name: "create_schedule".into(),
        arguments: args(&[
            ("date", s("2026-04-20")),
            ("time", s("15:00")),
            ("description", s("디자인 리뷰")),
        ]),
    };
    assert_eq!(
        describe_call(&with_time),
        "일정 2026-04-20 15:00 · 디자인 리뷰 등록"
    );

    let date_only = ToolCall {
        id: "i".into(),
        name: "create_schedule".into(),
        arguments: args(&[("date", s("2026-04-20"))]),
    };
    assert_eq!(describe_call(&date_only), "일정 2026-04-20 등록");

    let del = ToolCall {
        id: "i".into(),
        name: "delete_schedule".into(),
        arguments: args(&[("id", ArgValue::Int(7))]),
    };
    assert_eq!(describe_call(&del), "일정 #7 삭제");
}

#[test]
fn describe_uses_placeholders_for_missing_or_mistyped_arguments() {
    let c = ToolCall {
        id: "i".into(),
        name: "update_memo".into(),
        arguments: args(&[("id", s("12"))]),
    };
    assert_eq!(describe_call(&c), "메모 #-1 수정");
    let c = ToolCall { id: "i".into(), name: "create_schedule".into(), arguments: vec![] };
    assert_eq!(describe_call(&c), "일정 ? 등록");
    let c = ToolCall {
        id: "i".into(),
        name: "create_schedule".into(),
        arguments: args(&[("date", s("2026-04-20")), ("time", s(""))]),
    };
    assert_eq!(describe_call(&c), "일정 2026-04-20 등록");
}

#[test]
fn endpoints_use_the_local_port() {
    assert_eq!(PORT, 18080);
    assert_eq!(health_url(), "http://127.0.0.1:18080/v1/models");
    assert_eq!(chat_url(), "http://127.0.0.1:18080/v1/chat/completions");
    assert_eq!(server_pattern(18080), "mlx_lm\\.server.*--port 18080");
}

fn call(id: &str, name: &str) -> ToolCall {
    ToolCall { id: id.into(), name: name.into(), arguments: vec![] }
}

fn received(id: &str, name: &str, kind: Option<ToolKind>) -> ReceivedCall {
    ReceivedCall { raw_id: Some(id.into()), call: Some(call(id, name)), kind }
}

#[test]
fn reply_without_tool_calls_settles_with_gathered_intents() {
    let mut run = AgentRun::begin();
    let first = run.on_reply(
        "".to_string(),
        vec![received("a", "focus_project", Some(ToolKind::ClientIntent))],
    );
    match first {
        TurnOutcome::Continue { steps } => {
            assert_eq!(steps.len(), 1);
            assert!(matches!(&steps[0], CallStep::Acknowledge { id, name } if id == "a" && name == "focus_project"));
        }
        other => panic!("unexpected {:?}", other),
    }
    match run.on_reply("done".to_string(), vec![]) {
        TurnOutcome::Final { reply, client_intents } => {
            assert_eq!(reply, "done");
            assert_eq!(client_intents.len(), 1);
            assert_eq!(client_intents[0].name, "focus_project");
        }
        other => panic!("unexpected {:?}", other),
    }
    assert_eq!(run.steps_done, 2);
}

#[test]
fn mutation_pauses_and_skips_the_rest_of_the_batch() {
    let mut run = AgentRun::begin();
    let calls = vec![
        received("r1", "list_projects", Some(ToolKind::Read)),
        ReceivedCall { raw_id: Some("bad".into()), call: None, kind: None },
        received("u1", "no_such_tool", None),
        ReceivedCall {
            raw_id: Some("m1".into()),
            call: Some(ToolCall {
                id: "m1".into(),
                name: "delete_memo".into(),
                arguments: vec![("id".to_string(), ArgValue::Int(3))],
            }),
            kind: Some(ToolKind::Mutation),
        },
        received("r2", "list_memos", Some(ToolKind::Read)),
        ReceivedCall { raw_id: None, call: None, kind: None },
        received("m2", "delete_project", Some(ToolKind::Mutation)),
    ];
    match run.on_reply("".to_string(), calls) {
        TurnOutcome::Pending { steps, call, label, skipped_ids } => {
            assert_eq!(steps.len(), 3);
            assert!(matches!(&steps[0], CallStep::RunRead(c) if c.id == "r1"));
            assert!(matches!(&steps[1], CallStep::Malformed { raw_id: Some(id) } if id == "bad"));
            assert!(matches!(&steps[2], CallStep::UnknownTool(c) if c.name == "no_such_tool"));
            assert_eq!(call.id, "m1");
            assert_eq!(label, "메모 #3 삭제");
            assert_eq!(skipped_ids, vec!["r2".to_string(), "m2".to_string()]);
        }
        other => panic!("unexpected {:?}", other),
    }
}

#[test]
fn run_stops_after_eight_requests() {
    let mut run = AgentRun::begin();
    for _ in 0..8 {
        assert!(run.may_request());
        let _ = run.on_reply("".into(), vec![received("r", "list_projects", Some(ToolKind::Read))]);
    }
    assert!(!run.may_request());
    assert_eq!(steps_exceeded_error(), "AI agent exceeded 8 steps without settling");
}

#[test]
fn assistant_turn_content_and_errors() {
    assert_eq!(assistant_content(&String::new()), None);
    assert_eq!(assistant_content(&"hi".to_string()), Some("hi".to_string()));
    assert_eq!(
        request_refused_error("400 Bad Request", Some("bad model".into()), "{}"),
        "AI request returned 400 Bad Request: bad model"
    );
    assert_eq!(
        request_refused_error("502 Bad Gateway", None, "oops"),
        "AI request returned 502 Bad Gateway: oops"
    );
    assert_eq!(execution_error("delete_memo", "no row"), "delete_memo 실행 실패: no row");
}

#[test]
fn server_status_after_a_probe() {
    assert_eq!(status_after_probe(true, false, AiServerState::Idle), AiServerState::Running { port: 0 });
    assert_eq!(status_after_probe(false, true, AiServerState::Idle), AiServerState::Running { port: 18080 });
    assert_eq!(status_after_probe(false, false, AiServerState::Running { port: 18080 }), AiServerState::Idle);
    assert_eq!(status_after_probe(false, false, AiServerState::Starting), AiServerState::Starting);
    assert_eq!(
        status_after_probe(false, false, AiServerState::Failed { error: "x".into() }),
        AiServerState::Failed { error: "x".into() }
    );
}

#[test]
fn backend_for_each_provider() {
    let b = resolve_backend("openai", Some("sk".into()), None).unwrap();
    assert_eq!(b.url, "https://api.openai.com/v1/chat/completions");
    assert_eq!(b.bearer, Some("sk".to_string()));
    assert_eq!(b.model, "gpt-5.4-mini");
    assert_eq!(
        resolve_backend("openai", None, Some("m".into())).unwrap_err(),
        "OpenAI API 키가 설정되지 않았습니다. 설정에서 키를 입력해 주세요."
    );
    let l = resolve_backend("local", None, Some("gemma".into())).unwrap();
    assert_eq!(l.url, "http://127.0.0.1:18080/v1/chat/completions");
    assert_eq!(l.bearer, None);
    assert_eq!(l.model, "gemma");
    assert_eq!(
        resolve_backend("local", None, None).unwrap_err(),
        "AI 서버를 찾을 수 없습니다. 먼저 서버를 시작하세요."
    );
}

#[test]
fn process_listing_is_read_like_the_tools_print_it() {
    assert_eq!(pgrep_pid("\n  \n 4242 \n99\n"), Some("4242".to_string()));
    assert_eq!(pgrep_pid(""), None);
    assert_eq!(lsof_pid("f12\np777\r\nn*:18080\n"), Some("777".to_string()));
    assert_eq!(lsof_pid("ppp31"), Some("31".to_string()));
    assert_eq!(lsof_pid("f1\n"), None);
    assert_eq!(pid_file_pid(" 123\n"), Some("123".to_string()));
    assert_eq!(pid_file_pid(" \n"), None);
    assert!(is_model_server_command("python -m mlx_lm.server --port 18080"));
    assert!(!is_model_server_command("python -m http.server"));
    assert_eq!(
        loaded_model("python -m mlx_lm.server --model  gemma-3 --port 18080"),
        Some("gemma-3".to_string())
    );
    assert_eq!(loaded_model("python -m mlx_lm.server --model"), None);
    assert_eq!(loaded_model("python -m mlx_lm.server"), None);
}

#[test]
fn listener_pid_prefers_a_verified_pid_file() {
    assert_eq!(
        find_port_listener_pid(Some("1".into()), true, Some("2".into()), Some("3".into())),
        Some("1".to_string())
    );
    assert_eq!(
        find_port_listener_pid(Some("1".into()), false, Some("2".into()), Some("3".into())),
        Some("2".to_string())
    );
    assert_eq!(find_port_listener_pid(None, false, None, Some("3".into())), Some("3".to_string()));
    assert_eq!(find_port_listener_pid(None, false, None, None), None);
}

#[test]
fn server_start_waits_then_gives_up() {
    assert_eq!(start_step(1, true), StartStep::Running);
    assert_eq!(start_step(1, false), StartStep::Wait);
    assert_eq!(start_step(119, false), StartStep::Wait);
    assert_eq!(
        start_step(START_POLLS, false),
        StartStep::GiveUp("AI server failed to start within 120s".to_string())
    );
    assert_eq!(
        spawn_failed_state("no bash"),
        AiServerState::Failed { error: "spawn failed: no bash".to_string() }
    );
}
