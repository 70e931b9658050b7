use zhi::agent::{offered_tools, AgentEvent, AgentKind, PermissionDecision};
use zhi::message::{FunctionCall, Message, Role, ToolCall};
use zhi::provider::{Error as ProviderError, OpenAiCompatible};
use zhi::session::Session;
use zhi::stream::{
    line_payload, ChunkChoice, DeltaToolCall, SseDecoder, StreamEvent, ToolCallAssembler,
};
use zhi::tool::{Error as ToolError, ToolRegistry};
use zhi::turn::{SnapshotOutcome, Turn, TurnAction, TurnInput, BLOCKED, DENIED, MAX_STEPS};

fn call(id: &str, name: &str, arguments: &str) -> ToolCall {
    ToolCall {
        id: id.to_string(),
        kind: "function".to_string(),
        function: FunctionCall { name: name.to_string(), arguments: arguments.to_string() },
    }
}

fn turn(agent: AgentKind, can_save: bool) -> Turn {
    Turn::new(agent, ToolRegistry::with_builtins(), &vec![Message::user("hola")], can_save)
}

fn delta(s: &str, now: u64) -> TurnInput {
    TurnInput::Event { event: StreamEvent::Delta(s.to_string()), now }
}

fn reasoning(s: &str, now: u64) -> TurnInput {
    TurnInput::Event { event: StreamEvent::Reasoning(s.to_string()), now }
}

fn calls(list: Vec<ToolCall>, now: u64) -> TurnInput {
    TurnInput::Event { event: StreamEvent::ToolCalls(list), now }
}

fn shown(events: &[AgentEvent]) -> Vec<String> {
    events
        .iter()
        .map(|e| match e {
            AgentEvent::Delta(s) => format!("delta {s}"),
            AgentEvent::ReasoningDelta(s) => format!("thought {s}"),
            AgentEvent::ReasoningFinished { duration_ms } => format!("thought took {duration_ms}"),
            AgentEvent::StepSnapshot { hash, message_index } => {
                format!("snapshot {hash} {message_index}")
            }
            AgentEvent::ToolStarted { name, arguments } => format!("start {name} {arguments}"),
            AgentEvent::ToolFinished { name, output, ok } => format!("end {name} {ok} {output}"),
            AgentEvent::Turn(m) => format!("turn {}", m.len()),
        })
        .collect()
}

#[test]
fn messages_have_their_parts() {
    let m = Message::assistant("hola").with_reasoning("pienso");
    assert_eq!(m.role, Role::Assistant);
    assert_eq!(m.reasoning.as_deref(), Some("pienso"));
    assert_eq!(Message::user("x").with_reasoning("").reasoning, None);
    let m = Message::assistant_tool_calls("", vec![call("1", "glob", "{}")]);
    assert_eq!(m.tool_calls.len(), 1);
    let m = Message::tool_result("1", "salida");
    assert_eq!(m.role, Role::Tool);
    assert_eq!(m.tool_call_id.as_deref(), Some("1"));
    assert_eq!(Message::system("s").role, Role::System);
}

#[test]
fn a_session_holds_its_messages() {
    let mut s = Session::new();
    assert!(s.is_empty());
    s.push_user("hola");
    s.extend(vec![Message::assistant("qué tal")]);
    let h = s.history();
    assert_eq!(h.len(), 2);
    assert_eq!(h[0].content, "hola");
    assert_eq!(h[1].role, Role::Assistant);
    assert!(!s.is_empty());
    assert!(Session::default().is_empty());
    assert!(Session::from_messages(vec![Message::system("s"), Message::tool_result("1", "x")]).is_empty());
    assert!(!Session::from_messages(vec![Message::system("s"), Message::assistant("a")]).is_empty());
    assert_eq!(Session::from_messages(h).clone().history().len(), 2);
}

#[test]
fn payloads_are_cut_out_of_lines() {
    assert_eq!(line_payload("data: {\"a\":1}").as_deref(), Some("{\"a\":1}"));
    assert_eq!(line_payload("data:  x "), Some("x".to_string()));
    assert_eq!(line_payload("data: [DONE]"), None);
    assert_eq!(line_payload(": comment"), None);
    assert_eq!(line_payload(""), None);
}

#[test]
fn chunks_may_be_cut_anywhere() {
    let text = "data: uno\n\ndata: dos\r\n: x\ndata: [DONE]\ndata: tres\n";
    let whole = SseDecoder::new().feed(text);
    assert_eq!(whole, ["uno", "dos", "tres"]);
    for cut in 0..=text.len() {
        let mut d = SseDecoder::new();
        let mut got = d.feed(&text[..cut]);
        got.extend(d.feed(&text[cut..]));
        assert_eq!(got, whole, "{cut}");
    }
    let mut d = SseDecoder::new();
    assert!(d.feed("data: sin fin").is_empty());
    assert_eq!(d.feed_bytes(&b"al\n".to_vec()), ["sin final"]);
    assert_eq!(d.feed_bytes(&vec![b'd', b'a', b't', b'a', b':', 0xff, b'\n']), ["\u{fffd}"]);
}

fn piece(index: u32, id: Option<&str>, name: Option<&str>, args: Option<&str>) -> DeltaToolCall {
    DeltaToolCall {
        index,
        id: id.map(str::to_string),
        name: name.map(str::to_string),
        arguments: args.map(str::to_string),
    }
}

fn chunk(pieces: Vec<DeltaToolCall>, finish: Option<&str>) -> ChunkChoice {
    ChunkChoice {
        content: None,
        reasoning: None,
        tool_calls: pieces,
        finish_reason: finish.map(str::to_string),
    }
}

#[test]
fn calls_are_put_together_from_pieces() {
    let mut a = ToolCallAssembler::new();
    assert!(a.apply(chunk(vec![piece(1, Some("b"), Some("grep"), None)], None)).is_empty());
    assert!(a.apply(chunk(vec![piece(0, Some("a"), Some("bash"), Some("{\"com"))], None)).is_empty());
    assert!(a.apply(chunk(vec![piece(0, None, None, Some("mand\":1}"))], None)).is_empty());
    let events = a.apply(chunk(vec![], Some("tool_calls")));
    match &events[..] {
        [StreamEvent::ToolCalls(c)] => {
            assert_eq!(c.len(), 2);
            assert_eq!(c[0].id, "a");
            assert_eq!(c[0].kind, "function");
            assert_eq!(c[0].function.name, "bash");
            assert_eq!(c[0].function.arguments, "{\"command\":1}");
            assert_eq!(c[1].function.name, "grep");
        }
        other => panic!("{other:?}"),
    }
    let events = a.apply(ChunkChoice {
        content: Some("hola".to_string()),
        reasoning: Some("pienso".to_string()),
        tool_calls: vec![],
        finish_reason: None,
    });
    assert_eq!(events.len(), 2);
    assert!(events.iter().any(|e| matches!(e, StreamEvent::Delta(s) if s == "hola")));
    assert!(events.iter().any(|e| matches!(e, StreamEvent::Reasoning(s) if s == "pienso")));
}

#[test]
fn requests_are_prepared_for_their_provider() {
    let client = OpenAiCompatible::new("k", "https://api.deepseek.com");
    assert_eq!(client.api_key(), "k");
    assert_eq!(client.endpoint(), "https://api.deepseek.com/chat/completions");
    let history = || vec![Message::user("u"), Message::assistant("a")];
    let r = client.request("m", history(), vec![]);
    assert_eq!(r.model, "m");
    assert!(r.stream);
    assert!(r.tools.is_none());
    assert_eq!(r.messages[0].reasoning, None);
    assert_eq!(r.messages[1].reasoning.as_deref(), Some(""));
    let other = OpenAiCompatible::new("k", "https://api.openai.com/v1");
    let tools = offered_tools(AgentKind::Plan, &ToolRegistry::with_builtins());
    let r = other.request("m", history(), tools);
    assert_eq!(r.messages[1].reasoning, None);
    assert_eq!(r.tools.unwrap().len(), 4);
}

#[test]
fn providers_fail_with_texts() {
    let s = || "x".to_string();
    assert_eq!(ProviderError::Http(s()).text(), "error de transporte HTTP: x");
    assert_eq!(
        ProviderError::Decode(s()).text(),
        "error decodificando la respuesta del proveedor: x"
    );
    assert_eq!(ProviderError::Auth(s()).text(), "error de auth: x");
    assert_eq!(ProviderError::Oauth(s()).text(), "error del flujo OAuth: x");
}

#[test]
fn a_turn_without_tools() {
    let mut t = turn(AgentKind::Build, true);
    assert!(matches!(t.action(), TurnAction::CallModel));
    assert_eq!(t.messages()[0].role, Role::System);
    assert_eq!(t.messages()[1].content, "hola");
    assert!(t.advance(TurnInput::Opened).is_empty());
    assert!(matches!(t.action(), TurnAction::AwaitEvent));
    assert_eq!(shown(&t.advance(reasoning("mmm", 1_000_000))), ["thought mmm"]);
    assert_eq!(shown(&t.advance(delta("ho", 5_000_000))), ["thought took 4", "delta ho"]);
    assert_eq!(shown(&t.advance(delta("la", 6_000_000))), ["delta la"]);
    assert_eq!(shown(&t.advance(TurnInput::Closed { now: 7_000_000 })), ["turn 1"]);
    assert!(matches!(t.action(), TurnAction::Stop));
    assert_eq!(t.appended()[0].content, "hola");
    assert_eq!(t.appended()[0].reasoning.as_deref(), Some("mmm"));
}

#[test]
fn a_thought_without_a_reply_is_closed_too() {
    let mut t = turn(AgentKind::Build, true);
    t.advance(TurnInput::Opened);
    t.advance(reasoning("mmm", 0));
    assert_eq!(
        shown(&t.advance(TurnInput::Closed { now: 2_000_000 })),
        ["thought took 2", "turn 0"]
    );
}

#[test]
fn effects_need_consent_and_a_snapshot() {
    let mut t = turn(AgentKind::Build, true);
    t.advance(TurnInput::Opened);
    t.advance(calls(vec![call("1", "bash", "{\"command\":\"ls\"}")], 0));
    t.advance(TurnInput::Closed { now: 0 });
    assert!(matches!(t.action(), TurnAction::TakeSnapshot));
    let events = t.advance(TurnInput::Snapshot(SnapshotOutcome::Taken("abc".to_string())));
    assert_eq!(shown(&events), ["snapshot abc 0"]);
    match t.action() {
        TurnAction::AskPermission(p) => assert_eq!(p.tool_name, "bash"),
        other => panic!("{other:?}"),
    }
    let events = t.advance(TurnInput::Decision(PermissionDecision::Allow));
    assert_eq!(shown(&events), ["start bash {\n  \"command\": \"ls\"\n}"]);
    match t.action() {
        TurnAction::RunTool { name, arguments } => {
            assert_eq!(name, "bash");
            assert_eq!(arguments, "{\"command\":\"ls\"}");
        }
        other => panic!("{other:?}"),
    }
    let events = t.advance(TurnInput::Finished(Ok("a.txt".to_string())));
    assert_eq!(shown(&events), ["end bash true a.txt"]);
    assert!(matches!(t.action(), TurnAction::CallModel));
    assert_eq!(t.appended().len(), 2);
    assert_eq!(t.appended()[1].tool_call_id.as_deref(), Some("1"));

    t.advance(TurnInput::Opened);
    t.advance(calls(vec![call("2", "write_file", "{}")], 0));
    assert!(t.advance(TurnInput::Closed { now: 0 }).is_empty());
    assert!(matches!(t.action(), TurnAction::AskPermission(_)), "one snapshot for the turn");
    let events = t.advance(TurnInput::Decision(PermissionDecision::Deny));
    assert_eq!(shown(&events), [format!("end write_file false {DENIED}")]);
}

#[test]
fn a_plan_runs_no_tools_with_effects() {
    let mut t = turn(AgentKind::Plan, false);
    t.advance(TurnInput::Opened);
    t.advance(calls(vec![call("1", "bash", "{}"), call("2", "glob", "{}")], 0));
    let events = t.advance(TurnInput::Closed { now: 0 });
    assert_eq!(
        shown(&events),
        [format!("end bash false {BLOCKED}"), "start glob {}".to_string()]
    );
    assert!(matches!(t.action(), TurnAction::RunTool { name, .. } if name == "glob"));
    let events = t.advance(TurnInput::Finished(Err(ToolError::Edit("no".to_string()))));
    assert_eq!(shown(&events), ["end glob false Error: no se pudo aplicar la edición: no"]);
}

#[test]
fn unknown_tools_are_answered() {
    let mut t = turn(AgentKind::Build, true);
    t.advance(TurnInput::Opened);
    t.advance(calls(vec![call("1", "otra", "{}")], 0));
    let events = t.advance(TurnInput::Closed { now: 0 });
    assert_eq!(
        shown(&events),
        ["start otra {}", "end otra false Error: argumentos inválidos: tool desconocida: otra"]
    );
    assert!(matches!(t.action(), TurnAction::CallModel));
}

#[test]
fn a_failed_snapshot_does_not_stop_the_turn() {
    let mut t = turn(AgentKind::Build, true);
    for outcome in [SnapshotOutcome::Failed, SnapshotOutcome::Unavailable] {
        t.advance(TurnInput::Opened);
        t.advance(calls(vec![call("1", "bash", "{}")], 0));
        t.advance(TurnInput::Closed { now: 0 });
        assert!(matches!(t.action(), TurnAction::TakeSnapshot));
        t.advance(TurnInput::Snapshot(outcome));
        assert!(matches!(t.action(), TurnAction::AskPermission(_)));
        t.advance(TurnInput::Decision(PermissionDecision::Deny));
    }
    t.advance(TurnInput::Opened);
    t.advance(calls(vec![call("1", "bash", "{}")], 0));
    t.advance(TurnInput::Closed { now: 0 });
    assert!(matches!(t.action(), TurnAction::AskPermission(_)));
}

#[test]
fn a_turn_ends_after_its_last_step() {
    let mut t = turn(AgentKind::Build, false);
    let mut called = 0;
    while matches!(t.action(), TurnAction::CallModel) {
        called += 1;
        t.advance(TurnInput::Opened);
        t.advance(calls(vec![call("1", "glob", "{}")], 0));
        t.advance(TurnInput::Closed { now: 0 });
        t.advance(TurnInput::Finished(Ok(String::new())));
    }
    assert_eq!(called, MAX_STEPS);
    assert!(matches!(t.action(), TurnAction::Stop));
    assert_eq!(t.appended().len(), 2 * MAX_STEPS);
}

#[test]
fn a_broken_reply_ends_the_turn() {
    let mut t = turn(AgentKind::Build, true);
    t.advance(TurnInput::Opened);
    t.advance(delta("medio", 0));
    assert!(t.advance(TurnInput::Failed).is_empty());
    assert!(matches!(t.action(), TurnAction::Stop));
}

#[test]
fn arguments_may_be_laid_out_beforehand() {
    let mut t = turn(AgentKind::Build, false);
    t.advance(TurnInput::Opened);
    t.advance(calls(vec![call("1", "glob", "{}")], 0));
    let events = t.advance_with(TurnInput::Closed { now: 0 }, &vec![Some("bonito".to_string())]);
    assert_eq!(shown(&events), ["start glob bonito"]);
}

#[test]
fn every_offered_tool_is_served() {
    for agent in [AgentKind::Build, AgentKind::Plan] {
        for tool in offered_tools(agent, &ToolRegistry::with_builtins()) {
            let mut t = turn(agent, false);
            t.advance(TurnInput::Opened);
            t.advance(calls(vec![call("1", &tool.function.name, "{}")], 0));
            t.advance(TurnInput::Closed { now: 0 });
            match t.action() {
                TurnAction::RunTool { name, .. } => assert_eq!(name, tool.function.name),
                TurnAction::AskPermission { .. } => assert_eq!(agent, AgentKind::Build),
                _ => panic!("{} is not served", tool.function.name),
            }
        }
    }
}
