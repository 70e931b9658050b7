//! What the model, and who looks on, learn of the replies and of the tools of a turn.
use vstd::prelude::*;
use crate::agent::{AgentEventView, AgentKind, PermissionDecision, BUILD_PROMPT, PLAN_PROMPT};
use crate::json::json_pretty;
use crate::message::{calls_message, reasoned, MessageView, Role, ToolCallView};
use crate::stream::StreamEventView;
use crate::tool::{error_text, find_tool, needs_permission, ErrorView, ToolDeclView};
use crate::turn::{answered, queue_of, refusal, refusal_report, serve, step_pretty, thought_end,
    tool_answer, turn_action, turn_ok, turn_start, turn_step, waiting_calls, with_message, Outcome,
    PhaseView, QueuedCallView, SnapshotOutcomeView, StepView, TurnActionView, TurnInputView,
    TurnView, DENIED};
use crate::turn_laws::{turn_run, turn_run_is_sound};

verus! {

// ── Answers of tools ──────────────────────────────────────────────────────────

/// The outputs of tools that are reported, in order.
pub open spec fn outputs_reported(events: Seq<AgentEventView>) -> Seq<Seq<char>>
    decreases events.len(),
{
    if events.len() == 0 {
        seq![]
    } else {
        let before = outputs_reported(events.drop_last());
        match events.last() {
            AgentEventView::ToolFinished { output, .. } => before.push(output),
            _ => before,
        }
    }
}

/// The outputs of tools that the model gets, in order.
pub open spec fn outputs_given(messages: Seq<MessageView>) -> Seq<Seq<char>>
    decreases messages.len(),
{
    if messages.len() == 0 {
        seq![]
    } else {
        let before = outputs_given(messages.drop_last());
        if messages.last().role == Role::Tool {
            before.push(messages.last().content)
        } else {
            before
        }
    }
}

proof fn reported_sum(a: Seq<AgentEventView>, b: Seq<AgentEventView>)
    ensures
        outputs_reported(a + b) == outputs_reported(a) + outputs_reported(b),
    decreases b.len(),
{
    if b.len() == 0 {
        assert(a + b =~= a);
        assert(outputs_reported(a) + outputs_reported(b) =~= outputs_reported(a));
    } else {
        reported_sum(a, b.drop_last());
        assert((a + b).drop_last() =~= a + b.drop_last());
        assert(outputs_reported(a + b) =~= outputs_reported(a) + outputs_reported(b));
    }
}

proof fn given_push(messages: Seq<MessageView>, m: MessageView)
    ensures
        outputs_given(messages.push(m)) == if m.role == Role::Tool {
            outputs_given(messages).push(m.content)
        } else {
            outputs_given(messages)
        },
{
    assert(messages.push(m).drop_last() =~= messages);
}

/// Whether what `o` reports of tools is what it adds to the messages of `t`.
spec fn agrees(t: TurnView, o: Outcome) -> bool {
    outputs_given(o.turn.appended) == outputs_given(t.appended) + outputs_reported(o.events)
}

proof fn serve_agrees(t: TurnView, queue: Seq<QueuedCallView>)
    ensures
        agrees(t, serve(t, queue)),
    decreases queue.len(),
{
    reveal_with_fuel(outputs_reported, 3);
    let o = serve(t, queue);
    if queue.len() > 0 {
        let c = queue[0];
        let name = c.call.function.name;
        if (needs_permission(t.tools, name) && t.agent == AgentKind::Build) || (!needs_permission(
            t.tools,
            name,
        ) && find_tool(t.tools, name) is Some) {
            assert(outputs_reported(o.events) =~= seq![]);
        } else {
            let output = refusal(t.tools, c);
            let a = answered(t, c, output);
            let head = refusal_report(t.tools, c);
            serve_agrees(a, queue.drop_first());
            given_push(t.appended, a.appended.last());
            assert(a.appended =~= t.appended.push(a.appended.last()));
            reported_sum(head, serve(a, queue.drop_first()).events);
            assert(outputs_reported(head) =~= seq![output]);
        }
    } else {
        assert(outputs_reported(o.events) =~= seq![]);
    }
    assert(outputs_given(o.turn.appended) =~= outputs_given(t.appended) + outputs_reported(
        o.events,
    ));
}

proof fn step_agrees(t: TurnView, input: TurnInputView, pretty: Seq<Option<Seq<char>>>)
    ensures
        agrees(t, turn_step(t, input, pretty)),
{
    reveal_with_fuel(outputs_reported, 3);
    let o = turn_step(t, input, pretty);
    match (t.phase, input) {
        (PhaseView::Streaming(s), TurnInputView::Closed { now }) => {
            let report = thought_end(s, now);
            assert(outputs_reported(report) =~= seq![]);
            if s.calls.len() == 0 {
                reported_sum(report, seq![AgentEventView::Turn(o.turn.appended)]);
                if s.text.len() > 0 {
                    given_push(t.appended, o.turn.appended.last());
                    assert(o.turn.appended =~= t.appended.push(o.turn.appended.last()));
                }
            } else {
                let m = reasoned(
                    calls_message(s.text, s.calls),
                    s.reasoning,
                );
                let asked = with_message(t, m);
                given_push(t.appended, m);
                let queue = queue_of(s.calls, pretty);
                serve_agrees(asked, queue);
                reported_sum(report, serve(asked, queue).events);
            }
        },
        (PhaseView::Saving { queue, index }, TurnInputView::Snapshot(outcome)) => {
            let marked = TurnView { saved: true, ..t };
            serve_agrees(t, queue);
            serve_agrees(marked, queue);
            if let SnapshotOutcomeView::Taken(hash) = outcome {
                let head = seq![AgentEventView::StepSnapshot { hash, message_index: index }];
                reported_sum(head, serve(marked, queue).events);
            }
        },
        (PhaseView::Asking { queue }, TurnInputView::Decision(d)) => {
            if d == PermissionDecision::Deny {
                answer_agrees(t, queue, DENIED@, false);
            }
        },
        (PhaseView::Running { queue }, TurnInputView::Finished(result)) => {
            let a = tool_answer(result);
            answer_agrees(t, queue, a.0, a.1);
        },
        (PhaseView::Streaming(s), TurnInputView::Event { event, now }) => {
            assert(outputs_reported(o.events) =~= seq![]);
        },
        _ => {
            assert(outputs_reported(o.events) =~= seq![]);
        },
    }
    assert(outputs_given(o.turn.appended) =~= outputs_given(t.appended) + outputs_reported(
        o.events,
    ));
}

proof fn answer_agrees(t: TurnView, queue: Seq<QueuedCallView>, output: Seq<char>, ok: bool)
    ensures
        agrees(t, crate::turn::answer_first(t, queue, output, ok)),
{
    reveal_with_fuel(outputs_reported, 3);
    let a = answered(t, queue[0], output);
    let head = seq![crate::turn::call_finished(queue[0], output, ok)];
    let rest = serve(a, queue.drop_first());
    serve_agrees(a, queue.drop_first());
    given_push(t.appended, a.appended.last());
    assert(a.appended =~= t.appended.push(a.appended.last()));
    reported_sum(head, rest.events);
    assert(outputs_reported(head) =~= seq![output]);
    assert(outputs_given(rest.turn.appended) =~= outputs_given(t.appended) + outputs_reported(
        head + rest.events,
    ));
}

/// Whatever happens in a turn, the model gets of its tools what is reported of them: output by
/// output, in the same order.
pub proof fn the_model_gets_what_is_reported(t: TurnView, inputs: Seq<TurnInputView>)
    ensures
        outputs_given(turn_run(t, inputs).turn.appended) == outputs_given(t.appended)
            + outputs_reported(turn_run(t, inputs).events),
    decreases inputs.len(),
{
    if inputs.len() == 0 {
        assert(outputs_given(t.appended) + outputs_reported(seq![]) =~= outputs_given(t.appended));
    } else {
        the_model_gets_what_is_reported(t, inputs.drop_last());
        let before = turn_run(t, inputs.drop_last());
        let now = turn_step(before.turn, inputs.last(), step_pretty(before.turn));
        step_agrees(before.turn, inputs.last(), step_pretty(before.turn));
        reported_sum(before.events, now.events);
        assert(outputs_given(now.turn.appended) =~= outputs_given(t.appended) + outputs_reported(
            before.events + now.events,
        ));
    }
}

/// Whether the next message behind those of `t` is the answer `text` to the call `id`, and goes
/// to the model.
pub open spec fn answers_next(t: TurnView, u: TurnView, id: Seq<char>, text: Seq<char>) -> bool {
    let n = t.appended.len() as int;
    &&& n < u.appended.len()
    &&& u.appended[n].role == Role::Tool
    &&& u.appended[n].tool_call_id == Some(id)
    &&& u.appended[n].content == text
    &&& t.messages.len() < u.messages.len()
    &&& u.messages[t.messages.len() as int] == u.appended[n]
}

proof fn answered_next(t: TurnView, queue: Seq<QueuedCallView>, output: Seq<char>)
    ensures
        answers_next(
            t,
            serve(answered(t, queue[0], output), queue.drop_first()).turn,
            queue[0].call.id,
            output,
        ),
{
    let a = answered(t, queue[0], output);
    let u = serve(a, queue.drop_first()).turn;
    serve_keeps(a, queue.drop_first());
    let n = t.appended.len() as int;
    assert(a.appended[n] == u.appended[n]);
    assert(a.messages[t.messages.len() as int] == u.messages[t.messages.len() as int]);
}

proof fn serve_keeps(t: TurnView, queue: Seq<QueuedCallView>)
    ensures
        t.appended.len() <= serve(t, queue).turn.appended.len(),
        forall|i: int|
            0 <= i < t.appended.len() ==> serve(t, queue).turn.appended[i]
                == #[trigger] t.appended[i],
        t.messages.len() <= serve(t, queue).turn.messages.len(),
        forall|i: int|
            0 <= i < t.messages.len() ==> serve(t, queue).turn.messages[i]
                == #[trigger] t.messages[i],
    decreases queue.len(),
{
    if queue.len() > 0 {
        let a = answered(t, queue[0], refusal(t.tools, queue[0]));
        serve_keeps(a, queue.drop_first());
        assert forall|i: int| 0 <= i < t.appended.len() implies serve(t, queue).turn.appended[i]
            == #[trigger] t.appended[i] by {
            assert(a.appended[i] == t.appended[i]);
        }
        assert forall|i: int| 0 <= i < t.messages.len() implies serve(t, queue).turn.messages[i]
            == #[trigger] t.messages[i] by {
            assert(a.messages[i] == t.messages[i]);
        }
    }
}

/// What a tool that ran put out is the answer to its call, and is reported: the output of one that
/// did its work, and of one that failed the text of its error behind `Error: `.
pub proof fn a_tool_answers_its_call(
    t: TurnView,
    queue: Seq<QueuedCallView>,
    result: Result<Seq<char>, ErrorView>,
    pretty: Seq<Option<Seq<char>>>,
)
    requires
        t.phase == (PhaseView::Running { queue }),
    ensures
        ({
            let o = turn_step(t, TurnInputView::Finished(result), pretty);
            let call = queue[0].call;
            match result {
                Ok(out) => answers_next(t, o.turn, call.id, out) && o.events.len() > 0
                    && o.events[0] == (AgentEventView::ToolFinished {
                    name: call.function.name,
                    output: out,
                    ok: true,
                }),
                Err(e) => answers_next(t, o.turn, call.id, "Error: "@ + error_text(e))
                    && o.events.len() > 0 && o.events[0] == (AgentEventView::ToolFinished {
                    name: call.function.name,
                    output: "Error: "@ + error_text(e),
                    ok: false,
                }),
            }
        }),
{
    match result {
        Ok(out) => answered_next(t, queue, out),
        Err(e) => answered_next(t, queue, "Error: "@ + error_text(e)),
    }
}

/// A call that the user does not allow is answered that the user denied it. The tool does not
/// run; one that the user allows does, with the arguments of its call.
pub proof fn the_decision_of_the_user_counts(
    t: TurnView,
    queue: Seq<QueuedCallView>,
    pretty: Seq<Option<Seq<char>>>,
)
    requires
        t.phase == (PhaseView::Asking { queue }),
    ensures
        ({
            let o = turn_step(t, TurnInputView::Decision(PermissionDecision::Deny), pretty);
            let denied = "El usuario denegó el permiso para ejecutar esta tool."@;
            &&& answers_next(t, o.turn, queue[0].call.id, denied)
            &&& o.events.len() > 0
            &&& o.events[0] == (AgentEventView::ToolFinished {
                name: queue[0].call.function.name,
                output: denied,
                ok: false,
            })
        }),
        ({
            let o = turn_step(t, TurnInputView::Decision(PermissionDecision::Allow), pretty);
            &&& o.turn.appended == t.appended
            &&& turn_action(o.turn) == (TurnActionView::RunTool {
                name: queue[0].call.function.name,
                arguments: queue[0].call.function.arguments,
            })
            &&& o.events == seq![
                AgentEventView::ToolStarted {
                    name: queue[0].call.function.name,
                    arguments: queue[0].shown,
                },
            ]
        }),
{
    answered_next(t, queue, DENIED@);
}

/// In the profile `Plan` a call of a tool with effects is answered that it was refused; in either
/// profile a call of a tool that there is not is answered that it is unknown.
pub proof fn a_call_that_cannot_run_is_answered(
    t: TurnView,
    s: StepView,
    now: nat,
    pretty: Seq<Option<Seq<char>>>,
)
    requires
        t.phase == PhaseView::Streaming(s),
        s.calls.len() > 0,
        t.saved || !t.can_save,
        ({
            let name = s.calls[0].function.name;
            find_tool(t.tools, name) is None || (needs_permission(t.tools, name) && t.agent
                == AgentKind::Plan)
        }),
    ensures
        ({
            let u = turn_step(t, TurnInputView::Closed { now }, pretty).turn;
            let n = t.appended.len() as int;
            let name = s.calls[0].function.name;
            &&& u.appended.len() >= n + 2
            &&& u.appended[n].role == Role::Assistant
            &&& u.appended[n + 1].role == Role::Tool
            &&& u.appended[n + 1].tool_call_id == Some(s.calls[0].id)
            &&& u.appended[n + 1].content == if find_tool(t.tools, name) is None {
                "Error: "@ + ("argumentos inválidos: "@ + ("tool desconocida: "@ + name))
            } else {
                "Tool con efectos rechazada: el agente está en modo plan (solo lectura)."@
            }
        }),
{
    let m = reasoned(
        calls_message(s.text, s.calls),
        s.reasoning,
    );
    let asked = with_message(t, m);
    let queue = queue_of(s.calls, pretty);
    assert(queue[0].call == s.calls[0]);
    let output = refusal(t.tools, queue[0]);
    let a = answered(asked, queue[0], output);
    serve_keeps(a, queue.drop_first());
    let n = t.appended.len() as int;
    let u = turn_step(t, TurnInputView::Closed { now }, pretty).turn;
    assert(u == serve(a, queue.drop_first()).turn);
    assert(a.appended[n] == m);
    assert(u.appended[n] == a.appended[n]);
    assert(u.appended[n + 1] == a.appended[n + 1]);
}

// ── Replies ───────────────────────────────────────────────────────────────────

/// What the model sent, each piece with the time of its arrival, as inputs of a turn.
pub open spec fn arriving(pieces: Seq<(StreamEventView, nat)>) -> Seq<TurnInputView> {
    pieces.map_values(
        |p: (StreamEventView, nat)| TurnInputView::Event { event: p.0, now: p.1 },
    )
}

/// The text of a reply: its pieces, one behind the other.
pub open spec fn reply_text(pieces: Seq<(StreamEventView, nat)>) -> Seq<char>
    decreases pieces.len(),
{
    if pieces.len() == 0 {
        seq![]
    } else {
        match pieces.last().0 {
            StreamEventView::Delta(d) => reply_text(pieces.drop_last()) + d,
            _ => reply_text(pieces.drop_last()),
        }
    }
}

/// The chain of thought of a reply: its pieces, one behind the other.
pub open spec fn reply_thought(pieces: Seq<(StreamEventView, nat)>) -> Seq<char>
    decreases pieces.len(),
{
    if pieces.len() == 0 {
        seq![]
    } else {
        match pieces.last().0 {
            StreamEventView::Reasoning(r) => reply_thought(pieces.drop_last()) + r,
            _ => reply_thought(pieces.drop_last()),
        }
    }
}

/// The calls that a reply asks for.
pub open spec fn reply_calls(pieces: Seq<(StreamEventView, nat)>) -> Seq<ToolCallView>
    decreases pieces.len(),
{
    if pieces.len() == 0 {
        seq![]
    } else {
        match pieces.last().0 {
            StreamEventView::ToolCalls(c) => c,
            _ => reply_calls(pieces.drop_last()),
        }
    }
}

/// The text that is reported, one piece behind the other.
pub open spec fn text_reported(events: Seq<AgentEventView>) -> Seq<char>
    decreases events.len(),
{
    if events.len() == 0 {
        seq![]
    } else {
        match events.last() {
            AgentEventView::Delta(d) => text_reported(events.drop_last()) + d,
            _ => text_reported(events.drop_last()),
        }
    }
}

/// The chain of thought that is reported, one piece behind the other.
pub open spec fn thought_reported(events: Seq<AgentEventView>) -> Seq<char>
    decreases events.len(),
{
    if events.len() == 0 {
        seq![]
    } else {
        match events.last() {
            AgentEventView::ReasoningDelta(r) => thought_reported(events.drop_last()) + r,
            _ => thought_reported(events.drop_last()),
        }
    }
}

proof fn texts_reported_sum(a: Seq<AgentEventView>, b: Seq<AgentEventView>)
    ensures
        text_reported(a + b) == text_reported(a) + text_reported(b),
        thought_reported(a + b) == thought_reported(a) + thought_reported(b),
    decreases b.len(),
{
    if b.len() == 0 {
        assert(a + b =~= a);
        assert(text_reported(a) + text_reported(b) =~= text_reported(a));
        assert(thought_reported(a) + thought_reported(b) =~= thought_reported(a));
    } else {
        texts_reported_sum(a, b.drop_last());
        assert((a + b).drop_last() =~= a + b.drop_last());
        assert(text_reported(a + b) =~= text_reported(a) + text_reported(b));
        assert(thought_reported(a + b) =~= thought_reported(a) + thought_reported(b));
    }
}

/// The inputs of a reply that has not ended.
pub open spec fn reply_so_far(pieces: Seq<(StreamEventView, nat)>) -> Seq<TurnInputView> {
    seq![TurnInputView::Opened] + arriving(pieces)
}

proof fn reply_gathers(t: TurnView, pieces: Seq<(StreamEventView, nat)>)
    requires
        t.phase is Ready,
    ensures
        ({
            let o = turn_run(t, reply_so_far(pieces));
            &&& o.turn.appended == t.appended
            &&& o.turn.messages == t.messages
            &&& o.turn.phase matches PhaseView::Streaming(s) && s.text == reply_text(pieces)
                && s.reasoning == reply_thought(pieces) && s.calls == reply_calls(pieces)
            &&& text_reported(o.events) == reply_text(pieces)
            &&& thought_reported(o.events) == reply_thought(pieces)
        }),
    decreases pieces.len(),
{
    reveal_with_fuel(text_reported, 3);
    reveal_with_fuel(thought_reported, 3);
    let ins = reply_so_far(pieces);
    let o = turn_run(t, ins);
    if pieces.len() == 0 {
        assert(ins.drop_last() =~= seq![]);
        assert(ins.last() == TurnInputView::Opened);
        assert(turn_run(t, ins.drop_last()).turn == t);
        assert(o.events =~= seq![]);
    } else {
        reply_gathers(t, pieces.drop_last());
        assert(ins.drop_last() =~= reply_so_far(pieces.drop_last()));
        let before = turn_run(t, ins.drop_last());
        let now = turn_step(before.turn, ins.last(), step_pretty(before.turn));
        texts_reported_sum(before.events, now.events);
        let (event, at) = pieces.last();
        assert(ins.last() == (TurnInputView::Event { event, now: at }));
        if let PhaseView::Streaming(s) = before.turn.phase {
            let end = thought_end(s, at);
            assert(text_reported(end) =~= seq![]);
            assert(thought_reported(end) =~= seq![]);
            match event {
                StreamEventView::Delta(d) => {
                    let last = AgentEventView::Delta(d);
                    assert(now.events =~= end + seq![last]);
                    texts_reported_sum(end, seq![last]);
                    assert(text_reported(seq![last]) =~= d);
                    assert(thought_reported(seq![last]) =~= seq![]);
                    assert(text_reported(now.events) =~= d);
                    assert(thought_reported(now.events) =~= seq![]);
                },
                StreamEventView::Reasoning(r) => {
                    let last = AgentEventView::ReasoningDelta(r);
                    assert(now.events =~= seq![last]);
                    assert(text_reported(now.events) =~= seq![]);
                    assert(thought_reported(now.events) =~= r);
                },
                StreamEventView::ToolCalls(c) => {
                    assert(now.events =~= end);
                },
            }
        }
        assert(text_reported(o.events) =~= reply_text(pieces));
        assert(thought_reported(o.events) =~= reply_thought(pieces));
    }
}

/// A reply is kept as it came: its text, its chain of thought and its calls are those of the
/// message that goes to the model next, and text and chain of thought are reported in full. A
/// reply with neither a text nor a call leaves no message.
pub proof fn a_reply_is_kept(t: TurnView, pieces: Seq<(StreamEventView, nat)>, end: nat)
    requires
        t.phase is Ready,
    ensures
        ({
            let o = turn_run(t, reply_so_far(pieces).push(TurnInputView::Closed { now: end }));
            let n = t.appended.len() as int;
            let u = o.turn;
            &&& text_reported(o.events) == reply_text(pieces)
            &&& thought_reported(o.events) == reply_thought(pieces)
            &&& if reply_text(pieces).len() > 0 || reply_calls(pieces).len() > 0 {
                &&& n < u.appended.len()
                &&& u.appended[n].role == Role::Assistant
                &&& u.appended[n].content == reply_text(pieces)
                &&& u.appended[n].tool_calls == reply_calls(pieces)
                &&& u.appended[n].tool_call_id is None
                &&& u.appended[n].reasoning == if reply_thought(pieces).len() == 0 {
                    None
                } else {
                    Some(reply_thought(pieces))
                }
                &&& u.messages.len() > t.messages.len()
                &&& u.messages[t.messages.len() as int] == u.appended[n]
            } else {
                u.appended == t.appended && u.messages == t.messages
            }
        }),
{
    reveal_with_fuel(text_reported, 3);
    reveal_with_fuel(thought_reported, 3);
    let ins = reply_so_far(pieces).push(TurnInputView::Closed { now: end });
    assert(ins.drop_last() =~= reply_so_far(pieces));
    reply_gathers(t, pieces);
    let before = turn_run(t, ins.drop_last());
    let now = turn_step(before.turn, ins.last(), step_pretty(before.turn));
    texts_reported_sum(before.events, now.events);
    if let PhaseView::Streaming(s) = before.turn.phase {
        let report = thought_end(s, end);
        assert(text_reported(report) =~= seq![]);
        assert(thought_reported(report) =~= seq![]);
        let n = t.appended.len() as int;
        if s.calls.len() == 0 {
            let last = seq![AgentEventView::Turn(now.turn.appended)];
            texts_reported_sum(report, last);
            assert(text_reported(last) =~= seq![]);
            assert(thought_reported(last) =~= seq![]);
            assert(reply_calls(pieces) =~= seq![]);
        } else {
            let m = reasoned(
                calls_message(s.text, s.calls),
                s.reasoning,
            );
            let asked = with_message(before.turn, m);
            let queue = queue_of(s.calls, step_pretty(before.turn));
            serve_keeps(asked, queue);
            serve_says_nothing(asked, queue);
            texts_reported_sum(report, serve(asked, queue).events);
            assert(asked.appended[n] == m);
            assert(asked.messages[t.messages.len() as int] == m);
        }
        assert(text_reported(now.events) =~= seq![]);
        assert(thought_reported(now.events) =~= seq![]);
    }
    let o = turn_run(t, ins);
    assert(text_reported(o.events) =~= reply_text(pieces));
    assert(thought_reported(o.events) =~= reply_thought(pieces));
}

proof fn serve_says_nothing(t: TurnView, queue: Seq<QueuedCallView>)
    ensures
        text_reported(serve(t, queue).events) == Seq::<char>::empty(),
        thought_reported(serve(t, queue).events) == Seq::<char>::empty(),
    decreases queue.len(),
{
    reveal_with_fuel(text_reported, 3);
    reveal_with_fuel(thought_reported, 3);
    if queue.len() > 0 {
        let a = answered(t, queue[0], refusal(t.tools, queue[0]));
        let head = refusal_report(t.tools, queue[0]);
        serve_says_nothing(a, queue.drop_first());
        texts_reported_sum(head, serve(a, queue.drop_first()).events);
        assert(text_reported(head) =~= seq![]);
        assert(thought_reported(head) =~= seq![]);
    }
}

/// The pieces of a chain of thought, each with the time of its arrival.
pub open spec fn thinking(pieces: Seq<(Seq<char>, nat)>) -> Seq<(StreamEventView, nat)> {
    pieces.map_values(|p: (Seq<char>, nat)| (StreamEventView::Reasoning(p.0), p.1))
}

proof fn thinking_starts(t: TurnView, pieces: Seq<(Seq<char>, nat)>)
    requires
        t.phase is Ready,
        pieces.len() > 0,
    ensures
        turn_run(t, reply_so_far(thinking(pieces))).turn.phase matches PhaseView::Streaming(s)
            && s.started == Some(pieces[0].1) && !s.closed,
    decreases pieces.len(),
{
    let ins = reply_so_far(thinking(pieces));
    assert(ins.drop_last() =~= reply_so_far(thinking(pieces.drop_last())));
    if pieces.len() == 1 {
        reply_gathers(t, thinking(pieces.drop_last()));
        let first = reply_so_far(thinking(pieces.drop_last()));
        assert(first =~= seq![TurnInputView::Opened]);
        assert(first.drop_last() =~= seq![]);
        assert(turn_run(t, first.drop_last()).turn == t);
        assert(turn_run(t, first).turn.phase == PhaseView::Streaming(crate::turn::empty_step()));
    } else {
        thinking_starts(t, pieces.drop_last());
    }
}

/// How long a chain of thought took is reported with the first piece of the text behind it: the
/// full milliseconds from its first piece to that one.
pub proof fn a_thought_is_timed(
    t: TurnView,
    pieces: Seq<(Seq<char>, nat)>,
    text: Seq<char>,
    end: nat,
)
    requires
        t.phase is Ready,
        pieces.len() > 0,
        pieces[0].1 <= end,
    ensures
        ({
            let before = turn_run(t, reply_so_far(thinking(pieces))).turn;
            let event = StreamEventView::Delta(text);
            let events = turn_step(before, TurnInputView::Event { event, now: end }, seq![]).events;
            &&& events.len() == 2
            &&& events[0] matches AgentEventView::ReasoningFinished { duration_ms } && duration_ms
                * 1_000_000 <= end - pieces[0].1 < (duration_ms + 1) * 1_000_000
            &&& events[1] == AgentEventView::Delta(text)
        }),
{
    thinking_starts(t, pieces);
}

// ── Calls ─────────────────────────────────────────────────────────────────────

/// Whether the arguments that are shown of each call are those of the call, laid out where they
/// are JSON.
pub open spec fn shown_truly(queue: Seq<QueuedCallView>) -> bool {
    forall|i: int|
        0 <= i < queue.len() ==> (#[trigger] queue[i]).shown == match json_pretty(
            queue[i].call.function.arguments,
        ) {
            Some(p) => p,
            None => queue[i].call.function.arguments,
        }
}

/// Whether that holds of the calls that wait in `t`.
pub open spec fn waiting_shown_truly(t: TurnView) -> bool {
    match t.phase {
        PhaseView::Saving { queue, .. } => shown_truly(queue),
        PhaseView::Asking { queue } => shown_truly(queue),
        PhaseView::Running { queue } => shown_truly(queue),
        _ => true,
    }
}

proof fn rest_shown_truly(queue: Seq<QueuedCallView>)
    requires
        shown_truly(queue),
        queue.len() > 0,
    ensures
        shown_truly(queue.drop_first()),
{
    let rest = queue.drop_first();
    assert forall|i: int| 0 <= i < rest.len() implies (#[trigger] rest[i]).shown
        == match json_pretty(rest[i].call.function.arguments) {
        Some(p) => p,
        None => rest[i].call.function.arguments,
    } by {
        assert(rest[i] == queue[i + 1]);
    }
}

proof fn serve_shows_truly(t: TurnView, queue: Seq<QueuedCallView>)
    requires
        shown_truly(queue),
    ensures
        waiting_shown_truly(serve(t, queue).turn),
    decreases queue.len(),
{
    if queue.len() > 0 {
        rest_shown_truly(queue);
        serve_shows_truly(answered(t, queue[0], refusal(t.tools, queue[0])), queue.drop_first());
    }
}

proof fn step_shows_truly(t: TurnView, input: TurnInputView)
    requires
        turn_ok(t),
        waiting_shown_truly(t),
    ensures
        waiting_shown_truly(turn_step(t, input, step_pretty(t)).turn),
{
    match (t.phase, input) {
        (PhaseView::Streaming(s), TurnInputView::Closed { now }) => {
            let m = reasoned(
                calls_message(s.text, s.calls),
                s.reasoning,
            );
            let queue = queue_of(s.calls, step_pretty(t));
            assert(shown_truly(queue));
            serve_shows_truly(with_message(t, m), queue);
        },
        (PhaseView::Saving { queue, index }, TurnInputView::Snapshot(outcome)) => {
            serve_shows_truly(t, queue);
            serve_shows_truly(TurnView { saved: true, ..t }, queue);
        },
        (PhaseView::Asking { queue }, TurnInputView::Decision(d)) => {
            rest_shown_truly(queue);
            serve_shows_truly(answered(t, queue[0], DENIED@), queue.drop_first());
        },
        (PhaseView::Running { queue }, TurnInputView::Finished(result)) => {
            rest_shown_truly(queue);
            let output = tool_answer(result).0;
            serve_shows_truly(answered(t, queue[0], output), queue.drop_first());
        },
        _ => {},
    }
}

/// What is to be done next in a turn is about the first call that waits for its answer: that tool
/// is run, with the arguments that the model gave, or the user is asked for it and sees those
/// arguments, laid out where they are JSON.
pub proof fn the_first_waiting_call_is_next(
    agent: AgentKind,
    tools: Seq<ToolDeclView>,
    history: Seq<MessageView>,
    can_save: bool,
    inputs: Seq<TurnInputView>,
)
    ensures
        ({
            let u = turn_run(turn_start(agent, tools, history, can_save), inputs).turn;
            let waiting = waiting_calls(u.appended);
            &&& turn_action(u) matches TurnActionView::RunTool { name, arguments } ==> waiting
                matches Some(w) && w.len() > 0 && w[0].function.name == name
                && w[0].function.arguments == arguments
            &&& turn_action(u) matches TurnActionView::AskPermission(p) ==> waiting matches Some(w)
                && w.len() > 0 && w[0].function.name == p.tool_name && p.arguments
                == match json_pretty(w[0].function.arguments) {
                Some(laid_out) => laid_out,
                None => w[0].function.arguments,
            }
        }),
{
    let t = turn_start(agent, tools, history, can_save);
    crate::turn::turn_starts_sound(agent, tools, history, can_save);
    turn_run_is_sound(t, inputs);
    run_shows_truly(t, inputs);
    let u = turn_run(t, inputs).turn;
    match u.phase {
        PhaseView::Asking { queue } => {
            assert(crate::turn::queue_calls(queue)[0] == queue[0].call);
        },
        PhaseView::Running { queue } => {
            assert(crate::turn::queue_calls(queue)[0] == queue[0].call);
        },
        _ => {},
    }
}

proof fn run_shows_truly(t: TurnView, inputs: Seq<TurnInputView>)
    requires
        turn_ok(t),
        waiting_shown_truly(t),
    ensures
        waiting_shown_truly(turn_run(t, inputs).turn),
    decreases inputs.len(),
{
    if inputs.len() > 0 {
        run_shows_truly(t, inputs.drop_last());
        turn_run_is_sound(t, inputs.drop_last());
        step_shows_truly(turn_run(t, inputs.drop_last()).turn, inputs.last());
    }
}

// ── The course of a turn ──────────────────────────────────────────────────────

/// A turn starts with the prompt of its profile and the history behind it, and with nothing of
/// its own.
pub proof fn a_turn_starts_with_the_prompt(
    agent: AgentKind,
    tools: Seq<ToolDeclView>,
    history: Seq<MessageView>,
    can_save: bool,
)
    ensures
        ({
            let t = turn_start(agent, tools, history, can_save);
            &&& t.messages.len() == history.len() + 1
            &&& t.messages[0].role == Role::System
            &&& t.messages[0].content == match agent {
                AgentKind::Build => BUILD_PROMPT@,
                AgentKind::Plan => PLAN_PROMPT@,
            }
            &&& t.messages.skip(1) == history
            &&& t.appended.len() == 0
            &&& t.tools == tools
            &&& turn_action(t) is CallModel
        }),
{
    let t = turn_start(agent, tools, history, can_save);
    assert(t.messages.skip(1) =~= history);
}

/// Where all calls of a step are answered, the model is called again, unless it was called sixteen
/// times: then the turn ends, and says so with its messages.
pub proof fn the_model_is_called_again(
    t: TurnView,
    queue: Seq<QueuedCallView>,
    result: Result<Seq<char>, ErrorView>,
    pretty: Seq<Option<Seq<char>>>,
)
    requires
        t.phase == (PhaseView::Running { queue }),
        queue.len() == 1,
    ensures
        ({
            let o = turn_step(t, TurnInputView::Finished(result), pretty);
            &&& t.steps < 16 ==> turn_action(o.turn) is CallModel && o.events.len() == 1
            &&& t.steps >= 16 ==> turn_action(o.turn) is Stop && o.events.len() == 2 && o.events[1]
                == AgentEventView::Turn(o.turn.appended)
        }),
{
    assert(queue.drop_first() =~= seq![]);
}

/// A reply without calls ends the turn; the last thing that is reported are the messages of the
/// turn.
pub proof fn a_reply_without_calls_ends_the_turn(
    t: TurnView,
    s: StepView,
    now: nat,
    pretty: Seq<Option<Seq<char>>>,
)
    requires
        t.phase == PhaseView::Streaming(s),
        s.calls.len() == 0,
    ensures
        ({
            let o = turn_step(t, TurnInputView::Closed { now }, pretty);
            &&& turn_action(o.turn) is Stop
            &&& o.events.len() > 0
            &&& o.events.last() == AgentEventView::Turn(o.turn.appended)
        }),
{
}

/// Before the first tool with effects of a turn runs, the worktree is saved, where that is
/// possible; that it was saved is reported with the name of what was saved, and the calls are
/// taken up from there. Where saving fails the turn goes on without it.
pub proof fn the_worktree_is_saved_first(
    t: TurnView,
    s: StepView,
    now: nat,
    pretty: Seq<Option<Seq<char>>>,
    i: int,
    hash: Seq<char>,
)
    requires
        t.phase == PhaseView::Streaming(s),
        t.can_save,
        !t.saved,
        0 <= i < s.calls.len(),
        needs_permission(t.tools, s.calls[i].function.name),
    ensures
        ({
            let u = turn_step(t, TurnInputView::Closed { now }, pretty).turn;
            let taken = turn_step(
                u,
                TurnInputView::Snapshot(SnapshotOutcomeView::Taken(hash)),
                pretty,
            );
            let failed = turn_step(u, TurnInputView::Snapshot(SnapshotOutcomeView::Failed), pretty);
            &&& turn_action(u) is TakeSnapshot
            &&& u.appended.len() == t.appended.len() + 1
            &&& taken.turn.saved
            &&& taken.events.len() > 0
            &&& taken.events[0] == (AgentEventView::StepSnapshot {
                hash,
                message_index: t.appended.len(),
            })
            &&& !(turn_action(taken.turn) is TakeSnapshot)
            &&& !(turn_action(failed.turn) is TakeSnapshot)
        }),
{
    let queue = queue_of(s.calls, pretty);
    assert(needs_permission(t.tools, queue[i].call.function.name));
    let u = turn_step(t, TurnInputView::Closed { now }, pretty).turn;
    serve_marks(TurnView { saved: true, ..u }, queue);
    serve_marks(u, queue);
}

/// A tool is reported to have done its work only where it ran and did it, and then with what it put
/// out: a call that was refused, that nobody serves or whose tool failed is reported as a failure.
pub proof fn only_work_that_was_done_succeeds(
    t: TurnView,
    input: TurnInputView,
    pretty: Seq<Option<Seq<char>>>,
    i: int,
)
    requires
        0 <= i < turn_step(t, input, pretty).events.len(),
        turn_step(t, input, pretty).events[i] matches AgentEventView::ToolFinished { ok, .. } && ok,
    ensures
        i == 0,
        input matches TurnInputView::Finished(Ok(out)) && (turn_step(
            t,
            input,
            pretty,
        ).events[i] matches AgentEventView::ToolFinished { output, .. } && output == out),
{
    match (t.phase, input) {
        (PhaseView::Streaming(s), TurnInputView::Closed { now }) => {
            let m = reasoned(
                calls_message(s.text, s.calls),
                s.reasoning,
            );
            serve_succeeds_at_nothing(
                with_message(t, m),
                queue_of(s.calls, pretty),
            );
        },
        (PhaseView::Saving { queue, index }, TurnInputView::Snapshot(_)) => {
            serve_succeeds_at_nothing(t, queue);
            serve_succeeds_at_nothing(TurnView { saved: true, ..t }, queue);
        },
        (PhaseView::Asking { queue }, TurnInputView::Decision(_)) => {
            serve_succeeds_at_nothing(
                answered(t, queue[0], DENIED@),
                queue.drop_first(),
            );
        },
        (PhaseView::Running { queue }, TurnInputView::Finished(result)) => {
            serve_succeeds_at_nothing(
                answered(t, queue[0], tool_answer(result).0),
                queue.drop_first(),
            );
        },
        _ => {},
    }
}

proof fn serve_succeeds_at_nothing(t: TurnView, queue: Seq<QueuedCallView>)
    ensures
        forall|i: int|
            0 <= i < serve(t, queue).events.len() ==> !(#[trigger] serve(t, queue).events[i] matches
                AgentEventView::ToolFinished { ok, .. } && ok),
    decreases queue.len(),
{
    if queue.len() > 0 {
        let a = answered(t, queue[0], refusal(t.tools, queue[0]));
        serve_succeeds_at_nothing(a, queue.drop_first());
        let head = refusal_report(t.tools, queue[0]);
        let rest = serve(a, queue.drop_first()).events;
        assert forall|i: int| 0 <= i < (head + rest).len() implies !(#[trigger] (head
            + rest)[i] matches AgentEventView::ToolFinished { ok, .. } && ok) by {
            if i >= head.len() {
                assert((head + rest)[i] == rest[i - head.len()]);
            }
        }
    }
}

/// A chain of thought that goes on up to the calls, or up to the end of the reply, ends there, and
/// that is reported before anything else.
pub proof fn a_thought_ends_with_the_reply(
    t: TurnView,
    s: StepView,
    start: nat,
    calls: Seq<ToolCallView>,
    now: nat,
    pretty: Seq<Option<Seq<char>>>,
)
    requires
        t.phase == PhaseView::Streaming(s),
        s.started == Some(start),
        !s.closed,
        start <= now,
    ensures
        ({
            let ended = AgentEventView::ReasoningFinished {
                duration_ms: ((now - start) / 1_000_000) as nat,
            };
            let event = StreamEventView::ToolCalls(calls);
            let called = turn_step(t, TurnInputView::Event { event, now }, pretty).events;
            let closed = turn_step(t, TurnInputView::Closed { now }, pretty).events;
            &&& called == seq![ended]
            &&& closed.len() > 0 && closed[0] == ended
        }),
{
}

/// Saving the worktree is tried again in a later step only where it failed: not where it was saved,
/// nor where it cannot be.
pub proof fn saving_is_tried_again_after_a_failure(
    t: TurnView,
    queue: Seq<QueuedCallView>,
    index: nat,
    outcome: SnapshotOutcomeView,
    s: StepView,
    now: nat,
    pretty: Seq<Option<Seq<char>>>,
    i: int,
)
    requires
        t.phase == (PhaseView::Saving { queue, index }),
        t.can_save,
        !t.saved,
        0 <= i < s.calls.len(),
        needs_permission(t.tools, s.calls[i].function.name),
    ensures
        ({
            let u = turn_step(t, TurnInputView::Snapshot(outcome), pretty).turn;
            let later = TurnView { phase: PhaseView::Streaming(s), ..u };
            let next = turn_step(later, TurnInputView::Closed { now }, pretty).turn;
            turn_action(next) is TakeSnapshot <==> outcome is Failed
        }),
{
    let u = turn_step(t, TurnInputView::Snapshot(outcome), pretty).turn;
    let later = TurnView { phase: PhaseView::Streaming(s), ..u };
    serve_marks(TurnView { saved: true, ..t }, queue);
    serve_marks(t, queue);
    let calls = queue_of(s.calls, pretty);
    assert(needs_permission(t.tools, calls[i].call.function.name));
    let m = reasoned(
        calls_message(s.text, s.calls),
        s.reasoning,
    );
    serve_marks(with_message(later, m), calls);
}

proof fn serve_marks(t: TurnView, queue: Seq<QueuedCallView>)
    ensures
        serve(t, queue).turn.saved == t.saved,
        serve(t, queue).turn.can_save == t.can_save,
        serve(t, queue).turn.tools == t.tools,
        !(serve(t, queue).turn.phase is Saving),
    decreases queue.len(),
{
    if queue.len() > 0 {
        serve_marks(answered(t, queue[0], refusal(t.tools, queue[0])), queue.drop_first());
    }
}

} // verus!
