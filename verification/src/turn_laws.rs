//! What holds of a whole turn, whatever happens outside.
use vstd::prelude::*;
use crate::agent::{offered, offers, prompt_of, spec_of_decl, AgentEventView, AgentKind,
    PermissionDecision};
use crate::message::{calls_message, reasoned, result_message, text_message, MessageView, Role,
    ToolCallView};
use crate::stream::StreamEventView;
use crate::tool::{find_tool, needs_permission, ToolDeclView};
use crate::turn::{answer_first, answered, any_effects, call_finished, call_started, queue_of,
    refusal, refusal_report, serve, step_pretty, thought_end, thought_open, tool_answer,
    turn_action, turn_end, turn_ok, turn_start, turn_starts_sound, turn_stays_sound, turn_step,
    unknown_tool, waiting_calls, with_message, Outcome, PhaseView, QueuedCallView,
    SnapshotOutcomeView, TurnActionView, TurnInputView, TurnView, BLOCKED, DENIED, MAX_STEPS};

verus! {

/// Where a list of inputs leads, and all that is reported on the way.
pub open spec fn turn_run(t: TurnView, inputs: Seq<TurnInputView>) -> Outcome
    decreases inputs.len(),
{
    if inputs.len() == 0 {
        Outcome { turn: t, events: seq![] }
    } else {
        let before = turn_run(t, inputs.drop_last());
        let now = turn_step(before.turn, inputs.last(), step_pretty(before.turn));
        Outcome { turn: now.turn, events: before.events + now.events }
    }
}

/// A turn is sound in every state that it reaches.
pub proof fn turn_run_is_sound(t: TurnView, inputs: Seq<TurnInputView>)
    requires
        turn_ok(t),
    ensures
        turn_ok(turn_run(t, inputs).turn),
        turn_run(t, inputs).turn.agent == t.agent,
        turn_run(t, inputs).turn.tools == t.tools,
        turn_run(t, inputs).turn.steps <= MAX_STEPS,
    decreases inputs.len(),
{
    if inputs.len() > 0 {
        turn_run_is_sound(t, inputs.drop_last());
        let before = turn_run(t, inputs.drop_last()).turn;
        turn_stays_sound(before, inputs.last(), step_pretty(before));
    }
}

// ── The conversation ──────────────────────────────────────────────────────────

/// Whether `u` has all the messages of `t`, and behind them the same new ones in the conversation
/// and among those that the turn produced.
pub open spec fn grows(t: TurnView, u: TurnView) -> bool {
    &&& t.appended.is_prefix_of(u.appended)
    &&& u.messages == t.messages + u.appended.skip(t.appended.len() as int)
}

proof fn grows_by_itself(t: TurnView, u: TurnView)
    requires
        u.messages == t.messages,
        u.appended == t.appended,
    ensures
        grows(t, u),
{
    assert(t.appended.skip(t.appended.len() as int) =~= seq![]);
    assert(t.messages + Seq::<MessageView>::empty() =~= t.messages);
}

proof fn grows_by_message(t: TurnView, m: MessageView)
    ensures
        grows(t, with_message(t, m)),
{
    let u = with_message(t, m);
    assert(u.appended.skip(t.appended.len() as int) =~= seq![m]);
    assert(u.messages =~= t.messages + seq![m]);
    assert(u.appended.subrange(0, t.appended.len() as int) =~= t.appended);
}

proof fn grows_further(t: TurnView, u: TurnView, v: TurnView)
    requires
        grows(t, u),
        grows(u, v),
    ensures
        grows(t, v),
{
    let n = t.appended.len() as int;
    let m = u.appended.len() as int;
    assert(v.appended.skip(n) =~= u.appended.skip(n) + v.appended.skip(m)) by {
        assert forall|i: int| 0 <= i < v.appended.len() - n implies v.appended.skip(n)[i] == (
        u.appended.skip(n) + v.appended.skip(m))[i] by {
            if i + n < m {
                assert(v.appended.subrange(0, m)[i + n] == u.appended[i + n]);
            }
        }
    }
    assert(v.messages =~= t.messages + v.appended.skip(n));
    assert(v.appended.subrange(0, n) =~= t.appended) by {
        assert forall|i: int| 0 <= i < n implies v.appended.subrange(0, n)[i] == t.appended[i] by {
            assert(v.appended.subrange(0, m)[i] == u.appended[i]);
            assert(u.appended.subrange(0, n)[i] == t.appended[i]);
        }
    }
}

proof fn serve_grows(t: TurnView, queue: Seq<QueuedCallView>)
    ensures
        grows(t, serve(t, queue).turn),
    decreases queue.len(),
{
    let u = serve(t, queue).turn;
    if queue.len() == 0 {
        grows_by_itself(t, u);
    } else {
        let c = queue[0];
        let name = c.call.function.name;
        if (needs_permission(t.tools, name) && t.agent == AgentKind::Build) || (!needs_permission(
            t.tools,
            name,
        ) && find_tool(t.tools, name) is Some) {
            grows_by_itself(t, u);
        } else {
            let output = refusal(t.tools, c);
            let a = answered(t, c, output);
            grows_by_message(t, result_message(c.call.id, output));
            serve_grows(a, queue.drop_first());
            grows_further(t, a, u);
        }
    }
}

proof fn answer_grows(t: TurnView, queue: Seq<QueuedCallView>, output: Seq<char>, ok: bool)
    ensures
        grows(t, answer_first(t, queue, output, ok).turn),
{
    let a = answered(t, queue[0], output);
    grows_by_message(t, result_message(queue[0].call.id, output));
    serve_grows(a, queue.drop_first());
    grows_further(t, a, answer_first(t, queue, output, ok).turn);
}

/// An input takes no message away; what it adds to the conversation, it adds to the messages that
/// the turn produced.
pub proof fn step_grows(t: TurnView, input: TurnInputView, pretty: Seq<Option<Seq<char>>>)
    ensures
        grows(t, turn_step(t, input, pretty).turn),
{
    let u = turn_step(t, input, pretty).turn;
    match (t.phase, input) {
        (PhaseView::Streaming(s), TurnInputView::Closed { now }) => {
            let plain = reasoned(
                text_message(Role::Assistant, s.text),
                s.reasoning,
            );
            let asking = reasoned(
                calls_message(s.text, s.calls),
                s.reasoning,
            );
            grows_by_message(t, plain);
            grows_by_message(t, asking);
            if s.calls.len() == 0 {
                if s.text.len() == 0 {
                    grows_by_itself(t, u);
                }
            } else {
                let queue = queue_of(s.calls, pretty);
                serve_grows(with_message(t, asking), queue);
                if !(any_effects(t.tools, queue) && !t.saved && t.can_save) {
                    grows_further(t, with_message(t, asking), u);
                }
            }
        },
        (PhaseView::Saving { queue, index }, TurnInputView::Snapshot(outcome)) => {
            let marked = TurnView { saved: true, ..t };
            serve_grows(t, queue);
            serve_grows(marked, queue);
        },
        (PhaseView::Asking { queue }, TurnInputView::Decision(d)) => {
            if d == PermissionDecision::Deny {
                answer_grows(t, queue, DENIED@, false);
            } else {
                grows_by_itself(t, u);
            }
        },
        (PhaseView::Running { queue }, TurnInputView::Finished(result)) => {
            let a = tool_answer(result);
            answer_grows(t, queue, a.0, a.1);
        },
        _ => {
            grows_by_itself(t, u);
        },
    }
}

/// What the model gets is the prompt of the profile, the history, and every message that the turn
/// has produced, in that order and nothing else.
pub proof fn conversation_is_kept(
    agent: AgentKind,
    tools: Seq<ToolDeclView>,
    history: Seq<MessageView>,
    can_save: bool,
    inputs: Seq<TurnInputView>,
)
    ensures
        ({
            let u = turn_run(turn_start(agent, tools, history, can_save), inputs).turn;
            u.messages == seq![text_message(Role::System, prompt_of(agent))] + history
                + u.appended
        }),
    decreases inputs.len(),
{
    let t = turn_start(agent, tools, history, can_save);
    let base = seq![text_message(Role::System, prompt_of(agent))] + history;
    if inputs.len() == 0 {
        assert(base + Seq::<MessageView>::empty() =~= base);
    } else {
        conversation_is_kept(agent, tools, history, can_save, inputs.drop_last());
        let before = turn_run(t, inputs.drop_last()).turn;
        let now = turn_run(t, inputs).turn;
        step_grows(before, inputs.last(), step_pretty(before));
        let n = before.appended.len() as int;
        assert(now.appended =~= before.appended + now.appended.skip(n)) by {
            assert forall|i: int| 0 <= i < n implies now.appended[i] == before.appended[i] by {
                assert(now.appended.subrange(0, n)[i] == before.appended[i]);
            }
        }
        assert(now.messages =~= base + now.appended);
    }
}

// ── Reports ───────────────────────────────────────────────────────────────────

/// Whether `e` reports the end of the turn.
pub open spec fn is_turn_end(e: AgentEventView) -> bool {
    e is Turn
}

/// Whether `e` reports that the worktree was saved.
pub open spec fn is_snapshot(e: AgentEventView) -> bool {
    e is StepSnapshot
}

/// How many of the events report that the worktree was saved.
pub open spec fn snapshots_in(events: Seq<AgentEventView>) -> nat
    decreases events.len(),
{
    if events.len() == 0 {
        0
    } else {
        snapshots_in(events.drop_last()) + if is_snapshot(events.last()) {
            1nat
        } else {
            0
        }
    }
}

proof fn snapshots_in_sum(a: Seq<AgentEventView>, b: Seq<AgentEventView>)
    ensures
        snapshots_in(a + b) == snapshots_in(a) + snapshots_in(b),
    decreases b.len(),
{
    if b.len() == 0 {
        assert(a + b =~= a);
    } else {
        snapshots_in_sum(a, b.drop_last());
        assert((a + b).drop_last() =~= a + b.drop_last());
    }
}

proof fn no_snapshots_in(events: Seq<AgentEventView>)
    requires
        forall|i: int| 0 <= i < events.len() ==> !is_snapshot(#[trigger] events[i]),
    ensures
        snapshots_in(events) == 0,
    decreases events.len(),
{
    if events.len() > 0 {
        no_snapshots_in(events.drop_last());
        assert(!is_snapshot(events[events.len() - 1]));
    }
}

proof fn some_snapshot(events: Seq<AgentEventView>, i: int)
    requires
        0 <= i < events.len(),
        is_snapshot(events[i]),
    ensures
        snapshots_in(events) >= 1,
    decreases events.len(),
{
    if i < events.len() - 1 {
        some_snapshot(events.drop_last(), i);
    }
}

/// Whether the end of the turn is reported exactly where the state is `Done`, as the last event
/// and with the messages that the turn produced.
pub open spec fn ends_well(o: Outcome) -> bool {
    &&& forall|i: int|
        0 <= i < o.events.len() && is_turn_end(#[trigger] o.events[i]) ==> i == o.events.len() - 1
            && o.turn.phase is Done && o.events[i] == AgentEventView::Turn(o.turn.appended)
}

proof fn serve_reports(t: TurnView, queue: Seq<QueuedCallView>)
    ensures
        ends_well(serve(t, queue)),
        forall|i: int|
            0 <= i < serve(t, queue).events.len() ==> !is_snapshot(
                #[trigger] serve(t, queue).events[i],
            ),
        serve(t, queue).turn.phase is Done ==> serve(t, queue).events.len() > 0 && is_turn_end(
            serve(t, queue).events.last(),
        ),
    decreases queue.len(),
{
    if queue.len() > 0 {
        let c = queue[0];
        let output = refusal(t.tools, c);
        let rest = serve(answered(t, c, output), queue.drop_first());
        serve_reports(answered(t, c, output), queue.drop_first());
        let head = refusal_report(t.tools, c);
        let n = head.len() as int;
        let all = head + rest.events;
        assert forall|i: int| 0 <= i < all.len() implies !is_snapshot(#[trigger] all[i]) by {
            if i >= n {
                assert(all[i] == rest.events[i - n]);
            }
        }
        assert forall|i: int| 0 <= i < all.len() && is_turn_end(#[trigger] all[i]) implies i
            == all.len() - 1 && rest.turn.phase is Done && all[i] == AgentEventView::Turn(
            rest.turn.appended,
        ) by {
            if i >= n {
                assert(all[i] == rest.events[i - n]);
            }
        }
        if rest.events.len() > 0 {
            assert(all.last() == rest.events.last());
        }
    }
}

/// What an input reports behind the events `head`, none of which ends the turn.
proof fn reports_behind(head: Seq<AgentEventView>, o: Outcome, whole: Outcome)
    requires
        ends_well(o),
        forall|i: int| 0 <= i < head.len() ==> !is_turn_end(#[trigger] head[i]),
        whole.turn == o.turn,
        whole.events == head + o.events,
    ensures
        ends_well(whole),
{
    assert forall|i: int| 0 <= i < whole.events.len() && is_turn_end(
        #[trigger] whole.events[i],
    ) implies i == whole.events.len() - 1 && whole.turn.phase is Done && whole.events[i]
        == AgentEventView::Turn(whole.turn.appended) by {
        if i >= head.len() {
            assert(whole.events[i] == o.events[i - head.len()]);
        } else {
            assert(whole.events[i] == head[i]);
        }
    }
}

/// An input that ends the turn reports so, once, last, and with the messages that the turn
/// produced; it reports that the worktree was saved only where it was not saved before.
pub proof fn step_reports(t: TurnView, input: TurnInputView, pretty: Seq<Option<Seq<char>>>)
    requires
        turn_ok(t),
    ensures
        ends_well(turn_step(t, input, pretty)),
        t.phase is Done ==> turn_step(t, input, pretty).events.len() == 0,
        snapshots_in(turn_step(t, input, pretty).events) <= 1,
        snapshots_in(turn_step(t, input, pretty).events) == 1 ==> !t.saved && turn_step(
            t,
            input,
            pretty,
        ).turn.saved,
{
    let o = turn_step(t, input, pretty);
    match (t.phase, input) {
        (PhaseView::Streaming(s), TurnInputView::Event { event, now }) => {
            no_snapshots_in(o.events);
        },
        (PhaseView::Streaming(s), TurnInputView::Closed { now }) => {
            let report = thought_end(s, now);
            let plain = reasoned(
                text_message(Role::Assistant, s.text),
                s.reasoning,
            );
            let asking = reasoned(
                calls_message(s.text, s.calls),
                s.reasoning,
            );
            let end = turn_end(
                if s.text.len() == 0 {
                    t
                } else {
                    with_message(t, plain)
                },
            );
            let queue = queue_of(s.calls, pretty);
            let served = serve(with_message(t, asking), queue);
            serve_reports(with_message(t, asking), queue);
            if s.calls.len() == 0 {
                reports_behind(report, end, o);
                no_snapshots_in(o.events);
            } else if any_effects(t.tools, queue) && !t.saved && t.can_save {
                no_snapshots_in(o.events);
            } else {
                reports_behind(report, served, o);
                assert forall|i: int| 0 <= i < o.events.len() implies !is_snapshot(
                    #[trigger] o.events[i],
                ) by {
                    if i >= report.len() {
                        assert(o.events[i] == served.events[i - report.len()]);
                    }
                }
                no_snapshots_in(o.events);
            }
        },
        (PhaseView::Saving { queue, index }, TurnInputView::Snapshot(outcome)) => {
            let marked = TurnView { saved: true, ..t };
            serve_reports(t, queue);
            serve_reports(marked, queue);
            no_snapshots_in(serve(t, queue).events);
            no_snapshots_in(serve(marked, queue).events);
            turn_stays_sound(t, input, pretty);
            if let SnapshotOutcomeView::Taken(hash) = outcome {
                let head = seq![AgentEventView::StepSnapshot { hash, message_index: index }];
                reports_behind(head, serve(marked, queue), o);
                snapshots_in_sum(head, serve(marked, queue).events);
                assert(head.drop_last() =~= seq![]);
                assert(snapshots_in(head) == 1) by {
                    reveal_with_fuel(snapshots_in, 2);
                }
                saved_stays(marked, queue);
            }
        },
        (PhaseView::Asking { queue }, TurnInputView::Decision(d)) => {
            if d == PermissionDecision::Deny {
                answer_reports(t, queue, DENIED@, false);
            } else {
                no_snapshots_in(o.events);
            }
        },
        (PhaseView::Running { queue }, TurnInputView::Finished(result)) => {
            let a = tool_answer(result);
            answer_reports(t, queue, a.0, a.1);
        },
        _ => {},
    }
}

proof fn saved_stays(t: TurnView, queue: Seq<QueuedCallView>)
    ensures
        serve(t, queue).turn.saved == t.saved,
    decreases queue.len(),
{
    if queue.len() > 0 {
        let c = queue[0];
        saved_stays(answered(t, c, BLOCKED@), queue.drop_first());
        saved_stays(answered(t, c, unknown_tool(c.call.function.name)), queue.drop_first());
    }
}

proof fn answer_reports(t: TurnView, queue: Seq<QueuedCallView>, output: Seq<char>, ok: bool)
    ensures
        ends_well(answer_first(t, queue, output, ok)),
        snapshots_in(answer_first(t, queue, output, ok).events) == 0,
{
    let o = answer_first(t, queue, output, ok);
    let head = seq![call_finished(queue[0], output, ok)];
    let rest = serve(answered(t, queue[0], output), queue.drop_first());
    serve_reports(answered(t, queue[0], output), queue.drop_first());
    reports_behind(head, rest, o);
    assert forall|i: int| 0 <= i < o.events.len() implies !is_snapshot(
        #[trigger] o.events[i],
    ) by {
        if i >= 1 {
            assert(o.events[i] == rest.events[i - 1]);
        }
    }
    no_snapshots_in(o.events);
}

/// The worktree is saved at most once in a turn, however many steps with effects it has.
pub proof fn one_snapshot_per_turn(
    agent: AgentKind,
    tools: Seq<ToolDeclView>,
    history: Seq<MessageView>,
    can_save: bool,
    inputs: Seq<TurnInputView>,
)
    ensures
        ({
            let o = turn_run(turn_start(agent, tools, history, can_save), inputs);
            snapshots_in(o.events) <= 1 && (snapshots_in(o.events) == 1 ==> o.turn.saved)
        }),
    decreases inputs.len(),
{
    let t = turn_start(agent, tools, history, can_save);
    turn_starts_sound(agent, tools, history, can_save);
    if inputs.len() > 0 {
        one_snapshot_per_turn(agent, tools, history, can_save, inputs.drop_last());
        turn_run_is_sound(t, inputs.drop_last());
        let before = turn_run(t, inputs.drop_last());
        let now = turn_step(before.turn, inputs.last(), step_pretty(before.turn));
        step_reports(before.turn, inputs.last(), step_pretty(before.turn));
        turn_stays_sound(before.turn, inputs.last(), step_pretty(before.turn));
        snapshots_in_sum(before.events, now.events);
    }
}

/// The end of a turn is reported once, as its last event, and with the messages that it produced;
/// every tool call in them is answered.
pub proof fn end_is_reported_last(t: TurnView, inputs: Seq<TurnInputView>, i: int)
    requires
        turn_ok(t),
        t.phase !is Done,
        0 <= i < turn_run(t, inputs).events.len(),
        is_turn_end(turn_run(t, inputs).events[i]),
    ensures
        i == turn_run(t, inputs).events.len() - 1,
        turn_run(t, inputs).turn.phase is Done,
        turn_run(t, inputs).events[i] == AgentEventView::Turn(turn_run(t, inputs).turn.appended),
        waiting_calls(turn_run(t, inputs).turn.appended) == Some(Seq::<ToolCallView>::empty()),
    decreases inputs.len(),
{
    if inputs.len() > 0 {
        turn_run_is_sound(t, inputs);
        turn_run_is_sound(t, inputs.drop_last());
        let before = turn_run(t, inputs.drop_last());
        let now = turn_step(before.turn, inputs.last(), step_pretty(before.turn));
        step_reports(before.turn, inputs.last(), step_pretty(before.turn));
        if i < before.events.len() {
            assert(turn_run(t, inputs).events[i] == before.events[i]);
            end_is_reported_last(t, inputs.drop_last(), i);
            assert(now.events.len() == 0);
        } else {
            assert(now.events[i - before.events.len()] == turn_run(t, inputs).events[i]);
        }
    }
}

/// A report that the worktree was saved names the message with the tool calls of the step.
pub proof fn snapshot_names_its_message(
    t: TurnView,
    input: TurnInputView,
    pretty: Seq<Option<Seq<char>>>,
    i: int,
)
    requires
        turn_ok(t),
        0 <= i < turn_step(t, input, pretty).events.len(),
        is_snapshot(turn_step(t, input, pretty).events[i]),
    ensures
        ({
            let n = turn_step(t, input, pretty).events[i]->message_index;
            let kept = turn_step(t, input, pretty).turn.appended;
            &&& n < kept.len()
            &&& kept[n as int].role == Role::Assistant
            &&& kept[n as int].tool_calls.len() > 0
        }),
{
    let o = turn_step(t, input, pretty);
    step_grows(t, input, pretty);
    match (t.phase, input) {
        (PhaseView::Saving { queue, index }, TurnInputView::Snapshot(outcome)) => {
            let marked = TurnView { saved: true, ..t };
            serve_reports(t, queue);
            serve_reports(marked, queue);
            if let SnapshotOutcomeView::Taken(hash) = outcome {
                if i > 0 {
                    assert(o.events[i] == serve(marked, queue).events[i - 1]);
                }
                assert(o.turn.appended.subrange(0, t.appended.len() as int)[index as int]
                    == t.appended[index as int]);
                assert(t.appended.last().tool_calls.len() == queue.len());
            }
        },
        (PhaseView::Streaming(s), TurnInputView::Closed { now }) => {
            let asking = reasoned(
                calls_message(s.text, s.calls),
                s.reasoning,
            );
            step_reports(t, input, pretty);
            saved_stays(with_message(t, asking), queue_of(s.calls, pretty));
            some_snapshot(o.events, i);
        },
        (PhaseView::Asking { queue }, TurnInputView::Decision(d)) => {
            if d == PermissionDecision::Deny {
                answer_reports(t, queue, DENIED@, false);
                some_snapshot(o.events, i);
            }
        },
        (PhaseView::Running { queue }, TurnInputView::Finished(result)) => {
            let a = tool_answer(result);
            answer_reports(t, queue, a.0, a.1);
            some_snapshot(o.events, i);
        },
        _ => {},
    }
}

// ── Consent ───────────────────────────────────────────────────────────────────

/// The call that runs in the state `t`.
pub open spec fn running_call(t: TurnView) -> Option<QueuedCallView> {
    match t.phase {
        PhaseView::Running { queue } => Some(queue[0]),
        _ => None,
    }
}

proof fn serve_asks(t: TurnView, queue: Seq<QueuedCallView>)
    ensures
        serve(t, queue).turn.phase matches PhaseView::Running { queue: q } ==> !needs_permission(
            t.tools,
            q[0].call.function.name,
        ),
        serve(t, queue).turn.tools == t.tools,
    decreases queue.len(),
{
    if queue.len() > 0 {
        let c = queue[0];
        serve_asks(answered(t, c, BLOCKED@), queue.drop_first());
        serve_asks(answered(t, c, unknown_tool(c.call.function.name)), queue.drop_first());
    }
}

/// A tool that needs permission begins to run only where the user has just allowed that very
/// call, and in the profile `Plan` not even then.
pub proof fn effects_need_consent(
    t: TurnView,
    input: TurnInputView,
    pretty: Seq<Option<Seq<char>>>,
)
    requires
        turn_ok(t),
        t.phase !is Running || input is Finished,
        turn_step(t, input, pretty).turn.phase is Running,
        needs_permission(
            t.tools,
            running_call(turn_step(t, input, pretty).turn)->0.call.function.name,
        ),
    ensures
        input == TurnInputView::Decision(PermissionDecision::Allow),
        t.phase is Asking,
        t.phase->Asking_queue[0] == running_call(turn_step(t, input, pretty).turn)->0,
        t.agent == AgentKind::Build,
{
    match (t.phase, input) {
        (PhaseView::Streaming(s), TurnInputView::Closed { now }) => {
            let asking = reasoned(
                calls_message(s.text, s.calls),
                s.reasoning,
            );
            serve_asks(with_message(t, asking), queue_of(s.calls, pretty));
        },
        (PhaseView::Saving { queue, index }, TurnInputView::Snapshot(outcome)) => {
            serve_asks(t, queue);
            serve_asks(TurnView { saved: true, ..t }, queue);
        },
        (PhaseView::Asking { queue }, TurnInputView::Decision(d)) => {
            serve_asks(answered(t, queue[0], DENIED@), queue.drop_first());
        },
        (PhaseView::Running { queue }, TurnInputView::Finished(result)) => {
            let a = tool_answer(result);
            serve_asks(answered(t, queue[0], a.0), queue.drop_first());
        },
        _ => {},
    }
}

/// Whether `e` reports that a tool that needs permission starts.
pub open spec fn starts_effects(tools: Seq<ToolDeclView>, e: AgentEventView) -> bool {
    e matches AgentEventView::ToolStarted { name, arguments } && needs_permission(tools, name)
}

proof fn serve_starts_no_effects(t: TurnView, queue: Seq<QueuedCallView>)
    ensures
        forall|i: int|
            0 <= i < serve(t, queue).events.len() ==> !starts_effects(
                t.tools,
                #[trigger] serve(t, queue).events[i],
            ),
    decreases queue.len(),
{
    if queue.len() > 0 {
        let c = queue[0];
        let a = answered(t, c, refusal(t.tools, c));
        let rest = serve(a, queue.drop_first());
        serve_starts_no_effects(a, queue.drop_first());
        let head = refusal_report(t.tools, c);
        let n = head.len() as int;
        let all = head + rest.events;
        assert forall|i: int| 0 <= i < all.len() implies !starts_effects(
            t.tools,
            #[trigger] all[i],
        ) by {
            if i >= n {
                assert(all[i] == rest.events[i - n]);
            }
        }
    }
}

/// The start of a tool that needs permission is reported only where the user has just allowed
/// that very call, and then as the only event. So no start is reported of a call that the user
/// denies or that the profile blocks.
pub proof fn starts_need_consent(
    t: TurnView,
    input: TurnInputView,
    pretty: Seq<Option<Seq<char>>>,
    i: int,
)
    requires
        turn_ok(t),
        0 <= i < turn_step(t, input, pretty).events.len(),
        starts_effects(t.tools, turn_step(t, input, pretty).events[i]),
    ensures
        input == TurnInputView::Decision(PermissionDecision::Allow),
        t.phase is Asking,
        turn_step(t, input, pretty).events == seq![call_started(t.phase->Asking_queue[0])],
        t.agent == AgentKind::Build,
{
    let o = turn_step(t, input, pretty);
    match (t.phase, input) {
        (PhaseView::Streaming(s), TurnInputView::Closed { now }) => {
            let asking = reasoned(
                calls_message(s.text, s.calls),
                s.reasoning,
            );
            let queue = queue_of(s.calls, pretty);
            let n = thought_end(s, now).len() as int;
            serve_starts_no_effects(with_message(t, asking), queue);
            if s.calls.len() > 0 && i >= n {
                assert(o.events[i] == serve(with_message(t, asking), queue).events[i - n]);
            }
        },
        (PhaseView::Saving { queue, index }, TurnInputView::Snapshot(outcome)) => {
            let marked = TurnView { saved: true, ..t };
            serve_starts_no_effects(t, queue);
            serve_starts_no_effects(marked, queue);
            if outcome is Taken && i >= 1 {
                assert(o.events[i] == serve(marked, queue).events[i - 1]);
            }
        },
        (PhaseView::Asking { queue }, TurnInputView::Decision(d)) => {
            let a = answered(t, queue[0], DENIED@);
            serve_starts_no_effects(a, queue.drop_first());
            if d == PermissionDecision::Deny && i >= 1 {
                assert(o.events[i] == serve(a, queue.drop_first()).events[i - 1]);
            }
        },
        (PhaseView::Running { queue }, TurnInputView::Finished(result)) => {
            let a = answered(t, queue[0], tool_answer(result).0);
            serve_starts_no_effects(a, queue.drop_first());
            if i >= 1 {
                assert(o.events[i] == serve(a, queue.drop_first()).events[i - 1]);
            }
        },
        _ => {},
    }
}

/// In the profile `Plan` the user is never asked, and no tool that needs permission is run.
pub proof fn plan_has_no_effects(t: TurnView)
    requires
        turn_ok(t),
        t.agent == AgentKind::Plan,
    ensures
        turn_action(t) !is AskPermission,
        turn_action(t) matches TurnActionView::RunTool { name, arguments } ==> !needs_permission(
            t.tools,
            name,
        ),
{
}

/// Where no two tools have the same name, a call of a tool that is offered to the model is served:
/// it runs, or the user is asked.
pub proof fn what_is_offered_is_served(t: TurnView, queue: Seq<QueuedCallView>, i: int)
    requires
        queue.len() > 0,
        forall|j: int, k: int|
            0 <= j < k < t.tools.len() ==> (#[trigger] t.tools[j]).name != (#[trigger] t.tools[k]).name,
        0 <= i < offered(t.agent, t.tools).len(),
        offered(t.agent, t.tools)[i].name == queue[0].call.function.name,
    ensures
        serve(t, queue).turn.phase == (PhaseView::Running { queue }) || serve(t, queue).turn.phase
            == (PhaseView::Asking { queue }),
{
    let keep = |d: ToolDeclView| offers(t.agent, d);
    let d = t.tools.filter(keep)[i];
    assert(offered(t.agent, t.tools)[i] == spec_of_decl(d));
    t.tools.lemma_filter_contains_rev(keep, d);
    t.tools.lemma_filter_pred(keep, i);
    assert(keep(d));
    let k = choose|k: int| 0 <= k < t.tools.len() && t.tools[k] == d;
    found_by_its_name(t.tools, k);
}

proof fn found_by_its_name(decls: Seq<ToolDeclView>, k: int)
    requires
        forall|i: int, j: int|
            0 <= i < j < decls.len() ==> (#[trigger] decls[i]).name != (#[trigger] decls[j]).name,
        0 <= k < decls.len(),
    ensures
        find_tool(decls, decls[k].name) == Some(decls[k]),
    decreases decls.len(),
{
    if k > 0 {
        let rest = decls.drop_first();
        assert(decls[0].name != decls[k].name);
        assert forall|i: int, j: int| 0 <= i < j < rest.len() implies (#[trigger] rest[i]).name != (
        #[trigger] rest[j]).name by {
            assert(rest[i] == decls[i + 1]);
            assert(rest[j] == decls[j + 1]);
        }
        found_by_its_name(rest, k - 1);
        assert(rest[k - 1] == decls[k]);
    }
}

/// The model is called only while it was called fewer than [`MAX_STEPS`] times.
pub proof fn model_calls_are_bounded(t: TurnView)
    requires
        turn_ok(t),
        turn_action(t) is CallModel,
    ensures
        t.steps < MAX_STEPS,
        forall|pretty: Seq<Option<Seq<char>>>| #[trigger]
            turn_step(t, TurnInputView::Opened, pretty).turn.steps == t.steps + 1,
{
}

// ── The chain of thought ──────────────────────────────────────────────────────

/// The end of the chain of thought is reported only where a piece of it came before, and a step
/// in which it was reported reports it no more.
pub proof fn thought_ends_once(
    t: TurnView,
    event: StreamEventView,
    now: nat,
    pretty: Seq<Option<Seq<char>>>,
)
    requires
        turn_ok(t),
        t.phase is Streaming,
    ensures
        ({
            let s = t.phase->Streaming_0;
            let o = turn_step(t, TurnInputView::Event { event, now }, pretty);
            let u = o.turn.phase->Streaming_0;
            &&& o.turn.phase is Streaming
            &&& (exists|i: int|
                0 <= i < o.events.len() && #[trigger] o.events[i] is ReasoningFinished) ==> (
            s.started is Some && !s.closed && u.closed)
            &&& s.closed ==> u.closed
            &&& s.started is Some && !(event is Reasoning) ==> u.closed
        }),
{
    let s = t.phase->Streaming_0;
    let o = turn_step(t, TurnInputView::Event { event, now }, pretty);
    if exists|i: int| 0 <= i < o.events.len() && #[trigger] o.events[i] is ReasoningFinished {
        let i = choose|i: int|
            0 <= i < o.events.len() && #[trigger] o.events[i] is ReasoningFinished;
        assert(thought_open(s));
    }
}

} // verus!
