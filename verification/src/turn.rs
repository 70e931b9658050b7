//! A turn of the agent, as a machine. The machine decides; what has to be awaited (the model, the
//! user, a tool, the state of the worktree) happens outside, and comes back as an input.
use vstd::prelude::*;
use crate::agent::{event_views, prompt_of, AgentEvent, AgentEventView, AgentKind,
    PermissionDecision, PermissionRequest, PermissionRequestView};
use crate::json::{json_pretty, lay_out, pretty_or_raw, shown_args};
use crate::message::{call_views, calls_message, clone_messages, message_views, reasoned,
    result_message, text_message, Message, MessageView, Role, ToolCall, ToolCallView};
use crate::stream::{StreamEvent, StreamEventView};
use crate::text::{concat2, opt_view, owned};
use crate::tool::{error_text, find_tool, needs_permission, Error, ErrorView, ToolDeclView,
    ToolRegistry};

verus! {

/// How many times the model is called in a turn at most.
pub const MAX_STEPS: usize = 16;

/// What a tool with effects is answered in the profile `Plan`.
pub const BLOCKED: &'static str =
    "Tool con efectos rechazada: el agente está en modo plan (solo lectura).";

/// What a tool is answered that the user did not allow.
pub const DENIED: &'static str = "El usuario denegó el permiso para ejecutar esta tool.";

// ── Inputs and actions ────────────────────────────────────────────────────────

/// What became of saving the worktree.
#[derive(Debug)]
pub enum SnapshotOutcome {
    /// It was saved under this name.
    Taken(String),
    /// The worktree cannot be saved.
    Unavailable,
    /// It failed this time.
    Failed,
}

/// What a [`SnapshotOutcome`] holds.
pub enum SnapshotOutcomeView {
    Taken(Seq<char>),
    Unavailable,
    Failed,
}

impl View for SnapshotOutcome {
    type V = SnapshotOutcomeView;

    open spec fn view(&self) -> SnapshotOutcomeView {
        match self {
            SnapshotOutcome::Taken(s) => SnapshotOutcomeView::Taken(s@),
            SnapshotOutcome::Unavailable => SnapshotOutcomeView::Unavailable,
            SnapshotOutcome::Failed => SnapshotOutcomeView::Failed,
        }
    }
}

/// What happened outside. Times are nanoseconds on a clock that starts with the turn.
#[derive(Debug)]
pub enum TurnInput {
    /// The model took the conversation and begins to reply.
    Opened,
    /// The model sent something.
    Event { event: StreamEvent, now: u64 },
    /// The model closed its reply.
    Closed { now: u64 },
    /// The model could not be reached, or its reply broke off.
    Failed,
    /// The worktree was to be saved.
    Snapshot(SnapshotOutcome),
    /// The user answered.
    Decision(PermissionDecision),
    /// A tool ended.
    Finished(Result<String, Error>),
}

/// What a [`TurnInput`] holds.
pub enum TurnInputView {
    Opened,
    Event { event: StreamEventView, now: nat },
    Closed { now: nat },
    Failed,
    Snapshot(SnapshotOutcomeView),
    Decision(PermissionDecision),
    Finished(Result<Seq<char>, ErrorView>),
}

impl View for TurnInput {
    type V = TurnInputView;

    open spec fn view(&self) -> TurnInputView {
        match self {
            TurnInput::Opened => TurnInputView::Opened,
            TurnInput::Event { event, now } => TurnInputView::Event {
                event: event@,
                now: *now as nat,
            },
            TurnInput::Closed { now } => TurnInputView::Closed { now: *now as nat },
            TurnInput::Failed => TurnInputView::Failed,
            TurnInput::Snapshot(s) => TurnInputView::Snapshot(s@),
            TurnInput::Decision(d) => TurnInputView::Decision(*d),
            TurnInput::Finished(Ok(s)) => TurnInputView::Finished(Ok(s@)),
            TurnInput::Finished(Err(e)) => TurnInputView::Finished(Err(e@)),
        }
    }
}

/// What has to be done outside next.
#[derive(Debug)]
pub enum TurnAction {
    /// Send the conversation to the model.
    CallModel,
    /// Wait for the next part of the reply.
    AwaitEvent,
    /// Save the worktree.
    TakeSnapshot,
    /// Ask the user.
    AskPermission(PermissionRequest),
    /// Run the tool `name` with these arguments.
    RunTool { name: String, arguments: String },
    /// Nothing: the turn is over.
    Stop,
}

/// What a [`TurnAction`] holds.
pub enum TurnActionView {
    CallModel,
    AwaitEvent,
    TakeSnapshot,
    AskPermission(PermissionRequestView),
    RunTool { name: Seq<char>, arguments: Seq<char> },
    Stop,
}

impl View for TurnAction {
    type V = TurnActionView;

    open spec fn view(&self) -> TurnActionView {
        match self {
            TurnAction::CallModel => TurnActionView::CallModel,
            TurnAction::AwaitEvent => TurnActionView::AwaitEvent,
            TurnAction::TakeSnapshot => TurnActionView::TakeSnapshot,
            TurnAction::AskPermission(p) => TurnActionView::AskPermission(p@),
            TurnAction::RunTool { name, arguments } => TurnActionView::RunTool {
                name: name@,
                arguments: arguments@,
            },
            TurnAction::Stop => TurnActionView::Stop,
        }
    }
}

// ── States ────────────────────────────────────────────────────────────────────

/// A call that waits for its answer.
#[derive(Debug)]
pub struct QueuedCall {
    call: ToolCall,
    shown: String,
}

/// What a [`QueuedCall`] holds: the call, and its arguments for display.
pub struct QueuedCallView {
    pub call: ToolCallView,
    pub shown: Seq<char>,
}

impl View for QueuedCall {
    type V = QueuedCallView;

    closed spec fn view(&self) -> QueuedCallView {
        QueuedCallView { call: self.call@, shown: self.shown@ }
    }
}

/// The views of a list of waiting calls.
pub open spec fn queue_views(queue: Seq<QueuedCall>) -> Seq<QueuedCallView> {
    queue.map_values(|q: QueuedCall| q@)
}

/// What has arrived of the reply of a step.
#[derive(Debug)]
pub struct Step {
    text: String,
    reasoning: String,
    started: Option<u64>,
    closed: bool,
    calls: Vec<ToolCall>,
}

/// What a [`Step`] holds.
#[verifier::ext_equal]
pub struct StepView {
    pub text: Seq<char>,
    pub reasoning: Seq<char>,
    /// When the first piece of the chain of thought came.
    pub started: Option<nat>,
    /// Whether the end of the chain of thought was reported.
    pub closed: bool,
    pub calls: Seq<ToolCallView>,
}

impl View for Step {
    type V = StepView;

    closed spec fn view(&self) -> StepView {
        StepView {
            text: self.text@,
            reasoning: self.reasoning@,
            started: match self.started {
                Some(t) => Some(t as nat),
                None => None,
            },
            closed: self.closed,
            calls: call_views(self.calls@),
        }
    }
}

/// A step of which nothing has arrived.
pub open spec fn empty_step() -> StepView {
    StepView { text: seq![], reasoning: seq![], started: None, closed: false, calls: seq![] }
}

/// Where a turn stands.
#[derive(Debug)]
pub enum Phase {
    /// The model is to be called.
    Ready,
    /// The model replies.
    Streaming(Step),
    /// The worktree is to be saved, before the calls in the queue.
    Saving { queue: Vec<QueuedCall>, index: usize },
    /// The user is asked for the first call in the queue.
    Asking { queue: Vec<QueuedCall> },
    /// The first call in the queue runs.
    Running { queue: Vec<QueuedCall> },
    /// The turn is over.
    Done,
}

/// What a [`Phase`] holds.
#[verifier::ext_equal]
pub enum PhaseView {
    Ready,
    Streaming(StepView),
    Saving { queue: Seq<QueuedCallView>, index: nat },
    Asking { queue: Seq<QueuedCallView> },
    Running { queue: Seq<QueuedCallView> },
    Done,
}

impl View for Phase {
    type V = PhaseView;

    open spec fn view(&self) -> PhaseView {
        match self {
            Phase::Ready => PhaseView::Ready,
            Phase::Streaming(s) => PhaseView::Streaming(s@),
            Phase::Saving { queue, index } => PhaseView::Saving {
                queue: queue_views(queue@),
                index: *index as nat,
            },
            Phase::Asking { queue } => PhaseView::Asking { queue: queue_views(queue@) },
            Phase::Running { queue } => PhaseView::Running { queue: queue_views(queue@) },
            Phase::Done => PhaseView::Done,
        }
    }
}

/// A turn of the agent.
#[derive(Debug)]
pub struct Turn {
    agent: AgentKind,
    tools: ToolRegistry,
    can_save: bool,
    messages: Vec<Message>,
    appended: Vec<Message>,
    saved: bool,
    steps: usize,
    phase: Phase,
}

/// What a [`Turn`] holds.
#[verifier::ext_equal]
pub struct TurnView {
    pub agent: AgentKind,
    pub tools: Seq<ToolDeclView>,
    /// Whether the worktree can be saved.
    pub can_save: bool,
    /// The conversation, as the model gets it.
    pub messages: Seq<MessageView>,
    /// The messages that the turn produced.
    pub appended: Seq<MessageView>,
    /// Whether the worktree was saved in this turn.
    pub saved: bool,
    /// How many times the model was called.
    pub steps: nat,
    pub phase: PhaseView,
}

impl View for Turn {
    type V = TurnView;

    closed spec fn view(&self) -> TurnView {
        TurnView {
            agent: self.agent,
            tools: self.tools@,
            can_save: self.can_save,
            messages: message_views(self.messages@),
            appended: message_views(self.appended@),
            saved: self.saved,
            steps: self.steps as nat,
            phase: self.phase@,
        }
    }
}

/// What an input leads to: the next state and the events on the way.
#[verifier::ext_equal]
pub struct Outcome {
    pub turn: TurnView,
    pub events: Seq<AgentEventView>,
}

/// The start of a turn.
pub open spec fn turn_start(
    agent: AgentKind,
    tools: Seq<ToolDeclView>,
    history: Seq<MessageView>,
    can_save: bool,
) -> TurnView {
    TurnView {
        agent,
        tools,
        can_save,
        messages: seq![text_message(Role::System, prompt_of(agent))] + history,
        appended: seq![],
        saved: false,
        steps: 0,
        phase: PhaseView::Ready,
    }
}

/// `t` in the phase `phase`.
pub open spec fn in_phase(t: TurnView, phase: PhaseView) -> TurnView {
    TurnView { phase, ..t }
}

/// `t` with the message `m` behind the conversation.
pub open spec fn with_message(t: TurnView, m: MessageView) -> TurnView {
    TurnView { messages: t.messages.push(m), appended: t.appended.push(m), ..t }
}

/// The end of the turn `t`.
pub open spec fn turn_end(t: TurnView) -> Outcome {
    Outcome {
        turn: in_phase(t, PhaseView::Done),
        events: seq![AgentEventView::Turn(t.appended)],
    }
}

// ── The reply of the model ────────────────────────────────────────────────────

/// Whether the end of the chain of thought is to be reported.
pub open spec fn thought_open(s: StepView) -> bool {
    s.started is Some && !s.closed
}

/// How many milliseconds passed from `start` to `now`.
pub open spec fn millis(start: nat, now: nat) -> nat {
    if now < start {
        0
    } else {
        ((now - start) / 1_000_000) as nat
    }
}

/// The report that the chain of thought ended, where it is due.
pub open spec fn thought_end(s: StepView, now: nat) -> Seq<AgentEventView> {
    if thought_open(s) {
        seq![AgentEventView::ReasoningFinished { duration_ms: millis(s.started->0, now) }]
    } else {
        seq![]
    }
}

/// `s` after the report, where one was due.
pub open spec fn thought_closed(s: StepView) -> StepView {
    if thought_open(s) {
        StepView { closed: true, ..s }
    } else {
        s
    }
}

/// `s` with what the model sent.
pub open spec fn step_with(s: StepView, event: StreamEventView, now: nat) -> StepView {
    match event {
        StreamEventView::Delta(d) => {
            let c = thought_closed(s);
            StepView { text: c.text + d, ..c }
        },
        StreamEventView::Reasoning(r) => StepView {
            started: match s.started {
                Some(t) => Some(t),
                None => Some(now),
            },
            reasoning: s.reasoning + r,
            ..s
        },
        StreamEventView::ToolCalls(c) => StepView { calls: c, ..thought_closed(s) },
    }
}

/// What is reported of what the model sent.
pub open spec fn step_events(s: StepView, event: StreamEventView, now: nat) -> Seq<
    AgentEventView,
> {
    match event {
        StreamEventView::Delta(d) => thought_end(s, now).push(AgentEventView::Delta(d)),
        StreamEventView::Reasoning(r) => seq![AgentEventView::ReasoningDelta(r)],
        StreamEventView::ToolCalls(c) => thought_end(s, now),
    }
}

// ── The tool calls of a step ──────────────────────────────────────────────────

/// The calls of a step with their arguments for display. `pretty` holds, call by call, what
/// laying out the arguments gave.
pub open spec fn queue_of(calls: Seq<ToolCallView>, pretty: Seq<Option<Seq<char>>>) -> Seq<
    QueuedCallView,
> {
    Seq::new(
        calls.len(),
        |i: int|
            QueuedCallView {
                call: calls[i],
                shown: shown_args(
                    calls[i].function.arguments,
                    if i < pretty.len() {
                        pretty[i]
                    } else {
                        None
                    },
                ),
            },
    )
}

/// What laying out the arguments of each call gives.
pub open spec fn pretty_of(calls: Seq<ToolCallView>) -> Seq<Option<Seq<char>>> {
    calls.map_values(|c: ToolCallView| json_pretty(c.function.arguments))
}

/// Whether one of the calls is for a tool that needs permission.
pub open spec fn any_effects(tools: Seq<ToolDeclView>, queue: Seq<QueuedCallView>) -> bool {
    exists|i: int|
        0 <= i < queue.len() && #[trigger] needs_permission(tools, queue[i].call.function.name)
}

/// What an unknown tool is answered.
pub open spec fn unknown_tool(name: Seq<char>) -> Seq<char> {
    "Error: "@ + error_text(ErrorView::InvalidArguments("tool desconocida: "@ + name))
}

/// What a tool that ran is answered, and whether it did its work.
pub open spec fn tool_answer(result: Result<Seq<char>, ErrorView>) -> (Seq<char>, bool) {
    match result {
        Ok(out) => (out, true),
        Err(e) => ("Error: "@ + error_text(e), false),
    }
}

/// The report that the call `c` is taken up.
pub open spec fn call_started(c: QueuedCallView) -> AgentEventView {
    AgentEventView::ToolStarted { name: c.call.function.name, arguments: c.shown }
}

/// The report that the call `c` was answered.
pub open spec fn call_finished(c: QueuedCallView, output: Seq<char>, ok: bool) -> AgentEventView {
    AgentEventView::ToolFinished { name: c.call.function.name, output, ok }
}

/// `t` with the answer to the call `c`.
pub open spec fn answered(t: TurnView, c: QueuedCallView, output: Seq<char>) -> TurnView {
    with_message(t, result_message(c.call.id, output))
}

/// What a call that cannot run is answered: its tool has effects and the profile allows none, or
/// there is no such tool.
pub open spec fn refusal(tools: Seq<ToolDeclView>, c: QueuedCallView) -> Seq<char> {
    if needs_permission(tools, c.call.function.name) {
        BLOCKED@
    } else {
        unknown_tool(c.call.function.name)
    }
}

/// What is reported of a call that cannot run. Of a call that needs permission, which it does not
/// get, no start is reported.
pub open spec fn refusal_report(tools: Seq<ToolDeclView>, c: QueuedCallView) -> Seq<
    AgentEventView,
> {
    let finished = call_finished(c, refusal(tools, c), false);
    if needs_permission(tools, c.call.function.name) {
        seq![finished]
    } else {
        seq![call_started(c), finished]
    }
}

/// Takes up the calls in the queue, one after the other, until one needs something from outside
/// or all are answered. With all answered, the model is called again, as long as it may. A call
/// that needs permission is not reported to start before the user has allowed it.
pub open spec fn serve(t: TurnView, queue: Seq<QueuedCallView>) -> Outcome
    decreases queue.len(),
{
    if queue.len() == 0 {
        if t.steps < MAX_STEPS {
            Outcome { turn: in_phase(t, PhaseView::Ready), events: seq![] }
        } else {
            turn_end(t)
        }
    } else {
        let c = queue[0];
        let name = c.call.function.name;
        if needs_permission(t.tools, name) && t.agent == AgentKind::Build {
            Outcome { turn: in_phase(t, PhaseView::Asking { queue }), events: seq![] }
        } else if !needs_permission(t.tools, name) && find_tool(t.tools, name) is Some {
            Outcome {
                turn: in_phase(t, PhaseView::Running { queue }),
                events: seq![call_started(c)],
            }
        } else {
            let rest = serve(answered(t, c, refusal(t.tools, c)), queue.drop_first());
            Outcome { turn: rest.turn, events: refusal_report(t.tools, c) + rest.events }
        }
    }
}

/// Answers the first call in the queue and takes up the others.
pub open spec fn answer_first(
    t: TurnView,
    queue: Seq<QueuedCallView>,
    output: Seq<char>,
    ok: bool,
) -> Outcome {
    let rest = serve(answered(t, queue[0], output), queue.drop_first());
    Outcome { turn: rest.turn, events: seq![call_finished(queue[0], output, ok)] + rest.events }
}

/// What the closed reply `s` leads to.
pub open spec fn reply_closed(
    t: TurnView,
    s: StepView,
    now: nat,
    pretty: Seq<Option<Seq<char>>>,
) -> Outcome {
    let report = thought_end(s, now);
    if s.calls.len() == 0 {
        let m = reasoned(text_message(Role::Assistant, s.text), s.reasoning);
        let end = turn_end(
            if s.text.len() == 0 {
                t
            } else {
                with_message(t, m)
            },
        );
        Outcome { turn: end.turn, events: report + end.events }
    } else {
        let m = reasoned(calls_message(s.text, s.calls), s.reasoning);
        let asked = with_message(t, m);
        let queue = queue_of(s.calls, pretty);
        if any_effects(t.tools, queue) && !t.saved && t.can_save {
            Outcome {
                turn: in_phase(asked, PhaseView::Saving { queue, index: t.appended.len() }),
                events: report,
            }
        } else {
            let rest = serve(asked, queue);
            Outcome { turn: rest.turn, events: report + rest.events }
        }
    }
}

/// What an input leads to. An input that the phase does not wait for changes nothing. `pretty`
/// holds what laying out the arguments of the calls of the step gave.
pub open spec fn turn_step(
    t: TurnView,
    input: TurnInputView,
    pretty: Seq<Option<Seq<char>>>,
) -> Outcome {
    match (t.phase, input) {
        (PhaseView::Ready, TurnInputView::Opened) => Outcome {
            turn: TurnView {
                steps: t.steps + 1,
                phase: PhaseView::Streaming(empty_step()),
                ..t
            },
            events: seq![],
        },
        (PhaseView::Ready, TurnInputView::Failed) => Outcome {
            turn: in_phase(t, PhaseView::Done),
            events: seq![],
        },
        (PhaseView::Streaming(s), TurnInputView::Failed) => Outcome {
            turn: in_phase(t, PhaseView::Done),
            events: seq![],
        },
        (PhaseView::Streaming(s), TurnInputView::Event { event, now }) => Outcome {
            turn: in_phase(t, PhaseView::Streaming(step_with(s, event, now))),
            events: step_events(s, event, now),
        },
        (PhaseView::Streaming(s), TurnInputView::Closed { now }) => reply_closed(
            t,
            s,
            now,
            pretty,
        ),
        (PhaseView::Saving { queue, index }, TurnInputView::Snapshot(outcome)) => {
            match outcome {
                SnapshotOutcomeView::Taken(hash) => {
                    let rest = serve(TurnView { saved: true, ..t }, queue);
                    Outcome {
                        turn: rest.turn,
                        events: seq![AgentEventView::StepSnapshot { hash, message_index: index }]
                            + rest.events,
                    }
                },
                SnapshotOutcomeView::Unavailable => serve(TurnView { saved: true, ..t }, queue),
                SnapshotOutcomeView::Failed => serve(t, queue),
            }
        },
        (PhaseView::Asking { queue }, TurnInputView::Decision(d)) => {
            match d {
                PermissionDecision::Allow => Outcome {
                    turn: in_phase(t, PhaseView::Running { queue }),
                    events: seq![call_started(queue[0])],
                },
                PermissionDecision::Deny => answer_first(t, queue, DENIED@, false),
            }
        },
        (PhaseView::Running { queue }, TurnInputView::Finished(result)) => answer_first(
            t,
            queue,
            tool_answer(result).0,
            tool_answer(result).1,
        ),
        _ => Outcome { turn: t, events: seq![] },
    }
}

/// What has to be done outside in the state `t`.
pub open spec fn turn_action(t: TurnView) -> TurnActionView {
    match t.phase {
        PhaseView::Ready => TurnActionView::CallModel,
        PhaseView::Streaming(s) => TurnActionView::AwaitEvent,
        PhaseView::Saving { queue, index } => TurnActionView::TakeSnapshot,
        PhaseView::Asking { queue } => TurnActionView::AskPermission(
            PermissionRequestView {
                tool_name: queue[0].call.function.name,
                arguments: queue[0].shown,
            },
        ),
        PhaseView::Running { queue } => TurnActionView::RunTool {
            name: queue[0].call.function.name,
            arguments: queue[0].call.function.arguments,
        },
        PhaseView::Done => TurnActionView::Stop,
    }
}

// ── What holds in every state ─────────────────────────────────────────────────

/// What the message `m` makes of the calls that still wait for an answer: a message of the
/// assistant comes when none waits, and its calls wait from there on; a result answers the first
/// call that waits. `None` for a message out of place.
pub open spec fn waiting_after(waiting: Seq<ToolCallView>, m: MessageView) -> Option<
    Seq<ToolCallView>,
> {
    match m.role {
        Role::Assistant => if waiting.len() == 0 {
            Some(m.tool_calls)
        } else {
            None
        },
        Role::Tool => if waiting.len() > 0 && m.tool_call_id == Some(waiting[0].id) {
            Some(waiting.drop_first())
        } else {
            None
        },
        _ => None,
    }
}

/// The calls of `messages` that still wait for an answer; `None` where a message is out of place.
pub open spec fn waiting_calls(messages: Seq<MessageView>) -> Option<Seq<ToolCallView>>
    decreases messages.len(),
{
    if messages.len() == 0 {
        Some(seq![])
    } else {
        match waiting_calls(messages.drop_last()) {
            Some(w) => waiting_after(w, messages.last()),
            None => None,
        }
    }
}

/// The calls in a queue.
pub open spec fn queue_calls(queue: Seq<QueuedCallView>) -> Seq<ToolCallView> {
    queue.map_values(|q: QueuedCallView| q.call)
}

/// The calls that the state `t` has still to see answered.
pub open spec fn open_calls(t: TurnView) -> Seq<ToolCallView> {
    match t.phase {
        PhaseView::Saving { queue, index } => queue_calls(queue),
        PhaseView::Asking { queue } => queue_calls(queue),
        PhaseView::Running { queue } => queue_calls(queue),
        _ => seq![],
    }
}

/// What holds in every state of a turn.
pub open spec fn turn_ok(t: TurnView) -> bool {
    &&& t.steps <= MAX_STEPS
    &&& waiting_calls(t.appended) == Some(open_calls(t))
    &&& match t.phase {
        PhaseView::Ready => t.steps < MAX_STEPS,
        PhaseView::Streaming(s) => s.closed ==> s.started is Some,
        PhaseView::Saving { queue, index } => {
            &&& queue.len() > 0
            &&& any_effects(t.tools, queue)
            &&& t.can_save && !t.saved
            &&& index + 1 == t.appended.len()
            &&& t.appended.last().role == Role::Assistant
            &&& t.appended.last().tool_calls == queue_calls(queue)
        },
        PhaseView::Asking { queue } => {
            &&& queue.len() > 0
            &&& t.agent == AgentKind::Build
            &&& needs_permission(t.tools, queue[0].call.function.name)
        },
        PhaseView::Running { queue } => {
            &&& queue.len() > 0
            &&& find_tool(t.tools, queue[0].call.function.name) is Some
            &&& needs_permission(t.tools, queue[0].call.function.name) ==> t.agent
                == AgentKind::Build
        },
        PhaseView::Done => true,
    }
}

/// Serving the queue does not depend on the phase before it.
proof fn serve_ignores_phase(t: TurnView, phase: PhaseView, queue: Seq<QueuedCallView>)
    ensures
        serve(in_phase(t, phase), queue) == serve(t, queue),
    decreases queue.len(),
{
    if queue.len() > 0 {
        let c = queue[0];
        let blocked = answered(t, c, BLOCKED@);
        let unknown = answered(t, c, unknown_tool(c.call.function.name));
        serve_ignores_phase(blocked, phase, queue.drop_first());
        serve_ignores_phase(unknown, phase, queue.drop_first());
        assert(answered(in_phase(t, phase), c, BLOCKED@) == in_phase(blocked, phase));
        assert(answered(in_phase(t, phase), c, unknown_tool(c.call.function.name)) == in_phase(
            unknown,
            phase,
        ));
    }
}

/// An answer to the first call that waits leaves the others waiting.
proof fn answer_is_in_place(t: TurnView, queue: Seq<QueuedCallView>, output: Seq<char>)
    requires
        queue.len() > 0,
        waiting_calls(t.appended) == Some(queue_calls(queue)),
    ensures
        waiting_calls(answered(t, queue[0], output).appended) == Some(
            queue_calls(queue.drop_first()),
        ),
{
    let a = answered(t, queue[0], output);
    assert(a.appended.drop_last() =~= t.appended);
    assert(queue_calls(queue).drop_first() =~= queue_calls(queue.drop_first()));
}

/// Serving the queue leads to a sound state, and changes neither the profile nor the tools nor
/// whether the worktree was saved.
proof fn serve_is_sound(t: TurnView, queue: Seq<QueuedCallView>)
    requires
        t.steps <= MAX_STEPS,
        waiting_calls(t.appended) == Some(queue_calls(queue)),
    ensures
        turn_ok(serve(t, queue).turn),
        serve(t, queue).turn.agent == t.agent,
        serve(t, queue).turn.tools == t.tools,
        serve(t, queue).turn.saved == t.saved,
        serve(t, queue).turn.can_save == t.can_save,
        serve(t, queue).turn.steps == t.steps,
        serve(t, queue).turn.phase !is Saving,
        serve(t, queue).turn.phase !is Streaming,
    decreases queue.len(),
{
    if queue.len() == 0 {
        assert(queue_calls(queue) =~= seq![]);
    } else {
        let c = queue[0];
        let blocked = answered(t, c, BLOCKED@);
        let unknown = answered(t, c, unknown_tool(c.call.function.name));
        answer_is_in_place(t, queue, BLOCKED@);
        answer_is_in_place(t, queue, unknown_tool(c.call.function.name));
        serve_is_sound(blocked, queue.drop_first());
        serve_is_sound(unknown, queue.drop_first());
    }
}

/// The calls of a step wait once the assistant has asked for them.
proof fn asking_is_in_place(
    t: TurnView,
    s: StepView,
    pretty: Seq<Option<Seq<char>>>,
)
    requires
        waiting_calls(t.appended) == Some(Seq::<ToolCallView>::empty()),
    ensures
        waiting_calls(
            with_message(t, reasoned(calls_message(s.text, s.calls), s.reasoning)).appended,
        ) == Some(queue_calls(queue_of(s.calls, pretty))),
        queue_calls(queue_of(s.calls, pretty)) == s.calls,
{
    let m = reasoned(calls_message(s.text, s.calls), s.reasoning);
    assert(with_message(t, m).appended.drop_last() =~= t.appended);
    assert(queue_calls(queue_of(s.calls, pretty)) =~= s.calls);
}

/// Every input leads from a sound state to a sound state. So in every state of a turn the model
/// was called at most [`MAX_STEPS`] times, each tool call of the messages produced so far is
/// answered once, in order and under its own identifier, except for those that the state still
/// waits for, and no tool that needs permission runs in the profile `Plan`.
pub proof fn turn_stays_sound(t: TurnView, input: TurnInputView, pretty: Seq<Option<Seq<char>>>)
    requires
        turn_ok(t),
    ensures
        turn_ok(turn_step(t, input, pretty).turn),
        turn_step(t, input, pretty).turn.agent == t.agent,
        turn_step(t, input, pretty).turn.tools == t.tools,
        turn_step(t, input, pretty).turn.can_save == t.can_save,
        t.saved ==> turn_step(t, input, pretty).turn.saved,
        t.steps <= turn_step(t, input, pretty).turn.steps,
{
    match (t.phase, input) {
        (PhaseView::Streaming(s), TurnInputView::Closed { now }) => {
            if s.calls.len() == 0 {
                let m = reasoned(text_message(Role::Assistant, s.text), s.reasoning);
                assert(with_message(t, m).appended.drop_last() =~= t.appended);
                assert(m.tool_calls =~= seq![]);
            } else {
                let asked = with_message(
                    t,
                    reasoned(calls_message(s.text, s.calls), s.reasoning),
                );
                asking_is_in_place(t, s, pretty);
                serve_is_sound(asked, queue_of(s.calls, pretty));
            }
        },
        (PhaseView::Saving { queue, index }, TurnInputView::Snapshot(outcome)) => {
            serve_is_sound(t, queue);
            serve_is_sound(TurnView { saved: true, ..t }, queue);
        },
        (PhaseView::Asking { queue }, TurnInputView::Decision(d)) => {
            answer_is_in_place(t, queue, DENIED@);
            serve_is_sound(answered(t, queue[0], DENIED@), queue.drop_first());
        },
        (PhaseView::Running { queue }, TurnInputView::Finished(result)) => {
            let output = tool_answer(result).0;
            answer_is_in_place(t, queue, output);
            serve_is_sound(answered(t, queue[0], output), queue.drop_first());
        },
        _ => {},
    }
}

/// The start of a turn is sound.
pub proof fn turn_starts_sound(
    agent: AgentKind,
    tools: Seq<ToolDeclView>,
    history: Seq<MessageView>,
    can_save: bool,
)
    ensures
        turn_ok(turn_start(agent, tools, history, can_save)),
{
}

// ── The machine ───────────────────────────────────────────────────────────────

/// The views of a list of optional texts.
pub open spec fn opt_views(v: Seq<Option<String>>) -> Seq<Option<Seq<char>>> {
    v.map_values(|o: Option<String>| opt_view(o))
}

/// How many milliseconds passed from `start` to `now`.
fn millis_between(start: u64, now: u64) -> (r: u64)
    ensures
        r == millis(start as nat, now as nat),
{
    if now < start {
        0
    } else {
        (now - start) / 1_000_000
    }
}

impl Step {
    fn new() -> (r: Self)
        ensures
            r@ == empty_step(),
    {
        let r = Step {
            text: String::new(),
            reasoning: String::new(),
            started: None,
            closed: false,
            calls: Vec::new(),
        };
        assert(r@ =~= empty_step());
        r
    }

    /// Reports the end of the chain of thought, where that is due.
    fn end_thought(&mut self, now: u64, events: &mut Vec<AgentEvent>)
        ensures
            final(self)@ == thought_closed(old(self)@),
            event_views(final(events)@) == event_views(old(events)@) + thought_end(
                old(self)@,
                now as nat,
            ),
    {
        let ghost before = events@;
        if let Some(start) = self.started {
            if !self.closed {
                let e = AgentEvent::ReasoningFinished { duration_ms: millis_between(start, now) };
                events.push(e);
                self.closed = true;
                assert(event_views(events@) =~= event_views(before).push(e@));
            }
        }
        assert(event_views(events@) =~= event_views(before) + thought_end(
            old(self)@,
            now as nat,
        ));
    }

    /// Takes in what the model sent, and reports it.
    fn take(&mut self, event: StreamEvent, now: u64, events: &mut Vec<AgentEvent>)
        ensures
            final(self)@ == step_with(old(self)@, event@, now as nat),
            event_views(final(events)@) == event_views(old(events)@) + step_events(
                old(self)@,
                event@,
                now as nat,
            ),
    {
        let ghost first = events@;
        match event {
            StreamEvent::Delta(d) => {
                self.end_thought(now, events);
                let ghost before = events@;
                self.text.push_str(d.as_str());
                let e = AgentEvent::Delta(d);
                events.push(e);
                assert(event_views(events@) =~= event_views(before).push(e@));
                assert(event_views(events@) =~= event_views(first) + step_events(
                    old(self)@,
                    event@,
                    now as nat,
                ));
            },
            StreamEvent::Reasoning(r) => {
                if self.started.is_none() {
                    self.started = Some(now);
                }
                self.reasoning.push_str(r.as_str());
                let e = AgentEvent::ReasoningDelta(r);
                events.push(e);
                assert(event_views(events@) =~= event_views(first) + step_events(
                    old(self)@,
                    event@,
                    now as nat,
                ));
            },
            StreamEvent::ToolCalls(c) => {
                self.end_thought(now, events);
                self.calls = c;
            },
        }
    }
}

/// The calls of a step with their arguments for display.
fn make_queue(calls: &Vec<ToolCall>, pretty: &Vec<Option<String>>) -> (r: Vec<QueuedCall>)
    ensures
        queue_views(r@) == queue_of(call_views(calls@), opt_views(pretty@)),
{
    let mut out: Vec<QueuedCall> = Vec::new();
    let ghost want = queue_of(call_views(calls@), opt_views(pretty@));
    let mut i: usize = 0;
    while i < calls.len()
        invariant
            i <= calls.len(),
            out@.len() == i,
            want == queue_of(call_views(calls@), opt_views(pretty@)),
            forall|j: int| 0 <= j < i ==> (#[trigger] out@[j])@ == want[j],
        decreases calls.len() - i,
    {
        let p: Option<String> = if i < pretty.len() {
            pretty[i].clone()
        } else {
            None
        };
        let shown = pretty_or_raw(calls[i].function.arguments.as_str(), p);
        let q = QueuedCall { call: calls[i].clone(), shown };
        assert(q@ == want[i as int]);
        out.push(q);
        i = i + 1;
    }
    assert(queue_views(out@) =~= want);
    out
}

/// Reports that a call is taken up.
fn report_start(c: &QueuedCall, events: &mut Vec<AgentEvent>)
    ensures
        event_views(final(events)@) == event_views(old(events)@).push(call_started(c@)),
{
    let ghost before = events@;
    let e = AgentEvent::ToolStarted {
        name: c.call.function.name.clone(),
        arguments: c.shown.clone(),
    };
    events.push(e);
    assert(event_views(events@) =~= event_views(before).push(e@));
}

impl Turn {
    /// The start of a turn.
    pub fn new(
        agent: AgentKind,
        tools: ToolRegistry,
        history: &Vec<Message>,
        can_save: bool,
    ) -> (r: Self)
        ensures
            r@ == turn_start(agent, tools@, message_views(history@), can_save),
            turn_ok(r@),
    {
        let mut messages: Vec<Message> = Vec::new();
        messages.push(Message::system(agent.system_prompt()));
        let mut rest = clone_messages(history);
        let ghost head = messages@;
        messages.append(&mut rest);
        assert(message_views(messages@) =~= seq![
            text_message(Role::System, prompt_of(agent)),
        ] + message_views(history@));
        let r = Turn {
            agent,
            tools,
            can_save,
            messages,
            appended: Vec::new(),
            saved: false,
            steps: 0,
            phase: Phase::Ready,
        };
        assert(r@ =~= turn_start(agent, tools@, message_views(history@), can_save));
        proof {
            turn_starts_sound(agent, tools@, message_views(history@), can_save);
        }
        r
    }

    /// The conversation, as the model gets it.
    pub fn messages(&self) -> (r: &Vec<Message>)
        ensures
            message_views(r@) == self@.messages,
    {
        &self.messages
    }

    /// The messages that the turn produced so far.
    pub fn appended(&self) -> (r: &Vec<Message>)
        ensures
            message_views(r@) == self@.appended,
    {
        &self.appended
    }

    /// Puts a message behind the conversation.
    fn append(&mut self, m: Message)
        ensures
            final(self)@ == with_message(old(self)@, m@),
    {
        let ghost before = *self;
        self.messages.push(m.clone());
        self.appended.push(m);
        assert(message_views(self.messages@) =~= message_views(before.messages@).push(m@));
        assert(message_views(self.appended@) =~= message_views(before.appended@).push(m@));
    }

    /// Ends the turn.
    fn end(&mut self, events: &mut Vec<AgentEvent>)
        ensures
            final(self)@ == turn_end(old(self)@).turn,
            event_views(final(events)@) == event_views(old(events)@) + turn_end(old(self)@).events,
    {
        let ghost before = events@;
        self.phase = Phase::Done;
        let e = AgentEvent::Turn(clone_messages(&self.appended));
        events.push(e);
        assert(event_views(events@) =~= event_views(before) + turn_end(old(self)@).events);
    }

    /// Answers a call that did not run.
    fn refuse(&mut self, c: &QueuedCall, output: &str, events: &mut Vec<AgentEvent>)
        ensures
            final(self)@ == answered(old(self)@, c@, output@),
            event_views(final(events)@) == event_views(old(events)@).push(
                call_finished(c@, output@, false),
            ),
    {
        let ghost before = events@;
        let e = AgentEvent::ToolFinished {
            name: c.call.function.name.clone(),
            output: owned(output),
            ok: false,
        };
        events.push(e);
        assert(event_views(events@) =~= event_views(before).push(e@));
        self.append(Message::tool_result(c.call.id.as_str(), output));
    }

    /// Takes up the calls in the queue.
    fn serve(&mut self, queue: Vec<QueuedCall>, events: &mut Vec<AgentEvent>)
        ensures
            final(self)@ == serve(old(self)@, queue_views(queue@)).turn,
            event_views(final(events)@) == event_views(old(events)@) + serve(
                old(self)@,
                queue_views(queue@),
            ).events,
        decreases queue@.len(),
    {
        let ghost t = self@;
        let ghost q = queue_views(queue@);
        let ghost first = event_views(events@);
        if queue.len() == 0 {
            if self.steps < MAX_STEPS {
                self.phase = Phase::Ready;
                assert(event_views(events@) =~= first + serve(t, q).events);
            } else {
                self.end(events);
            }
            return;
        }
        let name = queue[0].call.function.name.clone();
        assert(q[0] == queue@[0]@);
        let needs = self.tools.asks_permission(name.as_str());
        if needs && self.agent.allows_writes() {
            self.phase = Phase::Asking { queue };
            assert(event_views(events@) =~= first + serve(t, q).events);
            return;
        }
        if !needs {
            report_start(&queue[0], events);
            if self.tools.get(name.as_str()).is_some() {
                self.phase = Phase::Running { queue };
                assert(event_views(events@) =~= first + serve(t, q).events);
                return;
            }
        }
        let output = if needs {
            owned(BLOCKED)
        } else {
            let e = Error::InvalidArguments(concat2("tool desconocida: ", name.as_str()));
            concat2("Error: ", e.text().as_str())
        };
        self.refuse(&queue[0], output.as_str(), events);
        assert(event_views(events@) =~= first + refusal_report(t.tools, q[0]));
        let mut rest = queue;
        let _ = rest.remove(0);
        assert(queue_views(rest@) =~= q.drop_first());
        self.serve(rest, events);
        assert(event_views(events@) =~= first + serve(t, q).events);
    }

    /// Answers the first call in the queue and takes up the others.
    fn answer_first(
        &mut self,
        queue: Vec<QueuedCall>,
        output: String,
        ok: bool,
        events: &mut Vec<AgentEvent>,
    )
        requires
            queue@.len() > 0,
        ensures
            final(self)@ == answer_first(old(self)@, queue_views(queue@), output@, ok).turn,
            event_views(final(events)@) == event_views(old(events)@) + answer_first(
                old(self)@,
                queue_views(queue@),
                output@,
                ok,
            ).events,
    {
        let ghost t = self@;
        let ghost q = queue_views(queue@);
        let ghost first = event_views(events@);
        assert(q[0] == queue@[0]@);
        let e = AgentEvent::ToolFinished {
            name: queue[0].call.function.name.clone(),
            output: output.clone(),
            ok,
        };
        events.push(e);
        assert(event_views(events@) =~= first.push(e@));
        self.append(Message::tool_result(queue[0].call.id.as_str(), output.as_str()));
        let mut rest = queue;
        let _ = rest.remove(0);
        assert(queue_views(rest@) =~= q.drop_first());
        self.serve(rest, events);
        assert(event_views(events@) =~= first + answer_first(t, q, output@, ok).events);
    }

    /// Whether one of the calls is for a tool that needs permission.
    fn has_effects(&self, queue: &Vec<QueuedCall>) -> (r: bool)
        ensures
            r == any_effects(self@.tools, queue_views(queue@)),
    {
        let ghost q = queue_views(queue@);
        let mut i: usize = 0;
        while i < queue.len()
            invariant
                i <= queue.len(),
                q == queue_views(queue@),
                forall|j: int|
                    0 <= j < i ==> !#[trigger] needs_permission(
                        self@.tools,
                        q[j].call.function.name,
                    ),
            decreases queue.len() - i,
        {
            assert(q[i as int] == queue@[i as int]@);
            if self.tools.asks_permission(queue[i].call.function.name.as_str()) {
                assert(needs_permission(self@.tools, q[i as int].call.function.name));
                return true;
            }
            i = i + 1;
        }
        false
    }

    /// Takes in the end of the reply.
    fn close_reply(
        &mut self,
        step: Step,
        now: u64,
        pretty: &Vec<Option<String>>,
        events: &mut Vec<AgentEvent>,
    )
        ensures
            final(self)@ == reply_closed(old(self)@, step@, now as nat, opt_views(pretty@)).turn,
            event_views(final(events)@) == event_views(old(events)@) + reply_closed(
                old(self)@,
                step@,
                now as nat,
                opt_views(pretty@),
            ).events,
    {
        let ghost t = self@;
        let ghost s = step@;
        let ghost first = event_views(events@);
        let mut step = step;
        step.end_thought(now, events);
        let ghost want = reply_closed(t, s, now as nat, opt_views(pretty@));
        if step.calls.len() == 0 {
            if !step.text.as_str().is_empty() {
                let m = Message::assistant(step.text.as_str()).with_reasoning(
                    step.reasoning.as_str(),
                );
                self.append(m);
            }
            self.end(events);
            assert(event_views(events@) =~= first + want.events);
            return;
        }
        let queue = make_queue(&step.calls, pretty);
        let effects = self.has_effects(&queue);
        let index = self.appended.len();
        let m = Message::assistant_tool_calls(step.text.as_str(), step.calls).with_reasoning(
            step.reasoning.as_str(),
        );
        self.append(m);
        if effects && !self.saved && self.can_save {
            self.phase = Phase::Saving { queue, index };
        } else {
            self.serve(queue, events);
        }
        assert(event_views(events@) =~= first + want.events);
    }

    /// Takes in what happened outside, and reports what follows from it. `pretty` holds what
    /// laying out the arguments of the calls of the step gave; it counts when the reply closes.
    pub fn advance_with(&mut self, input: TurnInput, pretty: &Vec<Option<String>>) -> (r: Vec<
        AgentEvent,
    >)
        requires
            turn_ok(old(self)@),
        ensures
            final(self)@ == turn_step(old(self)@, input@, opt_views(pretty@)).turn,
            event_views(r@) == turn_step(old(self)@, input@, opt_views(pretty@)).events,
            turn_ok(final(self)@),
    {
        let ghost t = self@;
        let ghost want = turn_step(t, input@, opt_views(pretty@));
        proof {
            turn_stays_sound(t, input@, opt_views(pretty@));
        }
        let mut events: Vec<AgentEvent> = Vec::new();
        let mut phase = Phase::Done;
        std::mem::swap(&mut phase, &mut self.phase);
        let ghost bare = self@;
        assert(bare == in_phase(t, PhaseView::Done));
        match (phase, input) {
            (Phase::Ready, TurnInput::Opened) => {
                self.steps = self.steps + 1;
                self.phase = Phase::Streaming(Step::new());
            },
            (Phase::Ready, TurnInput::Failed) => {},
            (Phase::Streaming(_), TurnInput::Failed) => {},
            (Phase::Streaming(step), TurnInput::Event { event, now }) => {
                let mut step = step;
                step.take(event, now, &mut events);
                self.phase = Phase::Streaming(step);
            },
            (Phase::Streaming(step), TurnInput::Closed { now }) => {
                proof {
                    let q = queue_of(step@.calls, opt_views(pretty@));
                    let m = reasoned(calls_message(step@.text, step@.calls), step@.reasoning);
                    serve_ignores_phase(with_message(t, m), PhaseView::Done, q);
                    assert(with_message(bare, m) == in_phase(with_message(t, m), PhaseView::Done));
                }
                self.close_reply(step, now, pretty, &mut events);
            },
            (Phase::Saving { queue, index }, TurnInput::Snapshot(outcome)) => {
                let ghost q = queue_views(queue@);
                let ghost marked = TurnView { saved: true, ..t };
                proof {
                    serve_ignores_phase(t, PhaseView::Done, q);
                    serve_ignores_phase(marked, PhaseView::Done, q);
                    assert(TurnView { saved: true, ..bare } == in_phase(marked, PhaseView::Done));
                }
                match outcome {
                    SnapshotOutcome::Taken(hash) => {
                        self.saved = true;
                        let e = AgentEvent::StepSnapshot { hash, message_index: index };
                        events.push(e);
                        assert(event_views(events@) =~= seq![e@]);
                        self.serve(queue, &mut events);
                    },
                    SnapshotOutcome::Unavailable => {
                        self.saved = true;
                        self.serve(queue, &mut events);
                    },
                    SnapshotOutcome::Failed => {
                        self.serve(queue, &mut events);
                    },
                }
            },
            (Phase::Asking { queue }, TurnInput::Decision(d)) => {
                let ghost q = queue_views(queue@);
                match d {
                    PermissionDecision::Allow => {
                        assert(q[0] == queue@[0]@);
                        report_start(&queue[0], &mut events);
                        self.phase = Phase::Running { queue };
                    },
                    PermissionDecision::Deny => {
                        proof {
                            let a = answered(t, q[0], DENIED@);
                            serve_ignores_phase(a, PhaseView::Done, q.drop_first());
                            assert(answered(bare, q[0], DENIED@) == in_phase(a, PhaseView::Done));
                        }
                        self.answer_first(queue, owned(DENIED), false, &mut events);
                    },
                }
            },
            (Phase::Running { queue }, TurnInput::Finished(result)) => {
                let ghost q = queue_views(queue@);
                let (output, ok) = match result {
                    Ok(out) => (out, true),
                    Err(e) => (concat2("Error: ", e.text().as_str()), false),
                };
                proof {
                    let a = answered(t, q[0], output@);
                    serve_ignores_phase(a, PhaseView::Done, q.drop_first());
                    assert(answered(bare, q[0], output@) == in_phase(a, PhaseView::Done));
                }
                self.answer_first(queue, output, ok, &mut events);
            },
            (phase, _) => {
                self.phase = phase;
            },
        }
        assert(event_views(events@) =~= want.events);
        events
    }

    /// Takes in what happened outside, and reports what follows from it.
    pub fn advance(&mut self, input: TurnInput) -> (r: Vec<AgentEvent>)
        requires
            turn_ok(old(self)@),
        ensures
            final(self)@ == turn_step(old(self)@, input@, step_pretty(old(self)@)).turn,
            event_views(r@) == turn_step(old(self)@, input@, step_pretty(old(self)@)).events,
            turn_ok(final(self)@),
    {
        let mut pretty: Vec<Option<String>> = Vec::new();
        if let Phase::Streaming(step) = &self.phase {
            let ghost want = pretty_of(step@.calls);
            let mut i: usize = 0;
            while i < step.calls.len()
                invariant
                    i <= step.calls.len(),
                    pretty@.len() == i,
                    want == pretty_of(step@.calls),
                    forall|j: int| 0 <= j < i ==> opt_view(#[trigger] pretty@[j]) == want[j],
                decreases step.calls.len() - i,
            {
                let p = lay_out(step.calls[i].function.arguments.as_str());
                assert(step@.calls[i as int] == step.calls@[i as int]@);
                pretty.push(p);
                i = i + 1;
            }
            assert(opt_views(pretty@) =~= want);
        }
        assert(opt_views(pretty@) =~= step_pretty(self@));
        self.advance_with(input, &pretty)
    }

    /// What has to be done outside next.
    pub fn action(&self) -> (r: TurnAction)
        requires
            turn_ok(self@),
        ensures
            r@ == turn_action(self@),
    {
        match &self.phase {
            Phase::Ready => TurnAction::CallModel,
            Phase::Streaming(_) => TurnAction::AwaitEvent,
            Phase::Saving { .. } => TurnAction::TakeSnapshot,
            Phase::Asking { queue } => {
                assert(queue_views(queue@)[0] == queue@[0]@);
                TurnAction::AskPermission(
                    PermissionRequest {
                        tool_name: queue[0].call.function.name.clone(),
                        arguments: queue[0].shown.clone(),
                    },
                )
            },
            Phase::Running { queue } => {
                assert(queue_views(queue@)[0] == queue@[0]@);
                TurnAction::RunTool {
                    name: queue[0].call.function.name.clone(),
                    arguments: queue[0].call.function.arguments.clone(),
                }
            },
            Phase::Done => TurnAction::Stop,
        }
    }
}

/// What laying out the arguments of the calls that have arrived gives.
pub open spec fn step_pretty(t: TurnView) -> Seq<Option<Seq<char>>> {
    match t.phase {
        PhaseView::Streaming(s) => pretty_of(s.calls),
        _ => seq![],
    }
}

} // verus!
