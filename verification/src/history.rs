//! A stored conversation, as rows of the chat.
use vstd::prelude::*;
use crate::format::{format_tool_invocation, invocation, reasoning_summary, thought_summary,
    truncate, truncated, TOOL_OUTPUT_MAX};
use crate::json::json_object;
use crate::message::{call_views, Message, MessageView, Role, ToolCall, ToolCallView};
use crate::text::{opt_view, str_eq};

verus! {

// ── Values by identifier ──────────────────────────────────────────────────────

/// The value of the last pair with the identifier `id`.
pub open spec fn by_id<V>(pairs: Seq<(i64, V)>, id: i64) -> Option<V>
    decreases pairs.len(),
{
    if pairs.len() == 0 {
        None
    } else if pairs.last().0 == id {
        Some(pairs.last().1)
    } else {
        by_id(pairs.drop_last(), id)
    }
}

/// The texts of a list of pairs.
pub open spec fn hash_views(pairs: Seq<(i64, String)>) -> Seq<(i64, Seq<char>)> {
    pairs.map_values(|p: (i64, String)| (p.0, p.1@))
}

/// The text of the last pair with the identifier `id`.
pub fn hash_of(pairs: &Vec<(i64, String)>, id: i64) -> (r: Option<String>)
    ensures
        opt_view(r) == by_id(hash_views(pairs@), id),
{
    let ghost all = hash_views(pairs@);
    let mut i: usize = pairs.len();
    assert(all.take(i as int) =~= all);
    while i > 0
        invariant
            i <= pairs.len(),
            all == hash_views(pairs@),
            by_id(all, id) == by_id(all.take(i as int), id),
        decreases i,
    {
        assert(all.take(i as int).drop_last() =~= all.take(i - 1));
        assert(all.take(i as int).last() == (pairs@[i - 1].0, pairs@[i - 1].1@));
        i = i - 1;
        if pairs[i].0 == id {
            return Some(pairs[i].1.clone());
        }
    }
    None
}

/// The number of the last pair with the identifier `id`.
pub fn duration_of(pairs: &Vec<(i64, u64)>, id: i64) -> (r: Option<u64>)
    ensures
        r == by_id(pairs@, id),
{
    let mut i: usize = pairs.len();
    assert(pairs@.take(i as int) =~= pairs@);
    while i > 0
        invariant
            i <= pairs.len(),
            by_id(pairs@, id) == by_id(pairs@.take(i as int), id),
        decreases i,
    {
        assert(pairs@.take(i as int).drop_last() =~= pairs@.take(i - 1));
        i = i - 1;
        if pairs[i].0 == id {
            return Some(pairs[i].1);
        }
    }
    None
}

// ── Messages with identifiers ─────────────────────────────────────────────────

/// The views of a list of messages with their identifiers.
pub open spec fn row_messages(messages: Seq<(i64, Message)>) -> Seq<(i64, MessageView)> {
    messages.map_values(|p: (i64, Message)| (p.0, p.1@))
}

/// The messages without their identifiers.
pub open spec fn plain_messages(messages: Seq<(i64, MessageView)>) -> Seq<MessageView> {
    messages.map_values(|p: (i64, MessageView)| p.1)
}

/// What the tool answered to the call `id`: the last result that is tied to it.
pub open spec fn output_of(messages: Seq<(i64, MessageView)>, id: Seq<char>) -> Option<Seq<char>>
    decreases messages.len(),
{
    if messages.len() == 0 {
        None
    } else {
        let m = messages.last().1;
        if m.role == Role::Tool && m.tool_call_id == Some(id) {
            Some(m.content)
        } else {
            output_of(messages.drop_last(), id)
        }
    }
}

/// What the tool answered to the call `id`; nothing where it did not answer.
pub open spec fn output_text(messages: Seq<(i64, MessageView)>, id: Seq<char>) -> Seq<char> {
    match output_of(messages, id) {
        Some(s) => s,
        None => seq![],
    }
}

/// What the tool answered to the call `id`; nothing where it did not answer.
pub fn tool_answer(messages: &Vec<(i64, Message)>, id: &str) -> (r: String)
    ensures
        r@ == output_text(row_messages(messages@), id@),
{
    let ghost all = row_messages(messages@);
    let mut i: usize = messages.len();
    assert(all.take(i as int) =~= all);
    while i > 0
        invariant
            i <= messages.len(),
            all == row_messages(messages@),
            output_of(all, id@) == output_of(all.take(i as int), id@),
        decreases i,
    {
        assert(all.take(i as int).drop_last() =~= all.take(i - 1));
        assert(all.take(i as int).last() == (messages@[i - 1].0, messages@[i - 1].1@));
        i = i - 1;
        let m = &messages[i].1;
        if m.role == Role::Tool {
            if let Some(call) = &m.tool_call_id {
                if str_eq(call.as_str(), id) {
                    return m.content.clone();
                }
            }
        }
    }
    let s = String::new();
    assert(s@ =~= seq![]);
    s
}

/// The first snapshot of the conversation.
pub open spec fn base_of(
    messages: Seq<(i64, MessageView)>,
    snapshots: Seq<(i64, Seq<char>)>,
) -> Option<Seq<char>>
    decreases messages.len(),
{
    if messages.len() == 0 {
        None
    } else {
        match by_id(snapshots, messages[0].0) {
            Some(h) => Some(h),
            None => base_of(messages.drop_first(), snapshots),
        }
    }
}

/// The first snapshot of the conversation.
pub fn base_snapshot(messages: &Vec<(i64, Message)>, snapshots: &Vec<(i64, String)>) -> (r: Option<
    String,
>)
    ensures
        opt_view(r) == base_of(row_messages(messages@), hash_views(snapshots@)),
{
    let ghost all = row_messages(messages@);
    let ghost hashes = hash_views(snapshots@);
    let mut i: usize = 0;
    assert(all.skip(0) =~= all);
    while i < messages.len()
        invariant
            i <= messages.len(),
            all == row_messages(messages@),
            hashes == hash_views(snapshots@),
            base_of(all, hashes) == base_of(all.skip(i as int), hashes),
        decreases messages.len() - i,
    {
        assert(all.skip(i as int)[0] == (messages@[i as int].0, messages@[i as int].1@));
        if let Some(h) = hash_of(snapshots, messages[i].0) {
            return Some(h);
        }
        assert(all.skip(i as int).drop_first() =~= all.skip(i + 1));
        i = i + 1;
    }
    None
}

// ── Rows ──────────────────────────────────────────────────────────────────────

/// A row of the chat.
#[derive(Debug)]
pub enum HistoryRow {
    /// A text of the user or of the application.
    Bubble { role: Role, text: String },
    /// A chain of thought.
    Thought { summary: String, text: String },
    /// A reply, in Markdown.
    Reply { text: String },
    /// A tool that ran; with `revert`, its changes can be taken back to before that message.
    Tool { name: String, invocation: String, output: String, revert: Option<i64> },
}

/// What a [`HistoryRow`] holds.
#[verifier::ext_equal]
pub enum HistoryRowView {
    Bubble { role: Role, text: Seq<char> },
    Thought { summary: Seq<char>, text: Seq<char> },
    Reply { text: Seq<char> },
    Tool { name: Seq<char>, invocation: Seq<char>, output: Seq<char>, revert: Option<i64> },
}

impl View for HistoryRow {
    type V = HistoryRowView;

    open spec fn view(&self) -> HistoryRowView {
        match self {
            HistoryRow::Bubble { role, text } => HistoryRowView::Bubble {
                role: *role,
                text: text@,
            },
            HistoryRow::Thought { summary, text } => HistoryRowView::Thought {
                summary: summary@,
                text: text@,
            },
            HistoryRow::Reply { text } => HistoryRowView::Reply { text: text@ },
            HistoryRow::Tool { name, invocation, output, revert } => HistoryRowView::Tool {
                name: name@,
                invocation: invocation@,
                output: output@,
                revert: *revert,
            },
        }
    }
}

/// The views of a list of rows.
pub open spec fn history_views(rows: Seq<HistoryRow>) -> Seq<HistoryRowView> {
    rows.map_values(|r: HistoryRow| r@)
}

/// Whether a message carries a chain of thought.
pub open spec fn has_thought(m: MessageView) -> bool {
    m.reasoning matches Some(r) && r.len() > 0
}

/// The row of a tool call.
pub open spec fn call_row(
    messages: Seq<(i64, MessageView)>,
    call: ToolCallView,
    revert: Option<i64>,
) -> HistoryRowView {
    HistoryRowView::Tool {
        name: call.function.name,
        invocation: invocation(
            call.function.name,
            call.function.arguments,
            json_object(call.function.arguments),
        ),
        output: truncated(output_text(messages, call.id), TOOL_OUTPUT_MAX as nat),
        revert,
    }
}

/// The rows of the tool calls of a message; the last one offers to go back, where `revert` says
/// so.
pub open spec fn call_rows(
    messages: Seq<(i64, MessageView)>,
    calls: Seq<ToolCallView>,
    revert: Option<i64>,
) -> Seq<HistoryRowView> {
    Seq::new(
        calls.len(),
        |i: int|
            call_row(
                messages,
                calls[i],
                if i == calls.len() - 1 {
                    revert
                } else {
                    None
                },
            ),
    )
}

/// The rows of a message of the assistant: its chain of thought, its text, its tool calls.
pub open spec fn assistant_rows(
    messages: Seq<(i64, MessageView)>,
    id: i64,
    m: MessageView,
    snapshots: Seq<(i64, Seq<char>)>,
    durations: Seq<(i64, u64)>,
) -> Seq<HistoryRowView> {
    let thought = if has_thought(m) {
        seq![
            HistoryRowView::Thought {
                summary: thought_summary(
                    match by_id(durations, id) {
                        Some(ms) => ms as nat,
                        None => 0,
                    },
                ),
                text: m.reasoning->0,
            },
        ]
    } else {
        seq![]
    };
    let reply = if m.content.len() > 0 {
        seq![HistoryRowView::Reply { text: m.content }]
    } else {
        seq![]
    };
    let revert = if by_id(snapshots, id) is Some {
        Some(id)
    } else {
        None
    };
    thought + reply + call_rows(messages, m.tool_calls, revert)
}

/// The rows of a message. The results of tools stand in the rows of their calls.
pub open spec fn rows_of_message(
    messages: Seq<(i64, MessageView)>,
    id: i64,
    m: MessageView,
    snapshots: Seq<(i64, Seq<char>)>,
    durations: Seq<(i64, u64)>,
) -> Seq<HistoryRowView> {
    match m.role {
        Role::User => seq![HistoryRowView::Bubble { role: m.role, text: m.content }],
        Role::System => seq![HistoryRowView::Bubble { role: m.role, text: m.content }],
        Role::Assistant => assistant_rows(messages, id, m, snapshots, durations),
        Role::Tool => seq![],
    }
}

/// The rows of the first `n` messages.
pub open spec fn rows_up_to(
    messages: Seq<(i64, MessageView)>,
    n: nat,
    snapshots: Seq<(i64, Seq<char>)>,
    durations: Seq<(i64, u64)>,
) -> Seq<HistoryRowView>
    decreases n,
{
    if n == 0 {
        seq![]
    } else {
        rows_up_to(messages, (n - 1) as nat, snapshots, durations) + rows_of_message(
            messages,
            messages[n - 1].0,
            messages[n - 1].1,
            snapshots,
            durations,
        )
    }
}

/// The rows of a conversation.
pub open spec fn history_rows(
    messages: Seq<(i64, MessageView)>,
    snapshots: Seq<(i64, Seq<char>)>,
    durations: Seq<(i64, u64)>,
) -> Seq<HistoryRowView> {
    rows_up_to(messages, messages.len(), snapshots, durations)
}

/// Puts a row behind the others.
fn push_row(rows: &mut Vec<HistoryRow>, row: HistoryRow)
    ensures
        history_views(final(rows)@) == history_views(old(rows)@).push(row@),
{
    let ghost before = rows@;
    rows.push(row);
    assert(history_views(rows@) =~= history_views(before).push(row@));
}

/// Adds the rows of the tool calls of a message.
fn push_calls(
    rows: &mut Vec<HistoryRow>,
    messages: &Vec<(i64, Message)>,
    calls: &Vec<ToolCall>,
    revert: Option<i64>,
)
    ensures
        history_views(final(rows)@) == history_views(old(rows)@) + call_rows(
            row_messages(messages@),
            call_views(calls@),
            revert,
        ),
{
    let ghost all = row_messages(messages@);
    let ghost start = history_views(rows@);
    let ghost want = call_rows(all, call_views(calls@), revert);
    assert(start + want.take(0) =~= start);
    let mut i: usize = 0;
    while i < calls.len()
        invariant
            i <= calls.len(),
            all == row_messages(messages@),
            want == call_rows(all, call_views(calls@), revert),
            start == history_views(old(rows)@),
            history_views(rows@) == start + want.take(i as int),
        decreases calls.len() - i,
    {
        let c = &calls[i];
        let output = tool_answer(messages, c.id.as_str());
        let row = HistoryRow::Tool {
            name: c.function.name.clone(),
            invocation: format_tool_invocation(
                c.function.name.as_str(),
                c.function.arguments.as_str(),
            ),
            output: truncate(output.as_str(), TOOL_OUTPUT_MAX),
            revert: if i + 1 == calls.len() {
                revert
            } else {
                None
            },
        };
        assert(call_views(calls@)[i as int] == c@);
        assert(row@ == want[i as int]);
        push_row(rows, row);
        assert(want.take(i + 1) =~= want.take(i as int).push(want[i as int]));
        assert((start + want.take(i as int)).push(want[i as int]) =~= start + want.take(i + 1));
        i = i + 1;
    }
    assert(want.take(i as int) =~= want);
}

/// Adds the rows of a message of the assistant.
fn push_assistant(
    rows: &mut Vec<HistoryRow>,
    messages: &Vec<(i64, Message)>,
    index: usize,
    snapshots: &Vec<(i64, String)>,
    durations: &Vec<(i64, u64)>,
)
    requires
        index < messages@.len(),
    ensures
        history_views(final(rows)@) == history_views(old(rows)@) + assistant_rows(
            row_messages(messages@),
            messages@[index as int].0,
            messages@[index as int].1@,
            hash_views(snapshots@),
            durations@,
        ),
{
    let ghost start = history_views(rows@);
    let id = messages[index].0;
    let m = &messages[index].1;
    if let Some(r) = &m.reasoning {
        if !r.as_str().is_empty() {
            let ms = match duration_of(durations, id) {
                Some(ms) => ms,
                None => 0u64,
            };
            push_row(rows, HistoryRow::Thought { summary: reasoning_summary(ms), text: r.clone() });
        }
    }
    if !m.content.as_str().is_empty() {
        push_row(rows, HistoryRow::Reply { text: m.content.clone() });
    }
    let revert = if hash_of(snapshots, id).is_some() {
        Some(id)
    } else {
        None
    };
    push_calls(rows, messages, &m.tool_calls, revert);
    proof {
        let want = assistant_rows(
            row_messages(messages@),
            id,
            m@,
            hash_views(snapshots@),
            durations@,
        );
        assert(history_views(rows@) =~= start + want);
    }
}

/// The rows of a conversation.
pub fn render_history(
    messages: &Vec<(i64, Message)>,
    snapshots: &Vec<(i64, String)>,
    durations: &Vec<(i64, u64)>,
) -> (r: Vec<HistoryRow>)
    ensures
        history_views(r@) == history_rows(
            row_messages(messages@),
            hash_views(snapshots@),
            durations@,
        ),
{
    let ghost all = row_messages(messages@);
    let ghost hashes = hash_views(snapshots@);
    let mut rows: Vec<HistoryRow> = Vec::new();
    assert(history_views(rows@) =~= seq![]);
    let mut i: usize = 0;
    while i < messages.len()
        invariant
            i <= messages.len(),
            all == row_messages(messages@),
            hashes == hash_views(snapshots@),
            history_views(rows@) == rows_up_to(all, i as nat, hashes, durations@),
        decreases messages.len() - i,
    {
        assert(all[i as int] == (messages@[i as int].0, messages@[i as int].1@));
        let ghost before = history_views(rows@);
        let m = &messages[i].1;
        match m.role {
            Role::User => {
                push_row(&mut rows, HistoryRow::Bubble { role: m.role, text: m.content.clone() });
                assert(history_views(rows@) =~= before + rows_of_message(
                    all,
                    all[i as int].0,
                    m@,
                    hashes,
                    durations@,
                ));
            },
            Role::System => {
                push_row(&mut rows, HistoryRow::Bubble { role: m.role, text: m.content.clone() });
                assert(history_views(rows@) =~= before + rows_of_message(
                    all,
                    all[i as int].0,
                    m@,
                    hashes,
                    durations@,
                ));
            },
            Role::Assistant => {
                push_assistant(&mut rows, messages, i, snapshots, durations);
            },
            Role::Tool => {
                assert(before + seq![] =~= before);
            },
        }
        i = i + 1;
    }
    rows
}

// ── Laws ──────────────────────────────────────────────────────────────────────

/// A message offers to go back only where it has a snapshot and ran a tool, and then in its last
/// row.
pub proof fn only_snapshots_revert(
    messages: Seq<(i64, MessageView)>,
    id: i64,
    m: MessageView,
    snapshots: Seq<(i64, Seq<char>)>,
    durations: Seq<(i64, u64)>,
)
    ensures
        forall|i: int|
            0 <= i < rows_of_message(messages, id, m, snapshots, durations).len() ==> (
            (#[trigger] rows_of_message(messages, id, m, snapshots, durations)[i]) matches
                HistoryRowView::Tool { revert: Some(r), .. } ==> {
                &&& r == id
                &&& by_id(snapshots, id) is Some
                &&& m.tool_calls.len() > 0
                &&& i == rows_of_message(messages, id, m, snapshots, durations).len() - 1
            }),
{
}

} // verus!
